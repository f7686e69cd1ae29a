//! Tests for the APDU frame builders and the status-word check.

use nfc_gateway::apdu::{
    authenticate, is_success, load_key, read_binary, strip_status, update_binary, KEY_TYPE_A,
    KEY_TYPE_B,
};
use nfc_gateway::types::{card_family, CardFamily};

#[test]
fn load_key_frame() {
    let key = [0xA0, 0xA1, 0xA2, 0xA3, 0xA4, 0xA5];
    assert_eq!(
        load_key(&key),
        vec![0xFF, 0x82, 0x00, 0x00, 0x06, 0xA0, 0xA1, 0xA2, 0xA3, 0xA4, 0xA5]
    );
}

#[test]
fn authenticate_frame() {
    assert_eq!(
        authenticate(4, KEY_TYPE_A),
        vec![0xFF, 0x86, 0x00, 0x00, 0x05, 0x01, 0x00, 0x04, 0x60, 0x00]
    );
    assert_eq!(
        authenticate(8, KEY_TYPE_B),
        vec![0xFF, 0x86, 0x00, 0x00, 0x05, 0x01, 0x00, 0x08, 0x61, 0x00]
    );
}

#[test]
fn read_binary_frame() {
    assert_eq!(read_binary(4, 16), vec![0xFF, 0xB0, 0x00, 0x04, 0x10]);
    assert_eq!(read_binary(7, 4), vec![0xFF, 0xB0, 0x00, 0x07, 0x04]);
}

#[test]
fn update_binary_frame() {
    let data = [0xDE, 0xAD, 0xBE, 0xEF];
    assert_eq!(
        update_binary(5, &data),
        vec![0xFF, 0xD6, 0x00, 0x05, 0x04, 0xDE, 0xAD, 0xBE, 0xEF]
    );
}

#[test]
fn status_word_checks() {
    assert!(is_success(&[0x01, 0x02, 0x90, 0x00]));
    assert!(is_success(&[0x90, 0x00]));
    assert!(!is_success(&[0x90, 0x01]));
    assert!(!is_success(&[0x63, 0x00]));
    assert!(!is_success(&[0x90]));
    assert!(!is_success(&[]));
}

#[test]
fn strip_status_drops_status_word() {
    assert_eq!(strip_status(&[0x01, 0x02, 0x03, 0x90, 0x00]), vec![0x01, 0x02, 0x03]);
    assert_eq!(strip_status(&[0x90, 0x00]), Vec::<u8>::new());
}

#[test]
fn card_family_heuristic() {
    assert_eq!(card_family(&[0x3B, 0x8F, 0x6A]), CardFamily::Mifare1k);
    assert_eq!(card_family(&[0x3B, 0x8F, 0x68]), CardFamily::Ntag);
    assert_eq!(card_family(&[]), CardFamily::Ntag);
}
