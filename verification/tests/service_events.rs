//! Tests for the reader event service: presence edges, read deduplication,
//! reader status reporting, recovery decisions, and the command/write path.

use nfc_gateway::cards::{extract_ndef_payload, ntag_pages_needed, ntag_write_plan,
    parse_ntag_tlv_header};
use nfc_gateway::ndef::{prepare_write, records_from_inputs};
use nfc_gateway::service::{
    no_card_event, no_reader_event, on_context_failure, on_enumeration, on_pnp_change,
    on_read_outcome, on_reader_event, read_to_outcome, recovery_decision, tag_error_text,
    u8_decimal, write_outcome, PcscErrorKind, ReadOutcome, RecoveryAction, ServiceState,
};
use nfc_gateway::types::{
    command_for, CardFamily, IncomingMessage, NfcCommand, OutgoingMessage, TagError,
};

fn expect_card_status(msg: &OutgoingMessage, expect_success: bool, expect_text: &str) {
    match msg {
        OutgoingMessage::CardStatus { success, message } => {
            assert_eq!(*success, expect_success);
            assert_eq!(message, expect_text);
        }
        _ => panic!("expected a card status event"),
    }
}

#[test]
fn insert_read_remove_cycle() {
    let mut st = ServiceState::new();
    assert!(!st.reader_connected && !st.card_present && st.last_data_read.is_none());

    let (msgs, do_read) = on_reader_event(&mut st, false, true);
    assert!(do_read);
    assert_eq!(msgs.len(), 1);
    expect_card_status(&msgs[0], true, "Card detected!");
    assert!(st.card_present);

    let msgs = on_read_outcome(&mut st, ReadOutcome::Decoded("hello".to_string()));
    assert_eq!(msgs.len(), 1);
    match &msgs[0] {
        OutgoingMessage::DataReadSuccess { data } => assert_eq!(data, "hello"),
        _ => panic!("expected a data read success"),
    }
    assert_eq!(st.last_data_read.as_deref(), Some("hello"));

    let (msgs, do_read) = on_reader_event(&mut st, true, false);
    assert!(!do_read);
    assert_eq!(msgs.len(), 1);
    expect_card_status(&msgs[0], false, "Card removed!");
    assert!(!st.card_present);
    assert!(st.last_data_read.is_none());
}

#[test]
fn duplicate_edges_ignored() {
    let mut st = ServiceState::new();
    let (_, do_read) = on_reader_event(&mut st, false, true);
    assert!(do_read);
    // A second rising edge while the card rests adds nothing.
    let (msgs, do_read) = on_reader_event(&mut st, false, true);
    assert!(msgs.is_empty());
    assert!(!do_read);
    // Removal, then a spurious second falling edge.
    let (msgs, _) = on_reader_event(&mut st, true, false);
    assert_eq!(msgs.len(), 1);
    let (msgs, _) = on_reader_event(&mut st, true, false);
    assert!(msgs.is_empty());
}

#[test]
fn repeat_read_deduplicated() {
    let mut st = ServiceState::new();
    let _ = on_reader_event(&mut st, false, true);
    let first = on_read_outcome(&mut st, ReadOutcome::Decoded("same".to_string()));
    assert_eq!(first.len(), 1);
    // The resting card read again with identical content: nothing published.
    let second = on_read_outcome(&mut st, ReadOutcome::Decoded("same".to_string()));
    assert!(second.is_empty());
    // Different content is published.
    let third = on_read_outcome(&mut st, ReadOutcome::Decoded("other".to_string()));
    assert_eq!(third.len(), 1);
}

#[test]
fn dedup_resets_on_removal() {
    let mut st = ServiceState::new();
    let mut successes = 0;
    for _ in 0..2 {
        let _ = on_reader_event(&mut st, false, true);
        let msgs = on_read_outcome(&mut st, ReadOutcome::Decoded("same".to_string()));
        successes += msgs
            .iter()
            .filter(|m| matches!(m, OutgoingMessage::DataReadSuccess { .. }))
            .count();
        let _ = on_reader_event(&mut st, true, false);
    }
    assert_eq!(successes, 2);
}

#[test]
fn reader_unplug_cycle() {
    let mut st = ServiceState::new();
    // Startup enumeration always reports.
    let msgs = on_enumeration(&mut st, true);
    assert_eq!(msgs.len(), 1);
    assert!(matches!(msgs[0], OutgoingMessage::ReaderStatus { success: true }));
    // Unplug: reported exactly once.
    let msgs = on_pnp_change(&mut st, false);
    assert_eq!(msgs.len(), 1);
    assert!(matches!(msgs[0], OutgoingMessage::ReaderStatus { success: false }));
    let msgs = on_pnp_change(&mut st, false);
    assert!(msgs.is_empty());
    // Replug: reported once more.
    let msgs = on_pnp_change(&mut st, true);
    assert_eq!(msgs.len(), 1);
    assert!(matches!(msgs[0], OutgoingMessage::ReaderStatus { success: true }));
}

#[test]
fn recovery_decisions() {
    assert_eq!(
        recovery_decision(PcscErrorKind::ServiceStopped),
        RecoveryAction::Reestablish { backoff_ms: 1000 }
    );
    assert_eq!(
        recovery_decision(PcscErrorKind::NoService),
        RecoveryAction::Reestablish { backoff_ms: 1000 }
    );
    assert_eq!(recovery_decision(PcscErrorKind::Timeout), RecoveryAction::Proceed);
    assert_eq!(recovery_decision(PcscErrorKind::Other), RecoveryAction::Retry { backoff_ms: 100 });
}

#[test]
fn service_crash_recovery_keeps_state_clean() {
    let mut st = ServiceState::new();
    let _ = on_enumeration(&mut st, true);
    // The blocking wait reports the resource manager died.
    assert_eq!(
        recovery_decision(PcscErrorKind::ServiceStopped),
        RecoveryAction::Reestablish { backoff_ms: 1000 }
    );
    // While re-establishing fails, clients hear about it (they saw a reader).
    let (msgs, backoff) = on_context_failure(&st, "service stopped".to_string());
    assert_eq!(backoff, 3000);
    assert_eq!(msgs.len(), 1);
    assert!(matches!(&msgs[0], OutgoingMessage::ReaderError { .. }));
    // A fresh service that never saw a reader stays quiet.
    let quiet = ServiceState::new();
    let (msgs, _) = on_context_failure(&quiet, "service stopped".to_string());
    assert!(msgs.is_empty());
    // Re-establishment re-enumerates and reports; the cached state is intact.
    let msgs = on_enumeration(&mut st, true);
    assert_eq!(msgs.len(), 1);
    assert!(matches!(msgs[0], OutgoingMessage::ReaderStatus { success: true }));
    assert!(!st.card_present && st.last_data_read.is_none());
}

#[test]
fn auth_failure_message() {
    assert_eq!(tag_error_text(TagError::SectorAuthFailed(1)), "Auth failed for sector 1");
    let outcome = read_to_outcome(CardFamily::Mifare1k, Err(TagError::SectorAuthFailed(1)));
    let mut st = ServiceState::new();
    let _ = on_reader_event(&mut st, false, true);
    let msgs = on_read_outcome(&mut st, outcome);
    assert_eq!(msgs.len(), 1);
    match &msgs[0] {
        OutgoingMessage::DataReadError { error } => assert_eq!(error, "Auth failed for sector 1"),
        _ => panic!("expected a data read error"),
    }
}

#[test]
fn empty_card_reports_empty_non_ndef() {
    let mut st = ServiceState::new();
    let _ = on_reader_event(&mut st, false, true);
    // NTAG: the first page carries no NDEF container.
    let outcome = read_to_outcome(CardFamily::Ntag, Err(TagError::NoNdefContainer));
    let msgs = on_read_outcome(&mut st, outcome);
    assert_eq!(msgs.len(), 1);
    match &msgs[0] {
        OutgoingMessage::DataReadError { error } => assert_eq!(error, "Empty/Non-NDEF"),
        _ => panic!("expected a data read error"),
    }
    // MIFARE: all-zero blocks decode to nothing.
    let outcome = read_to_outcome(CardFamily::Mifare1k, Ok(vec![0u8; 720]));
    let msgs = on_read_outcome(&mut st, outcome);
    assert_eq!(msgs.len(), 1);
    match &msgs[0] {
        OutgoingMessage::DataReadError { error } => assert_eq!(error, "Empty/Non-NDEF"),
        _ => panic!("expected a data read error"),
    }
}

#[test]
fn write_then_read_hello_on_ntag() {
    // The client command, parsed by the gateway into record descriptions.
    let cmd = command_for(IncomingMessage::WriteData {
        payloads: "[{\"data_type\":\"TEXT\",\"content\":\"hello\"}]".to_string(),
    });
    assert!(matches!(cmd, NfcCommand::Write { .. }));
    let items = vec![("TEXT".to_string(), "hello".to_string())];
    let records = records_from_inputs(&items).unwrap();
    let tlv = prepare_write(&records).unwrap();
    assert_eq!(
        tlv,
        vec![
            0x03, 0x0C, 0xD1, 0x01, 0x08, 0x54, 0x02, 0x65, 0x6E, 0x68, 0x65, 0x6C, 0x6C, 0x6F,
            0xFE
        ]
    );
    // Lay the pages on a simulated card.
    let plan = ntag_write_plan(&tlv).unwrap();
    assert_eq!(plan.len(), 4);
    assert_eq!(plan.iter().map(|e| e.0).collect::<Vec<u8>>(), vec![4, 5, 6, 7]);
    let mut card: Vec<u8> = Vec::new();
    for (_, chunk) in &plan {
        card.extend(chunk);
    }
    assert_eq!(&card[0..15], &tlv[..]);
    assert_eq!(card[15], 0x00);
    // Read it back.
    let (ndef_len, header) = parse_ntag_tlv_header(&card[0..4]).unwrap();
    assert_eq!((ndef_len, header), (12, 2));
    assert_eq!(ntag_pages_needed(ndef_len, header), 4);
    let msg = extract_ndef_payload(&card, header, ndef_len).unwrap();
    let outcome = read_to_outcome(CardFamily::Ntag, Ok(msg));
    let mut st = ServiceState::new();
    let _ = on_reader_event(&mut st, false, true);
    let msgs = on_read_outcome(&mut st, outcome);
    assert_eq!(msgs.len(), 1);
    match &msgs[0] {
        OutgoingMessage::DataReadSuccess { data } => assert_eq!(data, "hello"),
        _ => panic!("expected a data read success"),
    }
}

#[test]
fn multi_record_write_round_trip() {
    let items = vec![
        ("TEXT".to_string(), "hello".to_string()),
        ("URL".to_string(), "example.com".to_string()),
    ];
    let records = records_from_inputs(&items).unwrap();
    let tlv = prepare_write(&records).unwrap();
    let msg = nfc_gateway::ndef::unwrap_tlv(&tlv).unwrap();
    let parsed = nfc_gateway::ndef::parse_records(&msg).unwrap();
    assert_eq!(parsed.len(), 2);
    assert_eq!(parsed[0].rtype, vec![0x54]);
    assert_eq!(&parsed[0].payload[3..], b"hello");
    assert_eq!(parsed[1].rtype, vec![0x55]);
    assert_eq!(&parsed[1].payload[1..], b"example.com");
}

#[test]
fn write_outcome_messages() {
    match write_outcome(Ok(())) {
        OutgoingMessage::DataWriteSuccess { message } => {
            assert_eq!(message, "Data Written Successfully!")
        }
        _ => panic!("expected a write success"),
    }
    match write_outcome(Err("Write Auth Failed".to_string())) {
        OutgoingMessage::DataWriteError { error } => assert_eq!(error, "Write Auth Failed"),
        _ => panic!("expected a write error"),
    }
    match no_reader_event() {
        OutgoingMessage::DataWriteError { error } => assert_eq!(error, "No reader connected"),
        _ => panic!("expected a write error"),
    }
    match no_card_event() {
        OutgoingMessage::DataWriteError { error } => assert_eq!(error, "No card found on reader"),
        _ => panic!("expected a write error"),
    }
}

#[test]
fn check_reader_status_command() {
    let cmd = command_for(IncomingMessage::GetReaderStatus);
    assert!(matches!(cmd, NfcCommand::CheckReaderStatus));
}

#[test]
fn u8_decimal_renders() {
    assert_eq!(u8_decimal(0), "0");
    assert_eq!(u8_decimal(7), "7");
    assert_eq!(u8_decimal(10), "10");
    assert_eq!(u8_decimal(45), "45");
    assert_eq!(u8_decimal(100), "100");
    assert_eq!(u8_decimal(255), "255");
}

#[test]
fn read_failure_reports_reason() {
    let outcome = read_to_outcome(CardFamily::Ntag, Err(TagError::IncompleteRead));
    let mut st = ServiceState::new();
    let _ = on_reader_event(&mut st, false, true);
    let msgs = on_read_outcome(&mut st, outcome);
    match &msgs[0] {
        OutgoingMessage::DataReadError { error } => {
            assert_eq!(error, "Incomplete read: card ended before NDEF length reached")
        }
        _ => panic!("expected a data read error"),
    }
}
