//! Tests for the NDEF codec: record encoding, TLV framing, parsing, and the
//! text decoder.

use nfc_gateway::ndef::{
    decode_message_text, decode_ndef_text, encode_multi, encode_ndef_message, parse_records,
    prepare_write, records_from_inputs, unwrap_tlv, wrap_in_tlv,
};
use nfc_gateway::types::{NdefError, NdefRecord, RecordType};

fn text_record(text: &str) -> NdefRecord {
    NdefRecord { rtype: RecordType::Text, content: text.as_bytes().to_vec() }
}

fn url_record(url: &str) -> NdefRecord {
    NdefRecord { rtype: RecordType::Url, content: url.as_bytes().to_vec() }
}

fn app_record(pkg: &str) -> NdefRecord {
    NdefRecord { rtype: RecordType::App, content: pkg.as_bytes().to_vec() }
}

#[test]
fn encodes_hello_text_record() {
    let msg = encode_ndef_message("hello");
    assert_eq!(
        msg,
        vec![0xD1, 0x01, 0x08, 0x54, 0x02, 0x65, 0x6E, 0x68, 0x65, 0x6C, 0x6C, 0x6F]
    );
    let tlv = wrap_in_tlv(&msg);
    assert_eq!(
        tlv,
        vec![
            0x03, 0x0C, 0xD1, 0x01, 0x08, 0x54, 0x02, 0x65, 0x6E, 0x68, 0x65, 0x6C, 0x6C, 0x6F,
            0xFE
        ]
    );
}

#[test]
fn tlv_first_and_last_bytes() {
    for data in [vec![], vec![0x01], vec![0xAB; 100], vec![0x03; 300]] {
        let tlv = wrap_in_tlv(&data);
        assert_eq!(tlv[0], 0x03);
        assert_eq!(*tlv.last().unwrap(), 0xFE);
    }
}

#[test]
fn tlv_long_form_encodes_16bit_length() {
    let data = vec![0x55; 300];
    let tlv = wrap_in_tlv(&data);
    assert_eq!(tlv[0], 0x03);
    assert_eq!(tlv[1], 0xFF);
    assert_eq!(tlv[2], 0x01);
    assert_eq!(tlv[3], 0x2C);
    assert_eq!(tlv.len(), 300 + 5);
    assert_eq!(*tlv.last().unwrap(), 0xFE);
}

#[test]
fn tlv_long_form_decodes_16bit_length() {
    let mut buf = vec![0x03, 0xFF, 0x01, 0x2C];
    buf.extend(std::iter::repeat(0x77).take(300));
    buf.push(0xFE);
    let msg = unwrap_tlv(&buf).unwrap();
    assert_eq!(msg.len(), 300);
    assert!(msg.iter().all(|&b| b == 0x77));
}

#[test]
fn unwrap_finds_first_tlv_tag() {
    let buf = vec![0x00, 0x10, 0x03, 0x02, 0xAA, 0xBB, 0xFE];
    assert_eq!(unwrap_tlv(&buf).unwrap(), vec![0xAA, 0xBB]);
}

#[test]
fn unwrap_rejects_missing_or_truncated_tlv() {
    assert_eq!(unwrap_tlv(&[0x00, 0x01, 0x02]), Err(NdefError::NoNdefTlv));
    assert_eq!(unwrap_tlv(&[0x00, 0x03]), Err(NdefError::TruncatedMessage));
    assert_eq!(unwrap_tlv(&[0x03, 0x05, 0x01]), Err(NdefError::TruncatedMessage));
}

#[test]
fn round_trips_text() {
    for text in ["hello, world", "", "héllo → wörld", "exactly ascii"] {
        let msg = encode_ndef_message(text);
        let tlv = wrap_in_tlv(&msg);
        assert_eq!(decode_ndef_text(&tlv).unwrap(), text);
    }
}

#[test]
fn round_trips_multi_record() {
    let records = vec![text_record("hello"), url_record("example.com"), app_record("com.example")];
    let msg = encode_multi(&records).unwrap();
    let tlv = wrap_in_tlv(&msg);
    let inner = unwrap_tlv(&tlv).unwrap();
    assert_eq!(inner, msg);
    let parsed = parse_records(&inner).unwrap();
    assert_eq!(parsed.len(), 3);
    assert_eq!(parsed[0].tnf, 1);
    assert_eq!(parsed[0].rtype, vec![0x54]);
    assert_eq!(parsed[0].payload, {
        let mut p = vec![0x02, 0x65, 0x6E];
        p.extend_from_slice(b"hello");
        p
    });
    assert_eq!(parsed[1].tnf, 1);
    assert_eq!(parsed[1].rtype, vec![0x55]);
    assert_eq!(parsed[1].payload, {
        let mut p = vec![0x00];
        p.extend_from_slice(b"example.com");
        p
    });
    assert_eq!(parsed[2].tnf, 4);
    assert_eq!(parsed[2].rtype, b"android.com:pkg".to_vec());
    assert_eq!(parsed[2].payload, b"com.example".to_vec());
    assert!(parsed.iter().all(|r| r.id.is_empty()));
}

#[test]
fn single_record_headers() {
    assert_eq!(encode_multi(&vec![text_record("x")]).unwrap()[0], 0xD1);
    assert_eq!(encode_multi(&vec![url_record("x")]).unwrap()[0], 0xD1);
    assert_eq!(encode_multi(&vec![app_record("x")]).unwrap()[0], 0xD4);
}

#[test]
fn three_record_header_flags() {
    let records = vec![text_record("one"), url_record("two"), app_record("three")];
    let msg = encode_multi(&records).unwrap();
    // Walk the three records by their declared lengths.
    let mut offsets = Vec::new();
    let mut pos = 0;
    for _ in 0..3 {
        offsets.push(pos);
        let type_len = msg[pos + 1] as usize;
        let payload_len = msg[pos + 2] as usize;
        pos += 3 + type_len + payload_len;
    }
    assert_eq!(pos, msg.len());
    let headers: Vec<u8> = offsets.iter().map(|&o| msg[o]).collect();
    // MB is bit 7, ME is bit 6.
    assert_eq!(headers[0] & 0xC0, 0x80);
    assert_eq!(headers[1] & 0xC0, 0x00);
    assert_eq!(headers[2] & 0xC0, 0x40);
    // SR set, IL clear on all three.
    for h in headers {
        assert_eq!(h & 0x10, 0x10);
        assert_eq!(h & 0x08, 0x00);
    }
}

#[test]
fn rejects_empty_record_list() {
    assert_eq!(encode_multi(&vec![]), Err(NdefError::EmptyMessage));
    assert_eq!(prepare_write(&vec![]), Err(NdefError::EmptyMessage));
}

#[test]
fn rejects_oversize_payload() {
    let records = vec![text_record(&"x".repeat(300))];
    assert_eq!(encode_multi(&records), Err(NdefError::PayloadTooLong));
}

#[test]
fn decode_rejects_all_zero_buffer() {
    assert_eq!(decode_ndef_text(&[0u8; 64]), Err(NdefError::NoNdefTlv));
}

#[test]
fn decode_rejects_invalid_utf8() {
    let msg = vec![0xD1, 0x01, 0x05, 0x54, 0x02, 0x65, 0x6E, 0xFF, 0xFE];
    let tlv = wrap_in_tlv(&msg);
    assert_eq!(decode_ndef_text(&tlv), Err(NdefError::InvalidUtf8));
}

#[test]
fn decode_rejects_truncated_record() {
    let tlv = wrap_in_tlv(&[0xD1]);
    assert_eq!(decode_ndef_text(&tlv), Err(NdefError::TruncatedRecord));
}

#[test]
fn parse_records_reads_long_payload_length() {
    // SR = 0: the payload length is a 4-byte big-endian value.
    let mut msg = vec![0xC1, 0x01, 0x00, 0x00, 0x01, 0x00, 0x54];
    msg.extend(std::iter::repeat(0x61).take(256));
    let parsed = parse_records(&msg).unwrap();
    assert_eq!(parsed.len(), 1);
    assert_eq!(parsed[0].payload.len(), 256);
}

#[test]
fn parse_records_honors_il() {
    // IL = 1: a one-byte ID length follows the payload length.
    let msg = vec![0xD9, 0x01, 0x02, 0x03, 0x54, 0x0A, 0x0B, 0x0C, 0x09, 0x09];
    let parsed = parse_records(&msg).unwrap();
    assert_eq!(parsed.len(), 1);
    assert_eq!(parsed[0].rtype, vec![0x54]);
    assert_eq!(parsed[0].id, vec![0x0A, 0x0B, 0x0C]);
    assert_eq!(parsed[0].payload, vec![0x09, 0x09]);
}

#[test]
fn parse_records_rejects_runaway_lengths() {
    assert_eq!(parse_records(&[0xD1, 0x01, 0x60, 0x54]), Err(NdefError::TruncatedRecord));
    assert_eq!(parse_records(&[]), Err(NdefError::TruncatedRecord));
    // ME never set and the bytes run out.
    let msg = vec![0x91, 0x01, 0x01, 0x54, 0x61];
    assert_eq!(parse_records(&msg), Err(NdefError::TruncatedRecord));
}

#[test]
fn records_from_inputs_maps_types() {
    let items = vec![
        ("TEXT".to_string(), "hi".to_string()),
        ("URL".to_string(), "example.com".to_string()),
        ("APP".to_string(), "com.example".to_string()),
    ];
    let records = records_from_inputs(&items).unwrap();
    assert_eq!(records.len(), 3);
    assert_eq!(records[0].rtype, RecordType::Text);
    assert_eq!(records[0].content, b"hi".to_vec());
    assert_eq!(records[1].rtype, RecordType::Url);
    assert_eq!(records[2].rtype, RecordType::App);

    let bad = vec![("FOO".to_string(), "x".to_string())];
    assert_eq!(records_from_inputs(&bad), Err(NdefError::UnknownRecordType));
}

#[test]
fn prepare_write_wraps_message() {
    let records = vec![text_record("hello")];
    let tlv = prepare_write(&records).unwrap();
    let msg = encode_multi(&records).unwrap();
    assert_eq!(tlv, wrap_in_tlv(&msg));
}

#[test]
fn decode_message_text_reads_bare_message() {
    let msg = encode_ndef_message("bare");
    assert_eq!(decode_message_text(&msg).unwrap(), "bare");
}
