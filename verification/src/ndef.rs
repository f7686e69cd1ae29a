//! The NDEF codec: encoding of Text, URI and Android Application records
//! (single- and multi-record messages), record parsing, text extraction, and
//! the outer TLV container (`0x03` tag, short or 16-bit length, `0xFE`
//! terminator).
//!
//! Every encoder and decoder is specified against the spec-level byte model
//! defined at the top of this module, and the round-trip and header laws are
//! proved over that model further down.

use vstd::prelude::*;
use vstd::string::*;
use vstd::utf8::*;

use crate::bytes::{copy_range, find_byte, spec_find_byte};
use crate::types::{NdefError, NdefRecord, NdefRecordV, ParsedRecord, ParsedRecordV, RecordType};

verus! {

// ---------------------------------------------------------------------------
// Spec-level byte model
// ---------------------------------------------------------------------------
/// The TNF (Type Name Format) of each record kind: 1 = Well-Known,
/// 4 = External.
pub open spec fn spec_tnf(rtype: RecordType) -> u8 {
    match rtype {
        RecordType::Text => 1,
        RecordType::Url => 1,
        RecordType::App => 4,
    }
}

/// The type field of each record kind: `T`, `U`, or `android.com:pkg`.
pub open spec fn spec_type_field(rtype: RecordType) -> Seq<u8> {
    match rtype {
        RecordType::Text => seq![0x54u8],
        RecordType::Url => seq![0x55u8],
        RecordType::App => seq![
            0x61u8,
            0x6eu8,
            0x64u8,
            0x72u8,
            0x6fu8,
            0x69u8,
            0x64u8,
            0x2eu8,
            0x63u8,
            0x6fu8,
            0x6du8,
            0x3au8,
            0x70u8,
            0x6bu8,
            0x67u8,
        ],
    }
}

/// The payload laid around the content: Text carries a status byte (UTF-8,
/// language length 2) and the language code `en`; URI carries the
/// no-abbreviation prefix `0x00`; an application record carries the content
/// bare.
pub open spec fn spec_record_payload(rtype: RecordType, content: Seq<u8>) -> Seq<u8> {
    match rtype {
        RecordType::Text => seq![0x02u8, 0x65u8, 0x6eu8] + content,
        RecordType::Url => seq![0x00u8] + content,
        RecordType::App => content,
    }
}

/// The record header byte `MB | ME | CF | SR | IL | TNF`, always with CF = 0,
/// SR = 1 and IL = 0 here.
pub open spec fn spec_header_byte(rtype: RecordType, mb: bool, me: bool) -> u8 {
    ((if mb {
        0x80int
    } else {
        0int
    }) + (if me {
        0x40int
    } else {
        0int
    }) + 0x10 + spec_tnf(rtype) as int) as u8
}

/// One short record: header, type length, payload length, type field,
/// payload.
pub open spec fn spec_encode_record(rtype: RecordType, content: Seq<u8>, mb: bool, me: bool) -> Seq<
    u8,
> {
    let type_field = spec_type_field(rtype);
    let payload = spec_record_payload(rtype, content);
    seq![
        spec_header_byte(rtype, mb, me),
        type_field.len() as u8,
        payload.len() as u8,
    ] + type_field + payload
}

/// Whether a record's payload fits a short record's one-byte length field.
pub open spec fn record_fits(record: NdefRecordV) -> bool {
    spec_record_payload(record.rtype, record.content).len() <= 255
}

/// The records from index `i` on, each encoded with MB set only on the
/// message's first record and ME only on its last.
pub open spec fn spec_encode_from(records: Seq<NdefRecordV>, i: int) -> Seq<u8>
    decreases records.len() - i,
{
    if i < 0 || i >= records.len() {
        seq![]
    } else {
        spec_encode_record(records[i].rtype, records[i].content, i == 0, i == records.len() - 1)
            + spec_encode_from(records, i + 1)
    }
}

/// A whole multi-record message.
pub open spec fn spec_encode_multi(records: Seq<NdefRecordV>) -> Seq<u8> {
    spec_encode_from(records, 0)
}

/// The TLV container: tag `0x03`, a one-byte length (or `0xFF` followed by
/// the length as a big-endian 16-bit value), the message, and the terminator
/// `0xFE`.
pub open spec fn spec_wrap_tlv(msg: Seq<u8>) -> Seq<u8> {
    if msg.len() < 255 {
        seq![0x03u8, msg.len() as u8] + msg + seq![0xFEu8]
    } else {
        seq![0x03u8, 0xFFu8, (msg.len() / 256) as u8, (msg.len() % 256) as u8] + msg
            + seq![0xFEu8]
    }
}

/// The message inside the first TLV container of `buf`, if the container is
/// whole: the length is the byte after the first `0x03`, or, when that byte
/// is `0xFF`, the big-endian 16-bit value in the two bytes after it.
pub open spec fn spec_unwrap_tlv(buf: Seq<u8>) -> Option<Seq<u8>> {
    match spec_find_byte(buf, 0x03, 0) {
        None => None,
        Some(p) => {
            if p + 2 > buf.len() {
                None
            } else if buf[p + 1] == 0xFF {
                let len = (buf[p + 2] as int) * 256 + (buf[p + 3] as int);
                if p + 4 > buf.len() || p + 4 + len > buf.len() {
                    None
                } else {
                    Some(buf.subrange(p + 4, p + 4 + len))
                }
            } else {
                let len = buf[p + 1] as int;
                if p + 2 + len > buf.len() {
                    None
                } else {
                    Some(buf.subrange(p + 2, p + 2 + len))
                }
            }
        },
    }
}

/// The error reported when no TLV container can be extracted from `buf`.
pub open spec fn spec_unwrap_err(buf: Seq<u8>) -> NdefError {
    if spec_find_byte(buf, 0x03, 0) is None {
        NdefError::NoNdefTlv
    } else {
        NdefError::TruncatedMessage
    }
}

// ---------------------------------------------------------------------------
// Spec-level record parsing
// ---------------------------------------------------------------------------
/// The TNF: the header's low three bits.
pub open spec fn spec_header_tnf(h: u8) -> u8 {
    ((h as int) % 8) as u8
}

/// The IL flag: header bit 3.
pub open spec fn spec_header_il(h: u8) -> bool {
    ((h as int) / 8) % 2 == 1
}

/// The SR flag: header bit 4.
pub open spec fn spec_header_sr(h: u8) -> bool {
    ((h as int) / 16) % 2 == 1
}

/// The ME flag: header bit 6.
pub open spec fn spec_header_me(h: u8) -> bool {
    ((h as int) / 64) % 2 == 1
}

/// The tail of one record once the header and both length fields are read:
/// the optional ID length at `off`, then the type field, ID and payload.
/// `None` when any of them overruns the message.
pub open spec fn spec_parse_body(
    msg: Seq<u8>,
    tnf: u8,
    me: bool,
    il: bool,
    type_len: int,
    payload_len: int,
    off: int,
) -> Option<(ParsedRecordV, bool, int)> {
    if il && off >= msg.len() {
        None
    } else {
        let id_len: int = if il {
            msg[off] as int
        } else {
            0
        };
        let fields = if il {
            off + 1
        } else {
            off
        };
        let end = fields + type_len + id_len + payload_len;
        if end > msg.len() {
            None
        } else {
            Some(
                (
                    ParsedRecordV {
                        tnf: tnf,
                        rtype: msg.subrange(fields, fields + type_len),
                        id: msg.subrange(fields + type_len, fields + type_len + id_len),
                        payload: msg.subrange(fields + type_len + id_len, end),
                    },
                    me,
                    end,
                ),
            )
        }
    }
}

/// One record at the head of `msg`: the parsed record, its ME flag, and how
/// many bytes it occupies. The payload length is one byte for a short
/// record, else a big-endian 32-bit value.
pub open spec fn spec_parse_record(msg: Seq<u8>) -> Option<(ParsedRecordV, bool, int)> {
    if msg.len() < 3 {
        None
    } else {
        let h = msg[0];
        let type_len = msg[1] as int;
        if spec_header_sr(h) {
            spec_parse_body(
                msg,
                spec_header_tnf(h),
                spec_header_me(h),
                spec_header_il(h),
                type_len,
                msg[2] as int,
                3,
            )
        } else {
            if msg.len() < 6 {
                None
            } else {
                let payload_len = (msg[2] as int) * 0x1000000 + (msg[3] as int) * 0x10000 + (
                msg[4] as int) * 0x100 + (msg[5] as int);
                spec_parse_body(
                    msg,
                    spec_header_tnf(h),
                    spec_header_me(h),
                    spec_header_il(h),
                    type_len,
                    payload_len,
                    6,
                )
            }
        }
    }
}

/// All records of a message: records are read in turn until one carries the
/// ME flag; running out of bytes first is a failure.
pub open spec fn spec_parse_records(msg: Seq<u8>) -> Option<Seq<ParsedRecordV>>
    decreases msg.len(),
{
    match spec_parse_record(msg) {
        None => None,
        Some((record, me, used)) => {
            if me {
                Some(seq![record])
            } else if used < 1 || used > msg.len() {
                None
            } else {
                match spec_parse_records(msg.subrange(used, msg.len() as int)) {
                    None => None,
                    Some(rest) => Some(seq![record] + rest),
                }
            }
        },
    }
}

// ---------------------------------------------------------------------------
// Exec record parsing
// ---------------------------------------------------------------------------
/// Parse the record at the head of `msg`, returning it with its ME flag and
/// the count of bytes it occupies.
pub fn parse_record_prefix(msg: &[u8]) -> (r: Result<(ParsedRecord, bool, usize), NdefError>)
    ensures
        (r matches Ok((record, me, used)) ==> spec_parse_record(msg@) == Some(
            (record@, me, used as int),
        ) && 3 <= used <= msg@.len()),
        r is Err ==> spec_parse_record(msg@) is None,
        (r matches Err(e) ==> e == NdefError::TruncatedRecord),
{
    let n = msg.len();
    if n < 3 {
        return Err(NdefError::TruncatedRecord);
    }
    let h = msg[0];
    let tnf = h % 8;
    let il = (h / 8) % 2 == 1;
    let sr = (h / 16) % 2 == 1;
    let me = (h / 64) % 2 == 1;
    let type_len = msg[1] as usize;
    let payload_len: u64;
    let off: usize;
    if sr {
        payload_len = msg[2] as u64;
        off = 3;
    } else {
        if n < 6 {
            return Err(NdefError::TruncatedRecord);
        }
        payload_len = (msg[2] as u64) * 0x1000000 + (msg[3] as u64) * 0x10000 + (msg[4] as u64)
            * 0x100 + (msg[5] as u64);
        off = 6;
    }
    if il && off >= n {
        return Err(NdefError::TruncatedRecord);
    }
    let id_len: usize = if il {
        msg[off] as usize
    } else {
        0
    };
    let fields: usize = if il {
        off + 1
    } else {
        off
    };
    let end64: u64 = fields as u64 + type_len as u64 + id_len as u64 + payload_len;
    if end64 > n as u64 {
        return Err(NdefError::TruncatedRecord);
    }
    let end = end64 as usize;
    let payload_start = fields + type_len + id_len;
    let record = ParsedRecord {
        tnf,
        rtype: copy_range(msg, fields, fields + type_len),
        id: copy_range(msg, fields + type_len, payload_start),
        payload: copy_range(msg, payload_start, end),
    };
    Ok((record, me, end))
}

/// Parse every record of a message, in order, stopping at the record whose
/// ME flag is set. Fails with `TruncatedRecord` exactly when the message is
/// not a whole record sequence.
pub fn parse_records(msg: &[u8]) -> (r: Result<Vec<ParsedRecord>, NdefError>)
    ensures
        (r matches Ok(records) ==> spec_parse_records(msg@) == Some(
            records@.map_values(|p: ParsedRecord| p@),
        )),
        r is Err ==> spec_parse_records(msg@) is None,
        (r matches Err(e) ==> e == NdefError::TruncatedRecord),
{
    let n = msg.len();
    let mut out: Vec<ParsedRecord> = Vec::new();
    let mut pos: usize = 0;
    proof {
        assert(msg@.subrange(0, n as int) =~= msg@);
        assert(out@.map_values(|p: ParsedRecord| p@) =~= Seq::<ParsedRecordV>::empty());
        if spec_parse_records(msg@) is Some {
            assert(Seq::<ParsedRecordV>::empty() + spec_parse_records(msg@).unwrap()
                =~= spec_parse_records(msg@).unwrap());
        }
    }
    loop
        invariant
            pos <= n == msg@.len(),
            (spec_parse_records(msg@) is Some) == (spec_parse_records(
                msg@.subrange(pos as int, n as int),
            ) is Some),
            (spec_parse_records(msg@) matches Some(all) ==> all == out@.map_values(
                |p: ParsedRecord| p@,
            ) + spec_parse_records(msg@.subrange(pos as int, n as int)).unwrap()),
        decreases n - pos,
    {
        let ghost rem = msg@.subrange(pos as int, n as int);
        let rest = &msg[pos..n];
        assert(rest@ == rem);
        match parse_record_prefix(rest) {
            Err(_) => {
                return Err(NdefError::TruncatedRecord);
            },
            Ok((record, me, used)) => {
                proof {
                    assert(out@.push(record).map_values(|p: ParsedRecord| p@) =~= out@.map_values(
                        |p: ParsedRecord| p@,
                    ).push(record@));
                }
                if me {
                    proof {
                        assert(spec_parse_records(rem) == Some(seq![record@]));
                        assert(out@.map_values(|p: ParsedRecord| p@).push(record@) =~= out@
                            .map_values(|p: ParsedRecord| p@) + seq![record@]);
                    }
                    out.push(record);
                    return Ok(out);
                }
                proof {
                    let tail = rem.subrange(used as int, rem.len() as int);
                    assert(tail =~= msg@.subrange(pos + used, n as int));
                    assert(spec_parse_records(rem) == (match spec_parse_records(tail) {
                        None => None::<Seq<ParsedRecordV>>,
                        Some(rest_records) => Some(seq![record@] + rest_records),
                    }));
                    if spec_parse_records(tail) is Some {
                        assert(out@.map_values(|p: ParsedRecord| p@) + (seq![record@]
                            + spec_parse_records(tail).unwrap()) =~= out@.map_values(
                            |p: ParsedRecord| p@,
                        ).push(record@) + spec_parse_records(tail).unwrap());
                    }
                }
                out.push(record);
                pos = pos + used;
            },
        }
    }
}

// ---------------------------------------------------------------------------
// Encoders
// ---------------------------------------------------------------------------
/// Build the type field bytes of a record kind.
fn type_field_bytes(rtype: RecordType) -> (out: Vec<u8>)
    ensures
        out@ == spec_type_field(rtype),
{
    let mut out: Vec<u8> = Vec::new();
    match rtype {
        RecordType::Text => {
            out.push(0x54);
        },
        RecordType::Url => {
            out.push(0x55);
        },
        RecordType::App => {
            out.push(0x61);
            out.push(0x6e);
            out.push(0x64);
            out.push(0x72);
            out.push(0x6f);
            out.push(0x69);
            out.push(0x64);
            out.push(0x2e);
            out.push(0x63);
            out.push(0x6f);
            out.push(0x6d);
            out.push(0x3a);
            out.push(0x70);
            out.push(0x6b);
            out.push(0x67);
        },
    }
    proof {
        assert(out@ =~= spec_type_field(rtype));
    }
    out
}

/// Build a record's payload from its content.
pub fn record_payload(record: &NdefRecord) -> (out: Vec<u8>)
    ensures
        out@ == spec_record_payload(record@.rtype, record@.content),
{
    let mut out: Vec<u8> = Vec::new();
    match record.rtype {
        RecordType::Text => {
            out.push(0x02);
            out.push(0x65);
            out.push(0x6e);
        },
        RecordType::Url => {
            out.push(0x00);
        },
        RecordType::App => {},
    }
    out.extend_from_slice(record.content.as_slice());
    proof {
        assert(out@ =~= spec_record_payload(record@.rtype, record@.content));
    }
    out
}

/// The payload of a Well-Known Text record for `text`: status byte (UTF-8,
/// language length 2), the language code `en`, then the UTF-8 text.
pub fn create_text_record_payload(text: &str) -> (payload: Vec<u8>)
    ensures
        payload@ == spec_record_payload(RecordType::Text, encode_utf8(text@)),
{
    let mut payload: Vec<u8> = Vec::new();
    payload.push(0x02);
    payload.push(0x65);
    payload.push(0x6e);
    payload.extend_from_slice(text.as_bytes());
    proof {
        assert(payload@ =~= spec_record_payload(RecordType::Text, encode_utf8(text@)));
    }
    payload
}

/// Encode one short record with the given MB and ME flags. Fails exactly
/// when the payload does not fit the one-byte length field.
pub fn encode_record(record: &NdefRecord, mb: bool, me: bool) -> (r: Result<Vec<u8>, NdefError>)
    ensures
        r is Ok <==> record_fits(record@),
        (r matches Ok(out) ==> out@ == spec_encode_record(record@.rtype, record@.content, mb, me)),
        (r matches Err(e) ==> e == NdefError::PayloadTooLong),
{
    let payload = record_payload(record);
    if payload.len() > 255 {
        return Err(NdefError::PayloadTooLong);
    }
    let type_field = type_field_bytes(record.rtype);
    let tnf: u8 = match record.rtype {
        RecordType::Text => 1,
        RecordType::Url => 1,
        RecordType::App => 4,
    };
    let mut header: u8 = 0x10 + tnf;
    if mb {
        header = header + 0x80;
    }
    if me {
        header = header + 0x40;
    }
    let mut out: Vec<u8> = Vec::new();
    out.push(header);
    out.push(type_field.len() as u8);
    out.push(payload.len() as u8);
    out.extend_from_slice(type_field.as_slice());
    out.extend_from_slice(payload.as_slice());
    proof {
        assert(out@ =~= spec_encode_record(record@.rtype, record@.content, mb, me));
    }
    Ok(out)
}

/// Encode a single-record Text message for `text`: MB and ME both set, so
/// the header byte is `0xD1`.
pub fn encode_ndef_message(text: &str) -> (msg: Vec<u8>)
    requires
        encode_utf8(text@).len() + 3 <= 255,
    ensures
        msg@ == spec_encode_record(RecordType::Text, encode_utf8(text@), true, true),
        msg@ == spec_encode_multi(seq![NdefRecordV { rtype: RecordType::Text, content: encode_utf8(text@) }]),
{
    let payload = create_text_record_payload(text);
    let mut msg: Vec<u8> = Vec::new();
    msg.push(0xD1);
    msg.push(0x01);
    msg.push(payload.len() as u8);
    msg.push(0x54);
    msg.extend_from_slice(payload.as_slice());
    proof {
        assert(msg@ =~= spec_encode_record(RecordType::Text, encode_utf8(text@), true, true));
        let ghost rec = NdefRecordV { rtype: RecordType::Text, content: encode_utf8(text@) };
        assert(spec_encode_from(seq![rec], 1) =~= Seq::<u8>::empty());
        assert(msg@ =~= spec_encode_multi(seq![rec]));
    }
    msg
}

/// Encode a non-empty list of records into one message, MB set only on the
/// first record and ME only on the last. Fails exactly when the list is
/// empty or some payload does not fit a short record.
pub fn encode_multi(records: &Vec<NdefRecord>) -> (r: Result<Vec<u8>, NdefError>)
    ensures
        r is Ok <==> (records@.len() > 0 && forall|j: int|
            0 <= j < records@.len() ==> record_fits(#[trigger] records@[j]@)),
        (r matches Ok(out) ==> out@ == spec_encode_multi(
            records@.map_values(|rec: NdefRecord| rec@),
        )),
        (r matches Err(e) ==> e == (if records@.len() == 0 {
            NdefError::EmptyMessage
        } else {
            NdefError::PayloadTooLong
        })),
{
    let ghost rs = records@.map_values(|rec: NdefRecord| rec@);
    let n = records.len();
    if n == 0 {
        return Err(NdefError::EmptyMessage);
    }
    let mut out: Vec<u8> = Vec::new();
    let mut i: usize = 0;
    while i < n
        invariant
            0 < n == records@.len(),
            rs == records@.map_values(|rec: NdefRecord| rec@),
            i <= n,
            forall|j: int| 0 <= j < i ==> record_fits(#[trigger] records@[j]@),
            out@ + spec_encode_from(rs, i as int) == spec_encode_from(rs, 0),
        decreases n - i,
    {
        match encode_record(&records[i], i == 0, i == n - 1) {
            Ok(enc) => {
                proof {
                    assert(rs[i as int] == records@[i as int]@);
                    assert(spec_encode_from(rs, i as int) == spec_encode_record(
                        rs[i as int].rtype,
                        rs[i as int].content,
                        i == 0,
                        i as int == rs.len() - 1,
                    ) + spec_encode_from(rs, i + 1));
                    assert((out@ + enc@) + spec_encode_from(rs, i + 1) =~= out@ + (enc@
                        + spec_encode_from(rs, i + 1)));
                }
                out.extend_from_slice(enc.as_slice());
            },
            Err(_) => {
                return Err(NdefError::PayloadTooLong);
            },
        }
        i = i + 1;
    }
    proof {
        assert(spec_encode_from(rs, n as int) =~= Seq::<u8>::empty());
        assert(out@ + spec_encode_from(rs, n as int) =~= out@);
    }
    Ok(out)
}

/// The record a client description names: `TEXT`, `URL` or `APP`, with the
/// content as its UTF-8 bytes. `None` for an unknown type name.
pub open spec fn spec_record_of(data_type: Seq<char>, content: Seq<char>) -> Option<NdefRecordV> {
    if data_type == "TEXT"@ {
        Some(NdefRecordV { rtype: RecordType::Text, content: encode_utf8(content) })
    } else if data_type == "URL"@ {
        Some(NdefRecordV { rtype: RecordType::Url, content: encode_utf8(content) })
    } else if data_type == "APP"@ {
        Some(NdefRecordV { rtype: RecordType::App, content: encode_utf8(content) })
    } else {
        None
    }
}

/// Turn client record descriptions — `(data_type, content)` pairs — into
/// records. Fails exactly when some description names an unknown type.
pub fn records_from_inputs(items: &Vec<(String, String)>) -> (r: Result<Vec<NdefRecord>, NdefError>)
    ensures
        r is Ok <==> (forall|i: int|
            0 <= i < items@.len() ==> spec_record_of(
                (#[trigger] items@[i]).0@,
                items@[i].1@,
            ) is Some),
        (r matches Ok(records) ==> records@.len() == items@.len() && (forall|i: int|
            0 <= i < items@.len() ==> (#[trigger] records@[i])@ == spec_record_of(
                items@[i].0@,
                items@[i].1@,
            ).unwrap())),
        (r matches Err(e) ==> e == NdefError::UnknownRecordType),
{
    let text_label = String::from_str("TEXT");
    let url_label = String::from_str("URL");
    let app_label = String::from_str("APP");
    let n = items.len();
    let mut records: Vec<NdefRecord> = Vec::new();
    let mut i: usize = 0;
    while i < n
        invariant
            i <= n == items@.len(),
            text_label@ == "TEXT"@,
            url_label@ == "URL"@,
            app_label@ == "APP"@,
            records@.len() == i,
            forall|j: int|
                0 <= j < i ==> spec_record_of((#[trigger] items@[j]).0@, items@[j].1@) is Some,
            forall|j: int|
                0 <= j < i ==> (#[trigger] records@[j])@ == spec_record_of(
                    items@[j].0@,
                    items@[j].1@,
                ).unwrap(),
        decreases n - i,
    {
        let item = &items[i];
        let rtype = if item.0 == text_label {
            RecordType::Text
        } else if item.0 == url_label {
            RecordType::Url
        } else if item.0 == app_label {
            RecordType::App
        } else {
            return Err(NdefError::UnknownRecordType);
        };
        let content = item.1.as_str().as_bytes_vec();
        records.push(NdefRecord { rtype, content });
        i = i + 1;
    }
    Ok(records)
}

/// Everything the write path prepares on one TLV-wrapped message.
pub open spec fn spec_writable(rs: Seq<NdefRecordV>) -> bool {
    &&& rs.len() > 0
    &&& forall|j: int| 0 <= j < rs.len() ==> record_fits(#[trigger] rs[j])
    &&& spec_encode_multi(rs).len() <= 0xFFFF
}

/// Encode a record list and wrap it in the TLV container, ready to lay on a
/// tag. Fails exactly when the list is empty, a payload overruns a short
/// record, or the whole message overruns the 16-bit TLV length.
pub fn prepare_write(records: &Vec<NdefRecord>) -> (r: Result<Vec<u8>, NdefError>)
    ensures
        r is Ok <==> spec_writable(records@.map_values(|rec: NdefRecord| rec@)),
        (r matches Ok(tlv) ==> tlv@ == spec_wrap_tlv(
            spec_encode_multi(records@.map_values(|rec: NdefRecord| rec@)),
        )),
        (r matches Err(e) ==> e == (if records@.len() == 0 {
            NdefError::EmptyMessage
        } else {
            NdefError::PayloadTooLong
        })),
{
    proof {
        let rs = records@.map_values(|rec: NdefRecord| rec@);
        assert forall|j: int| 0 <= j < rs.len() implies #[trigger] rs[j] == records@[j]@ by {}
    }
    let msg = match encode_multi(records) {
        Ok(msg) => msg,
        Err(e) => {
            proof {
                let rs = records@.map_values(|rec: NdefRecord| rec@);
                if records@.len() > 0 {
                    let c = choose|j: int|
                        !(0 <= j < records@.len() ==> record_fits(records@[j]@));
                    assert(0 <= c < records@.len() && !record_fits(records@[c]@));
                    assert(rs[c] == records@[c]@);
                    assert(!spec_writable(rs));
                }
            }
            return Err(e);
        },
    };
    if msg.len() > 0xFFFF {
        return Err(NdefError::PayloadTooLong);
    }
    Ok(wrap_in_tlv(msg.as_slice()))
}

// ---------------------------------------------------------------------------
// TLV framing
// ---------------------------------------------------------------------------
/// Wrap a message in the TLV container. The first byte of the result is
/// always the tag `0x03` and the last is always the terminator `0xFE`.
pub fn wrap_in_tlv(ndef_bytes: &[u8]) -> (tlv: Vec<u8>)
    requires
        ndef_bytes@.len() <= 0xFFFF,
    ensures
        tlv@ == spec_wrap_tlv(ndef_bytes@),
        tlv@.len() > 0,
        tlv@[0] == 0x03,
        tlv@[tlv@.len() - 1] == 0xFE,
{
    let n = ndef_bytes.len();
    let mut tlv: Vec<u8> = Vec::new();
    tlv.push(0x03);
    if n < 255 {
        tlv.push(n as u8);
    } else {
        tlv.push(0xFF);
        tlv.push((n / 256) as u8);
        tlv.push((n % 256) as u8);
    }
    tlv.extend_from_slice(ndef_bytes);
    tlv.push(0xFE);
    proof {
        assert(tlv@ =~= spec_wrap_tlv(ndef_bytes@));
    }
    tlv
}

/// Extract the message from the first TLV container in `buf`. Fails with
/// `NoNdefTlv` when no `0x03` tag occurs, and with `TruncatedMessage` when
/// the declared length overruns the buffer.
pub fn unwrap_tlv(buf: &[u8]) -> (r: Result<Vec<u8>, NdefError>)
    ensures
        (r matches Ok(msg) ==> spec_unwrap_tlv(buf@) == Some(msg@)),
        r is Err ==> spec_unwrap_tlv(buf@) is None,
        (r matches Err(e) ==> e == spec_unwrap_err(buf@)),
{
    let n = buf.len();
    let p = match find_byte(buf, 0x03) {
        Some(p) => p,
        None => {
            return Err(NdefError::NoNdefTlv);
        },
    };
    if n - p < 2 {
        return Err(NdefError::TruncatedMessage);
    }
    if buf[p + 1] == 0xFF {
        if n - p < 4 {
            return Err(NdefError::TruncatedMessage);
        }
        let len = (buf[p + 2] as usize) * 256 + (buf[p + 3] as usize);
        if len > n - p - 4 {
            return Err(NdefError::TruncatedMessage);
        }
        Ok(copy_range(buf, p + 4, p + 4 + len))
    } else {
        let len = buf[p + 1] as usize;
        if len > n - p - 2 {
            return Err(NdefError::TruncatedMessage);
        }
        Ok(copy_range(buf, p + 2, p + 2 + len))
    }
}

// ---------------------------------------------------------------------------
// Codec laws
// ---------------------------------------------------------------------------
/// The MB flag: header bit 7.
pub open spec fn spec_header_mb(h: u8) -> bool {
    ((h as int) / 128) % 2 == 1
}

/// What parsing gives back for a record this module encoded: its TNF, its
/// type field, no ID, and the payload laid around its content.
pub open spec fn spec_parsed_of(record: NdefRecordV) -> ParsedRecordV {
    ParsedRecordV {
        tnf: spec_tnf(record.rtype),
        rtype: spec_type_field(record.rtype),
        id: Seq::<u8>::empty(),
        payload: spec_record_payload(record.rtype, record.content),
    }
}

/// The flag bits of an encoded header read back as they were written, SR is
/// always set, and IL never.
pub proof fn lemma_header_bits(rtype: RecordType, mb: bool, me: bool)
    ensures
        spec_header_sr(spec_header_byte(rtype, mb, me)),
        !spec_header_il(spec_header_byte(rtype, mb, me)),
        spec_header_me(spec_header_byte(rtype, mb, me)) == me,
        spec_header_mb(spec_header_byte(rtype, mb, me)) == mb,
        spec_header_tnf(spec_header_byte(rtype, mb, me)) == spec_tnf(rtype),
{
    match rtype {
        RecordType::Text => {},
        RecordType::Url => {},
        RecordType::App => {},
    }
}

/// Unwrapping a wrapped message gives the message back, whatever it holds.
pub proof fn lemma_tlv_round_trip(msg: Seq<u8>)
    requires
        msg.len() <= 0xFFFF,
    ensures
        spec_unwrap_tlv(spec_wrap_tlv(msg)) == Some(msg),
{
    let buf = spec_wrap_tlv(msg);
    assert(buf[0] == 0x03);
    assert(spec_find_byte(buf, 0x03, 0) == Some(0int));
    if msg.len() < 255 {
        assert(buf.subrange(2, 2 + msg.len() as int) =~= msg);
    } else {
        assert((buf[2] as int) * 256 + (buf[3] as int) == msg.len()) by {
            assert(buf[2] == (msg.len() / 256) as u8);
            assert(buf[3] == (msg.len() % 256) as u8);
        }
        assert(buf.subrange(4, 4 + msg.len() as int) =~= msg);
    }
}

/// A TLV whose length byte is `0xFF` is read with the 16-bit big-endian
/// length that follows it.
pub proof fn lemma_long_length_tlv(buf: Seq<u8>, p: int)
    requires
        spec_find_byte(buf, 0x03, 0) == Some(p),
        0 <= p,
        p + 4 <= buf.len(),
        buf[p + 1] == 0xFF,
        p + 4 + (buf[p + 2] as int) * 256 + (buf[p + 3] as int) <= buf.len(),
    ensures
        spec_unwrap_tlv(buf) == Some(
            buf.subrange(p + 4, p + 4 + (buf[p + 2] as int) * 256 + (buf[p + 3] as int)),
        ),
{
}

/// One encoded record at the head of a message parses back exactly: same
/// TNF, same type field, no ID, the payload as written, the ME flag as
/// written, and a cursor advance of exactly the record's length.
pub proof fn lemma_parse_one_encoded(
    rtype: RecordType,
    content: Seq<u8>,
    mb: bool,
    me: bool,
    rest: Seq<u8>,
)
    requires
        spec_record_payload(rtype, content).len() <= 255,
    ensures
        spec_parse_record(spec_encode_record(rtype, content, mb, me) + rest) == Some(
            (
                spec_parsed_of(NdefRecordV { rtype, content }),
                me,
                spec_encode_record(rtype, content, mb, me).len() as int,
            ),
        ),
{
    let tf = spec_type_field(rtype);
    let payload = spec_record_payload(rtype, content);
    let h = spec_header_byte(rtype, mb, me);
    let enc = spec_encode_record(rtype, content, mb, me);
    let s = enc + rest;
    lemma_header_bits(rtype, mb, me);
    assert(tf.len() <= 15) by {
        match rtype {
            RecordType::Text => {},
            RecordType::Url => {},
            RecordType::App => {},
        }
    }
    let type_len = tf.len() as int;
    let payload_len = payload.len() as int;
    let end = 3 + type_len + payload_len;
    assert(s[0] == h);
    assert(s[1] == tf.len() as u8);
    assert(s[2] == payload.len() as u8);
    assert((s[1] as int) == type_len);
    assert((s[2] as int) == payload_len);
    assert(end == enc.len());
    assert(s.subrange(3, 3 + type_len) =~= tf);
    assert(s.subrange(3 + type_len, 3 + type_len) =~= Seq::<u8>::empty());
    assert(s.subrange(3 + type_len, end) =~= payload);
    assert(spec_parse_body(s, spec_tnf(rtype), me, false, type_len, payload_len, 3) matches Some(
        (record, me2, used),
    ) && record =~= spec_parsed_of(NdefRecordV { rtype, content }) && me2 == me && used == end);
}

/// Every record of an encoded suffix parses back in order.
proof fn lemma_parse_encoded_suffix(rs: Seq<NdefRecordV>, i: int)
    requires
        0 <= i < rs.len(),
        forall|j: int| 0 <= j < rs.len() ==> record_fits(#[trigger] rs[j]),
    ensures
        spec_parse_records(spec_encode_from(rs, i)) is Some,
        spec_parse_records(spec_encode_from(rs, i)).unwrap().len() == rs.len() - i,
        forall|k: int|
            0 <= k < rs.len() - i ==> spec_parse_records(spec_encode_from(rs, i)).unwrap()[k]
                == spec_parsed_of(rs[i + k]),
    decreases rs.len() - i,
{
    let enc = spec_encode_record(rs[i].rtype, rs[i].content, i == 0, i == rs.len() - 1);
    let tail = spec_encode_from(rs, i + 1);
    let s = spec_encode_from(rs, i);
    assert(s == enc + tail);
    lemma_parse_one_encoded(rs[i].rtype, rs[i].content, i == 0, i == rs.len() - 1, tail);
    assert(rs[i] =~= (NdefRecordV { rtype: rs[i].rtype, content: rs[i].content }));
    if i == rs.len() - 1 {
        assert(spec_parse_records(s) == Some(seq![spec_parsed_of(rs[i])]));
    } else {
        assert(enc.len() <= s.len());
        assert(s.subrange(enc.len() as int, s.len() as int) =~= tail);
        lemma_parse_encoded_suffix(rs, i + 1);
        let rest_records = spec_parse_records(tail).unwrap();
        assert(spec_parse_records(s) == Some(seq![spec_parsed_of(rs[i])] + rest_records));
    }
}

/// Round-trip law for whole messages: encode a non-empty record list, wrap
/// it in TLV, unwrap it and parse it, and every record comes back in order —
/// same TNF, same type field, and the payload exactly as laid around the
/// content; for a Text record, stripping the status byte and language code
/// gives the content back.
pub proof fn lemma_multi_record_round_trip(rs: Seq<NdefRecordV>)
    requires
        rs.len() > 0,
        forall|j: int| 0 <= j < rs.len() ==> (#[trigger] rs[j]).content.len() < 200,
        spec_encode_multi(rs).len() <= 0xFFFF,
    ensures
        spec_unwrap_tlv(spec_wrap_tlv(spec_encode_multi(rs))) == Some(spec_encode_multi(rs)),
        spec_parse_records(spec_encode_multi(rs)) is Some,
        spec_parse_records(spec_encode_multi(rs)).unwrap().len() == rs.len(),
        forall|k: int|
            0 <= k < rs.len() ==> spec_parse_records(spec_encode_multi(rs)).unwrap()[k]
                == spec_parsed_of(rs[k]),
        forall|k: int|
            0 <= k < rs.len() && rs[k].rtype == RecordType::Text ==> spec_text_content(
                spec_parsed_of(#[trigger] rs[k]).payload,
            ) == Some(rs[k].content),
{
    lemma_tlv_round_trip(spec_encode_multi(rs));
    assert forall|j: int| 0 <= j < rs.len() implies record_fits(#[trigger] rs[j]) by {
        match rs[j].rtype {
            RecordType::Text => {},
            RecordType::Url => {},
            RecordType::App => {},
        }
    }
    lemma_parse_encoded_suffix(rs, 0);
    assert forall|k: int|
        0 <= k < rs.len() && rs[k].rtype == RecordType::Text implies spec_text_content(
        spec_parsed_of(#[trigger] rs[k]).payload,
    ) == Some(rs[k].content) by {
        let payload = spec_parsed_of(rs[k]).payload;
        assert(payload == seq![0x02u8, 0x65u8, 0x6eu8] + rs[k].content);
        assert(payload[0] == 0x02);
        assert(payload.subrange(3, payload.len() as int) =~= rs[k].content);
    }
}

/// Round-trip law for text: encoding a text as a single-record message,
/// wrapping it in TLV, and decoding the buffer gives the text back.
pub proof fn lemma_text_round_trip(s: Seq<char>)
    requires
        encode_utf8(s).len() + 3 <= 255,
    ensures
        spec_decoded_text(spec_wrap_tlv(spec_encode_record(RecordType::Text, encode_utf8(s), true, true)))
            == Some(s),
{
    broadcast use vstd::utf8::encode_utf8_valid_utf8;
    broadcast use vstd::utf8::encode_utf8_decode_utf8;

    let content = encode_utf8(s);
    let msg = spec_encode_record(RecordType::Text, content, true, true);
    lemma_tlv_round_trip(msg);
    lemma_parse_one_encoded(RecordType::Text, content, true, true, Seq::<u8>::empty());
    assert(msg + Seq::<u8>::empty() =~= msg);
    let record = spec_parsed_of(NdefRecordV { rtype: RecordType::Text, content });
    assert(record.payload == seq![0x02u8, 0x65u8, 0x6eu8] + content);
    assert(record.payload[0] == 0x02);
    assert(record.payload.subrange(3, record.payload.len() as int) =~= content);
    assert(spec_text_content(record.payload) == Some(content));
}

/// A single-record message carries MB and ME together: header `0xD1` for
/// Text and URI records, `0xD4` for an application record.
pub proof fn lemma_single_record_header(rtype: RecordType, content: Seq<u8>)
    ensures
        spec_encode_multi(seq![NdefRecordV { rtype, content }])[0] == (match rtype {
            RecordType::Text => 0xD1u8,
            RecordType::Url => 0xD1u8,
            RecordType::App => 0xD4u8,
        }),
{
    let rs = seq![NdefRecordV { rtype, content }];
    assert(spec_encode_multi(rs)[0] == spec_header_byte(rtype, true, true));
    match rtype {
        RecordType::Text => {},
        RecordType::Url => {},
        RecordType::App => {},
    }
}

/// In a three-record message the headers carry MB=1,ME=0 / MB=0,ME=0 /
/// MB=0,ME=1 in that order.
pub proof fn lemma_three_record_headers(r0: NdefRecordV, r1: NdefRecordV, r2: NdefRecordV)
    ensures
        ({
            let msg = spec_encode_multi(seq![r0, r1, r2]);
            let h0 = msg[0];
            let h1 = msg[spec_encode_record(r0.rtype, r0.content, true, false).len() as int];
            let h2 = msg[spec_encode_record(r0.rtype, r0.content, true, false).len()
                + spec_encode_record(r1.rtype, r1.content, false, false).len() as int];
            &&& h0 == spec_header_byte(r0.rtype, true, false)
            &&& h1 == spec_header_byte(r1.rtype, false, false)
            &&& h2 == spec_header_byte(r2.rtype, false, true)
            &&& spec_header_mb(h0) && !spec_header_me(h0)
            &&& !spec_header_mb(h1) && !spec_header_me(h1)
            &&& !spec_header_mb(h2) && spec_header_me(h2)
        }),
{
    let rs = seq![r0, r1, r2];
    let e0 = spec_encode_record(r0.rtype, r0.content, true, false);
    let e1 = spec_encode_record(r1.rtype, r1.content, false, false);
    let e2 = spec_encode_record(r2.rtype, r2.content, false, true);
    let msg = spec_encode_multi(rs);
    assert(rs[0] == r0 && rs[1] == r1 && rs[2] == r2);
    assert(spec_encode_from(rs, 3) =~= Seq::<u8>::empty());
    assert(spec_encode_from(rs, 2) == e2 + spec_encode_from(rs, 3));
    assert(spec_encode_from(rs, 2) =~= e2);
    assert(spec_encode_from(rs, 1) == e1 + spec_encode_from(rs, 2));
    assert(spec_encode_from(rs, 0) == e0 + spec_encode_from(rs, 1));
    assert(msg =~= e0 + (e1 + e2));
    assert(msg[0] == e0[0]);
    assert(msg[e0.len() as int] == e1[0]);
    assert(msg[e0.len() + e1.len() as int] == e2[0]);
    lemma_header_bits(r0.rtype, true, false);
    lemma_header_bits(r1.rtype, false, false);
    lemma_header_bits(r2.rtype, false, true);
}

// ---------------------------------------------------------------------------
// Text decoding
// ---------------------------------------------------------------------------
/// The text bytes of a text payload: the status byte's low six bits give the
/// language-code length, and the text follows the language code. `None` when
/// the payload is empty or the language code overruns it.
pub open spec fn spec_text_content(payload: Seq<u8>) -> Option<Seq<u8>> {
    if payload.len() == 0 {
        None
    } else {
        let lang_len = (payload[0] as int) % 64;
        if 1 + lang_len > payload.len() {
            None
        } else {
            Some(payload.subrange(1 + lang_len, payload.len() as int))
        }
    }
}

/// The text of the first record of a bare NDEF message: strip the status
/// byte and language code from its payload and decode the rest as UTF-8.
pub open spec fn spec_message_text(msg: Seq<u8>) -> Option<Seq<char>> {
    match spec_parse_record(msg) {
        None => None,
        Some((record, _me, _used)) => match spec_text_content(record.payload) {
            None => None,
            Some(text_bytes) => if valid_utf8(text_bytes) {
                Some(decode_utf8(text_bytes))
            } else {
                None
            },
        },
    }
}

/// The error `decode_message_text` reports, by the first stage that fails.
pub open spec fn spec_message_decode_error(msg: Seq<u8>) -> NdefError {
    match spec_parse_record(msg) {
        None => NdefError::TruncatedRecord,
        Some((record, _me, _used)) => if spec_text_content(record.payload) is None {
            NdefError::TruncatedRecord
        } else {
            NdefError::InvalidUtf8
        },
    }
}

/// The text decoded from a raw card buffer: unwrap the TLV container, then
/// decode the message.
pub open spec fn spec_decoded_text(buf: Seq<u8>) -> Option<Seq<char>> {
    match spec_unwrap_tlv(buf) {
        None => None,
        Some(msg) => spec_message_text(msg),
    }
}

/// The error `decode_ndef_text` reports, by the first stage that fails.
pub open spec fn spec_decode_error(buf: Seq<u8>) -> NdefError {
    match spec_unwrap_tlv(buf) {
        None => spec_unwrap_err(buf),
        Some(msg) => spec_message_decode_error(msg),
    }
}

/// Relies on core::str::from_utf8: it returns `Ok` exactly on valid UTF-8
/// input, and the returned string's UTF-8 bytes are the input bytes.
#[verifier::external_body]
fn bytes_to_str(bytes: &[u8]) -> (r: Option<&str>)
    ensures
        r is Some <==> valid_utf8(bytes@),
        (r matches Some(s) ==> s.spec_bytes() == bytes@),
{
    core::str::from_utf8(bytes).ok()
}

/// Decode the text of the first record of a bare NDEF message, as an NTAG
/// read hands it back.
pub fn decode_message_text(msg: &[u8]) -> (r: Result<String, NdefError>)
    ensures
        r is Ok <==> spec_message_text(msg@) is Some,
        (r matches Ok(text) ==> Some(text@) == spec_message_text(msg@)),
        (r matches Err(e) ==> e == spec_message_decode_error(msg@)),
{
    let (record, _me, _used) = match parse_record_prefix(msg) {
        Ok(parsed) => parsed,
        Err(e) => {
            return Err(e);
        },
    };
    let payload = record.payload;
    if payload.len() == 0 {
        return Err(NdefError::TruncatedRecord);
    }
    let lang_len = (payload[0] % 64) as usize;
    if lang_len > payload.len() - 1 {
        return Err(NdefError::TruncatedRecord);
    }
    let text_bytes = &payload.as_slice()[1 + lang_len..payload.len()];
    assert(text_bytes@ == spec_text_content(record@.payload).unwrap());
    match bytes_to_str(text_bytes) {
        None => Err(NdefError::InvalidUtf8),
        Some(s) => {
            proof {
                broadcast use vstd::utf8::encode_utf8_decode_utf8;

            }
            Ok(s.to_owned())
        },
    }
}

/// Decode the text of the first NDEF record in a raw card buffer, TLV
/// container included, as a MIFARE read hands it back.
pub fn decode_ndef_text(buffer: &[u8]) -> (r: Result<String, NdefError>)
    ensures
        r is Ok <==> spec_decoded_text(buffer@) is Some,
        (r matches Ok(text) ==> Some(text@) == spec_decoded_text(buffer@)),
        (r matches Err(e) ==> e == spec_decode_error(buffer@)),
{
    let msg = match unwrap_tlv(buffer) {
        Ok(msg) => msg,
        Err(e) => {
            return Err(e);
        },
    };
    decode_message_text(msg.as_slice())
}

} // verus!
