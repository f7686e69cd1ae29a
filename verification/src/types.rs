//! Shared data types: NDEF records, error taxonomy, card families, and the
//! messages exchanged with the network gateway.

use vstd::prelude::*;

verus! {

/// The kinds of NDEF record this gateway can write.
#[derive(Clone, Copy, PartialEq, Eq, Structural, Debug)]
pub enum RecordType {
    /// Well-Known Text record (TNF 1, type `T`).
    Text,
    /// Well-Known URI record (TNF 1, type `U`).
    Url,
    /// External Android Application Record (TNF 4, type `android.com:pkg`).
    App,
}

/// A record to be encoded: its kind and its raw content bytes.
/// For `Text` the content is the UTF-8 text, for `Url` the URI bytes, for
/// `App` the package-name bytes.
#[derive(Clone, Debug, PartialEq, Eq)]
pub struct NdefRecord {
    pub rtype: RecordType,
    pub content: Vec<u8>,
}

/// Mathematical model of an `NdefRecord`.
#[verifier::ext_equal]
pub ghost struct NdefRecordV {
    pub rtype: RecordType,
    pub content: Seq<u8>,
}

impl View for NdefRecord {
    type V = NdefRecordV;

    open spec fn view(&self) -> NdefRecordV {
        NdefRecordV { rtype: self.rtype, content: self.content@ }
    }
}

/// A record as read back from a message: TNF, type field, optional ID, and
/// the raw payload.
#[derive(Clone, Debug, PartialEq, Eq)]
pub struct ParsedRecord {
    pub tnf: u8,
    pub rtype: Vec<u8>,
    pub id: Vec<u8>,
    pub payload: Vec<u8>,
}

/// Mathematical model of a `ParsedRecord`.
#[verifier::ext_equal]
pub ghost struct ParsedRecordV {
    pub tnf: u8,
    pub rtype: Seq<u8>,
    pub id: Seq<u8>,
    pub payload: Seq<u8>,
}

impl View for ParsedRecord {
    type V = ParsedRecordV;

    open spec fn view(&self) -> ParsedRecordV {
        ParsedRecordV {
            tnf: self.tnf,
            rtype: self.rtype@,
            id: self.id@,
            payload: self.payload@,
        }
    }
}

/// Why encoding or decoding an NDEF message failed.
#[derive(Clone, Copy, PartialEq, Eq, Structural, Debug)]
pub enum NdefError {
    /// No `0x03` TLV tag anywhere in the buffer.
    NoNdefTlv,
    /// The TLV length field overruns the buffer.
    TruncatedMessage,
    /// A record's declared lengths step past the end of the message.
    TruncatedRecord,
    /// A message must hold at least one record.
    EmptyMessage,
    /// A short record's payload must fit one length byte.
    PayloadTooLong,
    /// A text payload that is not valid UTF-8.
    InvalidUtf8,
    /// A record description named an unknown record type.
    UnknownRecordType,
}

/// Why a tag-level read or write failed.
#[derive(Clone, Copy, PartialEq, Eq, Structural, Debug)]
pub enum TagError {
    /// The first user page does not start an NDEF TLV.
    NoNdefContainer,
    /// The card ended before the declared NDEF length was reached.
    IncompleteRead,
    /// No key in the dictionary opened the sector with this number.
    SectorAuthFailed(u8),
    /// The data does not fit the tag's user memory.
    MessageTooLong,
    /// Nothing could be read from the card.
    NoData,
}

/// The card family, chosen from the last byte of the ATR.
#[derive(Clone, Copy, PartialEq, Eq, Structural, Debug)]
pub enum CardFamily {
    Mifare1k,
    Ntag,
}

/// Classify a card by the last byte of its ATR: `0x6a` means MIFARE Classic
/// 1K, anything else (including an empty ATR) is treated as NTAG / Type-2.
pub fn card_family(atr: &[u8]) -> (family: CardFamily)
    ensures
        family == (if atr@.len() > 0 && atr@[atr@.len() - 1] == 0x6a {
            CardFamily::Mifare1k
        } else {
            CardFamily::Ntag
        }),
{
    let n = atr.len();
    if n > 0 && atr[n - 1] == 0x6a {
        CardFamily::Mifare1k
    } else {
        CardFamily::Ntag
    }
}

/// An event published to every connected client.
#[derive(Clone, Debug)]
pub enum OutgoingMessage {
    ReaderStatus { success: bool },
    CardStatus { success: bool, message: String },
    DataReadSuccess { data: String },
    DataReadError { error: String },
    DataWriteSuccess { message: String },
    DataWriteError { error: String },
    ReaderError { error: String },
}

/// Mathematical model of an `OutgoingMessage`.
pub ghost enum OutgoingMessageV {
    ReaderStatus { success: bool },
    CardStatus { success: bool, message: Seq<char> },
    DataReadSuccess { data: Seq<char> },
    DataReadError { error: Seq<char> },
    DataWriteSuccess { message: Seq<char> },
    DataWriteError { error: Seq<char> },
    ReaderError { error: Seq<char> },
}

impl View for OutgoingMessage {
    type V = OutgoingMessageV;

    open spec fn view(&self) -> OutgoingMessageV {
        match self {
            OutgoingMessage::ReaderStatus { success } => (OutgoingMessageV::ReaderStatus {
                success: *success,
            }),
            OutgoingMessage::CardStatus { success, message } => (OutgoingMessageV::CardStatus {
                success: *success,
                message: message@,
            }),
            OutgoingMessage::DataReadSuccess { data } => (OutgoingMessageV::DataReadSuccess {
                data: data@,
            }),
            OutgoingMessage::DataReadError { error } => (OutgoingMessageV::DataReadError {
                error: error@,
            }),
            OutgoingMessage::DataWriteSuccess { message } => (OutgoingMessageV::DataWriteSuccess {
                message: message@,
            }),
            OutgoingMessage::DataWriteError { error } => (OutgoingMessageV::DataWriteError {
                error: error@,
            }),
            OutgoingMessage::ReaderError { error } => (OutgoingMessageV::ReaderError {
                error: error@,
            }),
        }
    }
}

/// The views of a batch of outgoing messages, in order.
pub open spec fn views_of(msgs: Seq<OutgoingMessage>) -> Seq<OutgoingMessageV> {
    msgs.map_values(|m: OutgoingMessage| m@)
}

/// A command received from a client.
pub enum IncomingMessage {
    GetReaderStatus,
    /// The payload is a JSON array of record descriptions, still serialized.
    WriteData { payloads: String },
}

/// A command handed from the gateway to the reader thread.
pub enum NfcCommand {
    Write { payloads: String },
    CheckReaderStatus,
}

/// Translate a client message into the command the reader thread runs.
pub fn command_for(msg: IncomingMessage) -> (cmd: NfcCommand)
    ensures
        msg is GetReaderStatus ==> cmd is CheckReaderStatus,
        (msg matches IncomingMessage::WriteData { payloads } ==> cmd matches NfcCommand::Write {
            payloads: p,
        } && p@ == payloads@),
{
    match msg {
        IncomingMessage::GetReaderStatus => NfcCommand::CheckReaderStatus,
        IncomingMessage::WriteData { payloads } => NfcCommand::Write { payloads },
    }
}

} // verus!
