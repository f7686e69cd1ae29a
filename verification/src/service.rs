//! The reader event service, as a state machine.
//!
//! The blocking loop that waits on the PC/SC resource manager lives outside
//! this crate; it feeds what happened (an enumeration, a card edge, a read
//! outcome, a command) into these step functions, which decide the next state
//! and exactly which events the clients are told. The state invariant: no
//! card present means no cached read, so a resting card never spams events
//! and deduplication resets on removal.

use vstd::prelude::*;
use vstd::string::*;

use crate::types::{views_of, CardFamily, OutgoingMessage, OutgoingMessageV, TagError};

verus! {

// ---------------------------------------------------------------------------
// Service state
// ---------------------------------------------------------------------------
/// What the reader thread tracks across ticks.
pub struct ServiceState {
    /// Whether any reader is currently enumerated.
    pub reader_connected: bool,
    /// Whether a card currently rests on the reader.
    pub card_present: bool,
    /// The text of the last successful read of the present card, used to
    /// deduplicate repeat reads.
    pub last_data_read: Option<String>,
}

/// Mathematical model of a `ServiceState`.
#[verifier::ext_equal]
pub ghost struct ServiceStateV {
    pub reader_connected: bool,
    pub card_present: bool,
    pub last_data_read: Option<Seq<char>>,
}

impl View for ServiceState {
    type V = ServiceStateV;

    open spec fn view(&self) -> ServiceStateV {
        ServiceStateV {
            reader_connected: self.reader_connected,
            card_present: self.card_present,
            last_data_read: match self.last_data_read {
                Some(ref text) => Some(text@),
                None => None,
            },
        }
    }
}

/// The state invariant: a cached read exists only while a card is present.
pub open spec fn state_wf(st: ServiceStateV) -> bool {
    !st.card_present ==> st.last_data_read is None
}

impl ServiceState {
    pub open spec fn wf(&self) -> bool {
        state_wf(self@)
    }

    /// The state at service start: nothing connected, nothing cached.
    pub fn new() -> (st: ServiceState)
        ensures
            st.wf(),
            st@ == (ServiceStateV {
                reader_connected: false,
                card_present: false,
                last_data_read: None,
            }),
    {
        ServiceState { reader_connected: false, card_present: false, last_data_read: None }
    }
}

// ---------------------------------------------------------------------------
// Enumeration and PnP
// ---------------------------------------------------------------------------
/// Model of an enumeration that always reports: the cached flag follows the
/// enumeration and one `ReaderStatus` is emitted.
pub open spec fn spec_on_enumeration(st: ServiceStateV, any_readers: bool) -> (
    ServiceStateV,
    Seq<OutgoingMessageV>,
) {
    (
        ServiceStateV { reader_connected: any_readers, ..st },
        seq![OutgoingMessageV::ReaderStatus { success: any_readers }],
    )
}

/// Take an enumeration outcome at startup or on an explicit status request:
/// cache it and report it.
pub fn on_enumeration(st: &mut ServiceState, any_readers: bool) -> (msgs: Vec<OutgoingMessage>)
    requires
        old(st).wf(),
    ensures
        final(st).wf(),
        final(st)@ == spec_on_enumeration(old(st)@, any_readers).0,
        views_of(msgs@) == spec_on_enumeration(old(st)@, any_readers).1,
{
    st.reader_connected = any_readers;
    let mut msgs: Vec<OutgoingMessage> = Vec::new();
    msgs.push(OutgoingMessage::ReaderStatus { success: any_readers });
    proof {
        assert(views_of(msgs@) =~= spec_on_enumeration(old(st)@, any_readers).1);
    }
    msgs
}

/// Model of a hardware-change re-enumeration: the flag follows the
/// enumeration, and `ReaderStatus` is emitted exactly when the flag flips.
pub open spec fn spec_on_pnp_change(st: ServiceStateV, any_readers: bool) -> (
    ServiceStateV,
    Seq<OutgoingMessageV>,
) {
    let st2 = ServiceStateV { reader_connected: any_readers, ..st };
    if any_readers != st.reader_connected {
        (st2, seq![OutgoingMessageV::ReaderStatus { success: any_readers }])
    } else {
        (st2, seq![])
    }
}

/// Take the re-enumeration after a hardware change: report the reader status
/// only when it differs from what the clients already know.
pub fn on_pnp_change(st: &mut ServiceState, any_readers: bool) -> (msgs: Vec<OutgoingMessage>)
    requires
        old(st).wf(),
    ensures
        final(st).wf(),
        final(st)@ == spec_on_pnp_change(old(st)@, any_readers).0,
        views_of(msgs@) == spec_on_pnp_change(old(st)@, any_readers).1,
{
    let changed = any_readers != st.reader_connected;
    st.reader_connected = any_readers;
    let mut msgs: Vec<OutgoingMessage> = Vec::new();
    if changed {
        msgs.push(OutgoingMessage::ReaderStatus { success: any_readers });
    }
    proof {
        assert(views_of(msgs@) =~= spec_on_pnp_change(old(st)@, any_readers).1);
    }
    msgs
}

// ---------------------------------------------------------------------------
// Card presence edges
// ---------------------------------------------------------------------------
/// Model of a per-reader state change. A rising presence edge on an idle
/// state announces the card and asks for one read; a falling edge on a
/// present state announces the removal and clears the cached read; anything
/// else is ignored, so repeated edges never duplicate events.
pub open spec fn spec_on_reader_event(st: ServiceStateV, was_present: bool, is_present: bool) -> (
    ServiceStateV,
    Seq<OutgoingMessageV>,
    bool,
) {
    if is_present && !was_present && !st.card_present {
        (
            ServiceStateV { card_present: true, ..st },
            seq![
                OutgoingMessageV::CardStatus { success: true, message: "Card detected!"@ },
            ],
            true,
        )
    } else if !is_present && was_present && st.card_present {
        (
            ServiceStateV { card_present: false, last_data_read: None, ..st },
            seq![
                OutgoingMessageV::CardStatus { success: false, message: "Card removed!"@ },
            ],
            false,
        )
    } else {
        (st, seq![], false)
    }
}

/// Take one reader's presence edge. Returns the events to publish and
/// whether the caller must now read the card.
pub fn on_reader_event(st: &mut ServiceState, was_present: bool, is_present: bool) -> (r: (
    Vec<OutgoingMessage>,
    bool,
))
    requires
        old(st).wf(),
    ensures
        final(st).wf(),
        final(st)@ == spec_on_reader_event(old(st)@, was_present, is_present).0,
        views_of(r.0@) == spec_on_reader_event(old(st)@, was_present, is_present).1,
        r.1 == spec_on_reader_event(old(st)@, was_present, is_present).2,
{
    let mut msgs: Vec<OutgoingMessage> = Vec::new();
    if is_present && !was_present && !st.card_present {
        st.card_present = true;
        msgs.push(
            OutgoingMessage::CardStatus {
                success: true,
                message: String::from_str("Card detected!"),
            },
        );
        proof {
            assert(views_of(msgs@) =~= spec_on_reader_event(old(st)@, was_present, is_present).1);
        }
        (msgs, true)
    } else if !is_present && was_present && st.card_present {
        st.card_present = false;
        st.last_data_read = None;
        msgs.push(
            OutgoingMessage::CardStatus {
                success: false,
                message: String::from_str("Card removed!"),
            },
        );
        proof {
            assert(views_of(msgs@) =~= spec_on_reader_event(old(st)@, was_present, is_present).1);
        }
        (msgs, false)
    } else {
        proof {
            assert(views_of(msgs@) =~= Seq::<OutgoingMessageV>::empty());
        }
        (msgs, false)
    }
}

// ---------------------------------------------------------------------------
// Service laws
// ---------------------------------------------------------------------------
/// One full cycle — a card inserted, read once, and removed — publishes
/// exactly one rising card status and exactly one falling card status, at
/// most one data-read success, and ends with nothing cached; repeating the
/// insertion edge while the card rests, or the removal edge after it left,
/// publishes nothing at all.
pub proof fn lemma_insert_remove_cycle(st: ServiceStateV, outcome: ReadOutcomeV)
    requires
        state_wf(st),
        !st.card_present,
    ensures
        ({
            let (st1, msgs1, do_read) = spec_on_reader_event(st, false, true);
            let (st2, msgs2) = spec_on_read_outcome(st1, outcome);
            let (st3, msgs3, _) = spec_on_reader_event(st2, true, false);
            &&& do_read
            &&& msgs1 == seq![
                OutgoingMessageV::CardStatus { success: true, message: "Card detected!"@ },
            ]
            &&& spec_on_reader_event(st1, false, true) == (st1, Seq::<OutgoingMessageV>::empty(), false)
            &&& msgs2.len() == 1
            &&& !(msgs2[0] is CardStatus)
            &&& msgs3 == seq![
                OutgoingMessageV::CardStatus { success: false, message: "Card removed!"@ },
            ]
            &&& spec_on_reader_event(st3, true, false) == (st3, Seq::<OutgoingMessageV>::empty(), false)
            &&& !st3.card_present
            &&& st3.last_data_read is None
            &&& state_wf(st3)
        }),
{
    let (st1, msgs1, do_read) = spec_on_reader_event(st, false, true);
    let (st2, msgs2) = spec_on_read_outcome(st1, outcome);
    match outcome {
        ReadOutcomeV::Decoded(text) => {
            assert(st1.last_data_read != Some(text));
        },
        ReadOutcomeV::NotNdef => {},
        ReadOutcomeV::Failed(_) => {},
    }
}

/// While the card rests, reading the same content again publishes nothing
/// and changes nothing: at most one data-read success carries any one
/// payload per insertion.
pub proof fn lemma_repeat_read_deduplicated(st: ServiceStateV, text: Seq<char>)
    ensures
        ({
            let (st1, msgs1) = spec_on_read_outcome(st, ReadOutcomeV::Decoded(text));
            let (st2, msgs2) = spec_on_read_outcome(st1, ReadOutcomeV::Decoded(text));
            &&& st1.last_data_read == Some(text)
            &&& msgs2 == Seq::<OutgoingMessageV>::empty()
            &&& st2 == st1
        }),
{
}

/// Two insertions of the same card with the same content publish the read
/// both times: removing the card clears the cache, so deduplication resets.
pub proof fn lemma_dedup_resets_on_removal(st: ServiceStateV, text: Seq<char>)
    requires
        state_wf(st),
        !st.card_present,
    ensures
        ({
            let (st1, _, _) = spec_on_reader_event(st, false, true);
            let (st2, read1) = spec_on_read_outcome(st1, ReadOutcomeV::Decoded(text));
            let (st3, _, _) = spec_on_reader_event(st2, true, false);
            let (st4, _, _) = spec_on_reader_event(st3, false, true);
            let (st5, read2) = spec_on_read_outcome(st4, ReadOutcomeV::Decoded(text));
            &&& read1 == seq![OutgoingMessageV::DataReadSuccess { data: text }]
            &&& read2 == seq![OutgoingMessageV::DataReadSuccess { data: text }]
            &&& state_wf(st5)
        }),
{
}

// ---------------------------------------------------------------------------
// Read outcomes
// ---------------------------------------------------------------------------
/// What came out of reading and decoding the present card.
pub enum ReadOutcome {
    /// The card carried an NDEF text message.
    Decoded(String),
    /// The card was read but held nothing decodable.
    NotNdef,
    /// The card could not be read; the message says why.
    Failed(String),
}

/// Mathematical model of a `ReadOutcome`.
pub ghost enum ReadOutcomeV {
    Decoded(Seq<char>),
    NotNdef,
    Failed(Seq<char>),
}

impl View for ReadOutcome {
    type V = ReadOutcomeV;

    open spec fn view(&self) -> ReadOutcomeV {
        match self {
            ReadOutcome::Decoded(text) => ReadOutcomeV::Decoded(text@),
            ReadOutcome::NotNdef => ReadOutcomeV::NotNdef,
            ReadOutcome::Failed(error) => ReadOutcomeV::Failed(error@),
        }
    }
}

/// Model of taking a read outcome: a decoded text is cached and published
/// only when it differs from the cached one; an undecodable card is reported
/// as `Empty/Non-NDEF`; a failed read is reported with its reason.
pub open spec fn spec_on_read_outcome(st: ServiceStateV, outcome: ReadOutcomeV) -> (
    ServiceStateV,
    Seq<OutgoingMessageV>,
) {
    match outcome {
        ReadOutcomeV::Decoded(text) => {
            if st.last_data_read == Some(text) {
                (st, seq![])
            } else {
                (
                    ServiceStateV { last_data_read: Some(text), ..st },
                    seq![OutgoingMessageV::DataReadSuccess { data: text }],
                )
            }
        },
        ReadOutcomeV::NotNdef => (
            st,
            seq![OutgoingMessageV::DataReadError { error: "Empty/Non-NDEF"@ }],
        ),
        ReadOutcomeV::Failed(error) => (
            st,
            seq![OutgoingMessageV::DataReadError { error: error }],
        ),
    }
}

/// Take the outcome of reading the present card.
pub fn on_read_outcome(st: &mut ServiceState, outcome: ReadOutcome) -> (msgs: Vec<OutgoingMessage>)
    requires
        old(st).wf(),
        old(st).card_present,
    ensures
        final(st).wf(),
        final(st)@ == spec_on_read_outcome(old(st)@, outcome@).0,
        views_of(msgs@) == spec_on_read_outcome(old(st)@, outcome@).1,
{
    let mut msgs: Vec<OutgoingMessage> = Vec::new();
    match outcome {
        ReadOutcome::Decoded(text) => {
            let duplicate = match &st.last_data_read {
                Some(prev) => *prev == text,
                None => false,
            };
            if !duplicate {
                st.last_data_read = Some(text.clone());
                msgs.push(OutgoingMessage::DataReadSuccess { data: text });
                proof {
                    assert(views_of(msgs@) =~= spec_on_read_outcome(old(st)@, outcome@).1);
                }
            } else {
                proof {
                    assert(views_of(msgs@) =~= Seq::<OutgoingMessageV>::empty());
                }
            }
        },
        ReadOutcome::NotNdef => {
            msgs.push(
                OutgoingMessage::DataReadError { error: String::from_str("Empty/Non-NDEF") },
            );
            proof {
                assert(views_of(msgs@) =~= spec_on_read_outcome(old(st)@, outcome@).1);
            }
        },
        ReadOutcome::Failed(error) => {
            msgs.push(OutgoingMessage::DataReadError { error });
            proof {
                assert(views_of(msgs@) =~= spec_on_read_outcome(old(st)@, outcome@).1);
            }
        },
    }
    msgs
}

/// Turn a raw card read into the outcome the state machine takes: decode the
/// buffer as NDEF text — a MIFARE read hands back the raw blocks with the
/// TLV container, an NTAG read hands back the bare message. An undecodable
/// buffer, or a card without an NDEF container at all, is `NotNdef`; any
/// other failed read carries its reason.
pub fn read_to_outcome(family: CardFamily, read_result: Result<Vec<u8>, TagError>) -> (outcome:
    ReadOutcome)
    ensures
        (read_result matches Ok(raw) ==> (match (if family is Mifare1k {
            crate::ndef::spec_decoded_text(raw@)
        } else {
            crate::ndef::spec_message_text(raw@)
        }) {
            Some(text) => outcome@ matches ReadOutcomeV::Decoded(t) && t == text,
            None => outcome@ is NotNdef,
        })),
        read_result matches Err(TagError::NoNdefContainer) ==> outcome@ is NotNdef,
        (read_result matches Err(e) ==> (e is NoNdefContainer || outcome@
            == ReadOutcomeV::Failed(spec_tag_error_text(e)))),
{
    match read_result {
        Ok(raw) => {
            let decoded = match family {
                CardFamily::Mifare1k => crate::ndef::decode_ndef_text(raw.as_slice()),
                CardFamily::Ntag => crate::ndef::decode_message_text(raw.as_slice()),
            };
            match decoded {
                Ok(text) => ReadOutcome::Decoded(text),
                Err(_) => ReadOutcome::NotNdef,
            }
        },
        Err(TagError::NoNdefContainer) => ReadOutcome::NotNdef,
        Err(e) => ReadOutcome::Failed(tag_error_text(e)),
    }
}

// ---------------------------------------------------------------------------
// Error texts
// ---------------------------------------------------------------------------
/// The decimal digit characters.
pub open spec fn spec_digit_char(d: int) -> char {
    if d == 0 {
        '0'
    } else if d == 1 {
        '1'
    } else if d == 2 {
        '2'
    } else if d == 3 {
        '3'
    } else if d == 4 {
        '4'
    } else if d == 5 {
        '5'
    } else if d == 6 {
        '6'
    } else if d == 7 {
        '7'
    } else if d == 8 {
        '8'
    } else {
        '9'
    }
}

/// The decimal notation of a byte, without leading zeros.
pub open spec fn spec_u8_decimal(n: u8) -> Seq<char> {
    if n < 10 {
        seq![spec_digit_char(n as int)]
    } else if n < 100 {
        seq![spec_digit_char(n as int / 10), spec_digit_char(n as int % 10)]
    } else {
        seq![
            spec_digit_char(n as int / 100),
            spec_digit_char((n as int / 10) % 10),
            spec_digit_char(n as int % 10),
        ]
    }
}

/// One decimal digit as a string slice.
fn digit_str(d: u8) -> (s: &'static str)
    requires
        d < 10,
    ensures
        s@ == seq![spec_digit_char(d as int)],
{
    proof {
        reveal_strlit("0");
        reveal_strlit("1");
        reveal_strlit("2");
        reveal_strlit("3");
        reveal_strlit("4");
        reveal_strlit("5");
        reveal_strlit("6");
        reveal_strlit("7");
        reveal_strlit("8");
        reveal_strlit("9");
    }
    let s = match d {
        0 => "0",
        1 => "1",
        2 => "2",
        3 => "3",
        4 => "4",
        5 => "5",
        6 => "6",
        7 => "7",
        8 => "8",
        _ => "9",
    };
    proof {
        assert(s@ =~= seq![spec_digit_char(d as int)]);
    }
    s
}

/// A byte in decimal notation.
pub fn u8_decimal(n: u8) -> (s: String)
    ensures
        s@ == spec_u8_decimal(n),
{
    if n < 10 {
        let s = String::from_str(digit_str(n));
        proof {
            assert(s@ =~= spec_u8_decimal(n));
        }
        s
    } else if n < 100 {
        let mut s = String::from_str(digit_str(n / 10));
        s.append(digit_str(n % 10));
        proof {
            assert(s@ =~= spec_u8_decimal(n));
        }
        s
    } else {
        let mut s = String::from_str(digit_str(n / 100));
        s.append(digit_str((n / 10) % 10));
        s.append(digit_str(n % 10));
        proof {
            assert(s@ =~= spec_u8_decimal(n));
        }
        s
    }
}

/// The client-visible text of each tag error.
pub open spec fn spec_tag_error_text(e: TagError) -> Seq<char> {
    match e {
        TagError::NoNdefContainer => "No NDEF container found (Tag 0x03 missing)"@,
        TagError::IncompleteRead => "Incomplete read: card ended before NDEF length reached"@,
        TagError::SectorAuthFailed(sector) => "Auth failed for sector "@ + spec_u8_decimal(sector),
        TagError::MessageTooLong => "Data does not fit the tag"@,
        TagError::NoData => "No data could be read from the card."@,
    }
}

/// Render a tag error for the client.
pub fn tag_error_text(e: TagError) -> (s: String)
    ensures
        s@ == spec_tag_error_text(e),
{
    match e {
        TagError::NoNdefContainer => String::from_str("No NDEF container found (Tag 0x03 missing)"),
        TagError::IncompleteRead => String::from_str(
            "Incomplete read: card ended before NDEF length reached",
        ),
        TagError::SectorAuthFailed(sector) => {
            let mut s = String::from_str("Auth failed for sector ");
            let digits = u8_decimal(sector);
            s.append(digits.as_str());
            s
        },
        TagError::MessageTooLong => String::from_str("Data does not fit the tag"),
        TagError::NoData => String::from_str("No data could be read from the card."),
    }
}

// ---------------------------------------------------------------------------
// Write outcomes
// ---------------------------------------------------------------------------
/// Model of the event reporting a write attempt.
pub open spec fn spec_write_outcome(result: Result<(), Seq<char>>) -> OutgoingMessageV {
    match result {
        Ok(()) => OutgoingMessageV::DataWriteSuccess { message: "Data Written Successfully!"@ },
        Err(error) => OutgoingMessageV::DataWriteError { error: error },
    }
}

/// The event reporting a write attempt.
pub fn write_outcome(result: Result<(), String>) -> (msg: OutgoingMessage)
    ensures
        (result matches Ok(()) ==> msg@ == spec_write_outcome(Ok(()))),
        (result matches Err(e) ==> msg@ == spec_write_outcome(Err(e@))),
{
    match result {
        Ok(()) => OutgoingMessage::DataWriteSuccess {
            message: String::from_str("Data Written Successfully!"),
        },
        Err(error) => OutgoingMessage::DataWriteError { error },
    }
}

/// The event reporting that a write command arrived with no reader
/// enumerated.
pub fn no_reader_event() -> (msg: OutgoingMessage)
    ensures
        msg@ == (OutgoingMessageV::DataWriteError { error: "No reader connected"@ }),
{
    OutgoingMessage::DataWriteError { error: String::from_str("No reader connected") }
}

/// The event reporting that no enumerated reader yielded a card to write.
pub fn no_card_event() -> (msg: OutgoingMessage)
    ensures
        msg@ == (OutgoingMessageV::DataWriteError { error: "No card found on reader"@ }),
{
    OutgoingMessage::DataWriteError { error: String::from_str("No card found on reader") }
}

// ---------------------------------------------------------------------------
// Recovery
// ---------------------------------------------------------------------------
/// How a PC/SC failure is classified for recovery.
#[derive(Clone, Copy, PartialEq, Eq, Structural, Debug)]
pub enum PcscErrorKind {
    /// The blocking wait ran out; nothing is wrong.
    Timeout,
    /// The resource manager stopped.
    ServiceStopped,
    /// The resource manager is not running.
    NoService,
    /// Any other error.
    Other,
}

/// What the reader loop does after a PC/SC failure.
#[derive(Clone, Copy, PartialEq, Eq, Structural, Debug)]
pub enum RecoveryAction {
    /// Go on with this tick.
    Proceed,
    /// Tear the context down, sleep, and re-establish it.
    Reestablish { backoff_ms: u32 },
    /// Sleep and retry the inner loop with the same context.
    Retry { backoff_ms: u32 },
}

/// Decide recovery: a timeout is benign; a dead resource manager means
/// re-establishing the context after one second; anything else is retried
/// after a tenth of a second.
pub fn recovery_decision(kind: PcscErrorKind) -> (action: RecoveryAction)
    ensures
        action == (match kind {
            PcscErrorKind::Timeout => RecoveryAction::Proceed,
            PcscErrorKind::ServiceStopped => (RecoveryAction::Reestablish { backoff_ms: 1000 }),
            PcscErrorKind::NoService => (RecoveryAction::Reestablish { backoff_ms: 1000 }),
            PcscErrorKind::Other => (RecoveryAction::Retry { backoff_ms: 100 }),
        }),
{
    match kind {
        PcscErrorKind::Timeout => RecoveryAction::Proceed,
        PcscErrorKind::ServiceStopped => RecoveryAction::Reestablish { backoff_ms: 1000 },
        PcscErrorKind::NoService => RecoveryAction::Reestablish { backoff_ms: 1000 },
        PcscErrorKind::Other => RecoveryAction::Retry { backoff_ms: 100 },
    }
}

/// Model of a failure to establish the context: the clients hear about it
/// only while they believe a reader is connected; the loop backs off three
/// seconds either way.
pub open spec fn spec_on_context_failure(st: ServiceStateV, error: Seq<char>) -> Seq<
    OutgoingMessageV,
> {
    if st.reader_connected {
        seq![OutgoingMessageV::ReaderError { error: error }]
    } else {
        seq![]
    }
}

/// Take a failure to establish the PC/SC context. Returns the events to
/// publish and the backoff in milliseconds before the next attempt.
pub fn on_context_failure(st: &ServiceState, error: String) -> (r: (Vec<OutgoingMessage>, u32))
    ensures
        views_of(r.0@) == spec_on_context_failure(st@, error@),
        r.1 == 3000,
{
    let mut msgs: Vec<OutgoingMessage> = Vec::new();
    if st.reader_connected {
        msgs.push(OutgoingMessage::ReaderError { error });
        proof {
            assert(views_of(msgs@) =~= spec_on_context_failure(st@, error@));
        }
    } else {
        proof {
            assert(views_of(msgs@) =~= Seq::<OutgoingMessageV>::empty());
        }
    }
    (msgs, 3000)
}

} // verus!
