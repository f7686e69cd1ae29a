//! Verified core of a PC/SC smartcard gateway: APDU framing, the NDEF codec,
//! tag read/write planning for MIFARE Classic 1K and NTAG / Type-2 cards,
//! and the reader event state machine.
//!
//! The surrounding process (PC/SC calls, WebSocket transport, JSON) lives
//! outside this crate and drives these functions with plain values: the
//! library decides every byte that goes to the card and every event the
//! clients see.

pub mod apdu;
pub mod bytes;
pub mod cards;
pub mod ndef;
pub mod service;
pub mod types;
