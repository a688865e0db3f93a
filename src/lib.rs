//! Command/response exchanges with Ledger-style signing devices.
//!
//! The APDU message model and its status words, the typed payloads that every
//! application answers, the framing of APDUs over USB HID, TCP and HTTP simulators, the
//! chunked upload of long messages, and BIP44 derivation paths.
use vstd::prelude::*;

pub mod apdu;
pub mod apdus;
pub mod bip44;
pub mod bytes;
pub mod common;
pub mod error;
pub mod exchange;
pub mod hid;
pub mod http;
pub mod tcp;
pub mod text;

verus! {

} // verus!
