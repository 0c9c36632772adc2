//! A small game library in which participants submit encrypted answers,
//! a single evaluator decrypts and deduplicates them, and every participant
//! converges on the same view of the accepted results.
//!
//! The submission wire format and the whole state machine are verified;
//! only the RSA primitives and the UTF-8 validation of std are trusted,
//! each behind a small contract.
#![verifier::loop_isolation(false)]
use vstd::prelude::*;

pub mod codec;
pub mod crypto;
pub mod game;

verus! {

/// Everything that can go wrong while handling an action.
#[derive(Debug, Clone, Copy, PartialEq, Eq, Structural)]
pub enum HandleError {
    /// The sender of a submission, or the claimant of a result, is not registered.
    UnknownParticipant,
    /// Encryption or decryption failed.
    CryptoError,
    /// A structured message could not be written to or read back from bytes.
    EncodingError,
    /// An action payload was malformed and was rejected before any state change.
    DecodeError,
}

} // verus!
