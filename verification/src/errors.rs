//! Error kinds of the key-management core.
//!
//! Registry and codec errors surface immediately; envelope decryption
//! failures surface as `DecryptionError` without revealing their cause.
use vstd::prelude::*;

use crate::keysets::ReadError;

verus! {

/// The error kinds this library reports.
///
/// `DecryptionError` covers both AEAD verification failure and "no key
/// matched during decrypt dispatch", deliberately, so that a caller
/// cannot distinguish the two.
#[derive(Debug, Clone, Copy, PartialEq, Eq, Structural)]
pub enum TinkError {
    DecryptionError,
    KeyNotFound,
    KeysetReadError(ReadError),
    ProtobufError,
    UnknownKeyType,
    ValidationError,
}

impl From<ReadError> for TinkError {
    fn from(read_error: ReadError) -> (r: Self)
        ensures
            r == TinkError::KeysetReadError(read_error),
    {
        TinkError::KeysetReadError(read_error)
    }
}

impl vstd::std_specs::convert::FromSpecImpl<ReadError> for TinkError {
    open spec fn obeys_from_spec() -> bool {
        true
    }

    open spec fn from_spec(read_error: ReadError) -> Self {
        TinkError::KeysetReadError(read_error)
    }
}

} // verus!
