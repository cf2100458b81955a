//! A key-management core: a registry of pluggable key types, a versioned
//! keyset container that can itself be protected by envelope encryption,
//! and a primitive-dispatch layer that turns a set of keys into a usable
//! rotation-aware authenticated-encryption object.
use vstd::prelude::*;

pub mod aead;
pub mod codec;
pub mod errors;
pub mod keysets;
pub mod mac;
pub mod primitive_set;
pub mod protos;
pub mod registry;
pub mod wire;

pub use errors::TinkError;

use crate::protos::KeyMaterialType;

verus! {

/// Configuration marker for initializing the library.
pub struct TinkConfig {}

/// The capability to validate, parse and generate keys of one type.
/// One implementation exists per algorithm; the keyset and dispatch
/// layers depend only on this interface.
pub trait KeyFactory {
    type Key;

    type KeyFormat;

    fn validate_key_format(key_format: &Self::KeyFormat) -> Result<(), TinkError>;

    fn parse_key_format(bytes: &[u8]) -> Result<Self::KeyFormat, TinkError>;

    fn create_key(key_format: &Self::KeyFormat) -> Result<Self::Key, TinkError>;
}

/// The registry entry for one key type: its identifier, version,
/// material classification, and key validation and parsing.
pub trait KeyTypeManager {
    type Factory;

    type Key;

    type KeyFormat;

    fn key_type() -> &'static str;

    fn version() -> i32;

    fn key_material_type() -> KeyMaterialType;

    fn validate_key(key: &Self::Key) -> Result<(), TinkError>;

    fn parse_key(bytes: &[u8]) -> Result<Self::Key, TinkError>;
}

/// Generates `num_bytes` fresh key or nonce bytes.
///
/// Relies on `rand::fill`: fills the buffer from the thread-local
/// cryptographically secure generator. Nothing is promised of the
/// values beyond the length.
#[verifier::external_body]
pub fn rand_bytes(num_bytes: usize) -> (r: Vec<u8>)
    ensures
        r@.len() == num_bytes,
{
    let mut buf = vec![0u8; num_bytes];
    rand::fill(&mut buf[..]);
    buf
}

} // verus!
