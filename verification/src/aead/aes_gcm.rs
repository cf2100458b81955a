//! The AES-GCM key type: format validation, key generation, and key
//! parsing, under the type identifier the wire schema fixes for it.
use vstd::prelude::*;

use crate::codec::{
    decode_aes_gcm_key, decode_aes_gcm_key_format, parse_aes_gcm_key, parse_aes_gcm_key_format,
};
use crate::errors::TinkError;
use crate::protos::{AesGcmKey, AesGcmKeyFormat, KeyMaterialType};
use crate::rand_bytes;
use crate::{KeyFactory, KeyTypeManager};
use vstd::string::StringSliceAdditionalSpecFns;

verus! {

/// The type identifier of AES-GCM keys, as its UTF-8 bytes.
pub open spec fn aes_gcm_type_url() -> Seq<u8> {
    "type.googleapis.com/google.crypto.tink.AesGcmKey".spec_bytes()
}

/// The AES-GCM key type manager.
#[derive(Clone, Copy)]
pub struct AesGcm;

/// The AES-GCM key factory.
#[derive(Clone, Copy)]
pub struct AesGcmFactory;

impl AesGcmFactory {
    /// The format of 32-byte (AES-256) keys.
    pub fn aes_256() -> (r: AesGcmKeyFormat)
        ensures
            r == (AesGcmKeyFormat { key_size: 32u32, version: 0u32 }),
    {
        AesGcmKeyFormat { key_size: 32, version: 0 }
    }

    /// Accepts exactly the AES key sizes of 16 or 32 bytes; anything
    /// else is rejected before a key could be generated from it.
    pub fn validate_key_format(key_format: &AesGcmKeyFormat) -> (r: Result<(), TinkError>)
        ensures
            r is Ok <==> (key_format.key_size == 16 || key_format.key_size == 32),
            r matches Err(e) ==> e == TinkError::ValidationError,
    {
        match key_format.key_size {
            16 | 32 => Ok(()),
            _ => Err(TinkError::ValidationError),
        }
    }

    /// Parses a serialized `AesGcmKeyFormat`.
    pub fn parse_key_format(bytes: &[u8]) -> (r: Result<AesGcmKeyFormat, TinkError>)
        ensures
            r matches Ok(f) ==> parse_aes_gcm_key_format(bytes@) == Some(f),
            r is Err ==> parse_aes_gcm_key_format(bytes@) is None,
            r matches Err(e) ==> e == TinkError::ProtobufError,
    {
        decode_aes_gcm_key_format(bytes)
    }

    /// Generates a fresh key of the validated format: `key_size` random
    /// bytes at the current schema version.
    pub fn create_key(key_format: &AesGcmKeyFormat) -> (r: AesGcmKey)
        requires
            key_format.key_size == 16 || key_format.key_size == 32,
        ensures
            r@.version == 0,
            r@.key_value.len() == key_format.key_size,
    {
        AesGcmKey { version: 0, key_value: rand_bytes(key_format.key_size as usize) }
    }
}

impl KeyFactory for AesGcmFactory {
    type Key = AesGcmKey;

    type KeyFormat = AesGcmKeyFormat;

    fn validate_key_format(key_format: &AesGcmKeyFormat) -> Result<(), TinkError> {
        AesGcmFactory::validate_key_format(key_format)
    }

    fn parse_key_format(bytes: &[u8]) -> Result<AesGcmKeyFormat, TinkError> {
        AesGcmFactory::parse_key_format(bytes)
    }

    fn create_key(key_format: &AesGcmKeyFormat) -> Result<AesGcmKey, TinkError> {
        match AesGcmFactory::validate_key_format(key_format) {
            Ok(()) => Ok(AesGcmFactory::create_key(key_format)),
            Err(e) => Err(e),
        }
    }
}

impl AesGcm {
    /// The type identifier of AES-GCM keys.
    pub fn key_type() -> (r: &'static str)
        ensures
            r.spec_bytes() == aes_gcm_type_url(),
    {
        "type.googleapis.com/google.crypto.tink.AesGcmKey"
    }

    /// The type identifier of AES-GCM keys, as its UTF-8 bytes.
    pub fn key_type_bytes() -> (r: Vec<u8>)
        ensures
            r@ == aes_gcm_type_url(),
    {
        let s: &str = "type.googleapis.com/google.crypto.tink.AesGcmKey";
        vstd::slice::slice_to_vec(s.as_bytes())
    }

    /// The schema version this manager implements.
    pub fn version() -> (r: i32)
        ensures
            r == 0,
    {
        0
    }

    /// AES-GCM keys are symmetric secret material.
    pub fn key_material_type() -> (r: KeyMaterialType)
        ensures
            r == KeyMaterialType::Symmetric,
    {
        KeyMaterialType::Symmetric
    }

    /// Accepts exactly the keys whose raw material has an accepted AES
    /// size and whose version this manager implements.
    pub fn validate_key(key: &AesGcmKey) -> (r: Result<(), TinkError>)
        ensures
            r is Ok <==> ((key@.key_value.len() == 16 || key@.key_value.len() == 32)
                && key.version == 0),
            r matches Err(e) ==> e == TinkError::ValidationError,
    {
        if (key.key_value.len() == 16 || key.key_value.len() == 32) && key.version == 0 {
            Ok(())
        } else {
            Err(TinkError::ValidationError)
        }
    }

    /// Parses a serialized `AesGcmKey`.
    pub fn parse_key(bytes: &[u8]) -> (r: Result<AesGcmKey, TinkError>)
        ensures
            r matches Ok(k) ==> parse_aes_gcm_key(bytes@) == Some(k@),
            r is Err ==> parse_aes_gcm_key(bytes@) is None,
            r matches Err(e) ==> e == TinkError::ProtobufError,
    {
        decode_aes_gcm_key(bytes)
    }
}

impl KeyTypeManager for AesGcm {
    type Factory = AesGcmFactory;

    type Key = AesGcmKey;

    type KeyFormat = AesGcmKeyFormat;

    fn key_type() -> &'static str {
        AesGcm::key_type()
    }

    fn version() -> i32 {
        AesGcm::version()
    }

    fn key_material_type() -> KeyMaterialType {
        AesGcm::key_material_type()
    }

    fn validate_key(key: &AesGcmKey) -> Result<(), TinkError> {
        AesGcm::validate_key(key)
    }

    fn parse_key(bytes: &[u8]) -> Result<AesGcmKey, TinkError> {
        AesGcm::parse_key(bytes)
    }
}

} // verus!
