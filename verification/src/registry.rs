//! The key-type registry: resolves a type identifier to the manager
//! that can validate, generate and instantiate keys of that type.
//!
//! The lookup table is fixed at build time; adding an algorithm means
//! adding one manager and one arm here, nothing in the keyset or
//! dispatch layers.
use vstd::prelude::*;

use crate::aead::aes_gcm::{aes_gcm_type_url, AesGcm, AesGcmFactory};
use crate::aead::rust_crypto_aead::RustCryptoAead;
use crate::codec::{encode_aes_gcm_key, parse_aes_gcm_key, parse_aes_gcm_key_format};
use crate::errors::TinkError;
use crate::protos::{KeyData, KeyMaterialType, KeyTemplate};
use crate::wire::bytes_eq;

verus! {

/// A template this registry can turn into a key: a known type
/// identifier whose format parameters parse and validate.
pub open spec fn template_valid(t: crate::protos::KeyTemplateV) -> bool {
    &&& t.type_url == aes_gcm_type_url()
    &&& match parse_aes_gcm_key_format(t.value) {
        Some(f) => f.key_size == 16 || f.key_size == 32,
        None => false,
    }
}

/// Key data this registry can turn into an AEAD primitive.
pub open spec fn key_data_valid(kd: crate::protos::KeyDataV) -> bool {
    &&& kd.type_url == aes_gcm_type_url()
    &&& match parse_aes_gcm_key(kd.value) {
        Some(k) => (k.key_value.len() == 16 || k.key_value.len() == 32) && k.version == 0,
        None => false,
    }
}

/// Generates key data from a template: looks the type up, validates
/// the format, and generates fresh key material. Succeeds on exactly
/// the valid templates, and the result carries the template's type
/// identifier.
pub fn create_key_data(template: &KeyTemplate) -> (r: Result<KeyData, TinkError>)
    ensures
        r is Ok <==> template_valid(template@),
        r matches Ok(kd) ==> {
            &&& kd@.type_url == template@.type_url
            &&& kd@.key_material_type == KeyMaterialType::Symmetric
            &&& key_data_valid(kd@)
            &&& match (parse_aes_gcm_key(kd@.value), parse_aes_gcm_key_format(template@.value)) {
                (Some(k), Some(f)) => k.key_value.len() == f.key_size && k.version == 0,
                _ => false,
            }
        },
        r matches Err(e) ==> (e == TinkError::UnknownKeyType || e == TinkError::ProtobufError
            || e == TinkError::ValidationError),
        template@.type_url != aes_gcm_type_url() ==> r == Err::<KeyData, TinkError>(
            TinkError::UnknownKeyType,
        ),
{
    let url = AesGcm::key_type_bytes();
    if !bytes_eq(template.type_url.as_slice(), url.as_slice()) {
        return Err(TinkError::UnknownKeyType);
    }
    let format = match AesGcmFactory::parse_key_format(template.value.as_slice()) {
        Ok(f) => f,
        Err(_) => {
            return Err(TinkError::ProtobufError);
        },
    };
    if let Err(e) = AesGcmFactory::validate_key_format(&format) {
        return Err(e);
    }
    let key = AesGcmFactory::create_key(&format);
    let value = encode_aes_gcm_key(&key);
    proof {
        crate::codec::lemma_aes_gcm_key_round_trip(key@);
    }
    Ok(
        KeyData {
            type_url: crate::wire::copy_bytes(&template.type_url),
            value: value,
            key_material_type: KeyMaterialType::Symmetric,
        },
    )
}

/// Instantiates the AEAD primitive for key data: looks the type up,
/// parses and validates the key, and binds the cipher to its material.
/// Succeeds on exactly the valid key data.
pub fn aead_from_key_data(kd: &KeyData) -> (r: Result<RustCryptoAead, TinkError>)
    ensures
        r is Ok <==> key_data_valid(kd@),
        r matches Ok(a) ==> a.wf() && match parse_aes_gcm_key(kd@.value) {
            Some(k) => a@ == k.key_value,
            None => false,
        },
        r matches Err(e) ==> (e == TinkError::UnknownKeyType || e == TinkError::ProtobufError
            || e == TinkError::ValidationError),
{
    let url = AesGcm::key_type_bytes();
    if !bytes_eq(kd.type_url.as_slice(), url.as_slice()) {
        return Err(TinkError::UnknownKeyType);
    }
    let key = match AesGcm::parse_key(kd.value.as_slice()) {
        Ok(k) => k,
        Err(_) => {
            return Err(TinkError::ProtobufError);
        },
    };
    if let Err(e) = AesGcm::validate_key(&key) {
        return Err(e);
    }
    RustCryptoAead::create(key.key_value)
}

} // verus!
