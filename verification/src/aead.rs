//! The AEAD primitive (authenticated encryption with associated data):
//! symmetric authenticated encryption secure against adaptive
//! chosen-ciphertext attacks.
//!
//! Associated data is authenticated but not encrypted (RFC 5116
//! semantics): it binds a ciphertext to its context without hiding it.
use vstd::prelude::*;

use crate::errors::TinkError;
use crate::codec::{encode_aes_gcm_key_format, ser_aes_gcm_key_format};
use crate::protos::{AesGcmKeyFormat, KeyTemplate, OutputPrefixType};

pub mod aes_gcm;
pub mod rust_crypto_aead;

verus! {

/// Ciphertext produced by an AEAD primitive.
#[derive(Debug)]
pub struct AeadCiphertext(pub Vec<u8>);

/// Plaintext recovered by an AEAD primitive.
#[derive(Debug)]
pub struct AeadPlaintext(pub Vec<u8>);

impl View for AeadCiphertext {
    type V = Seq<u8>;

    open spec fn view(&self) -> Seq<u8> {
        self.0@
    }
}

impl View for AeadPlaintext {
    type V = Seq<u8>;

    open spec fn view(&self) -> Seq<u8> {
        self.0@
    }
}

impl AeadPlaintext {
    /// The plaintext bytes.
    pub fn bytes(&self) -> (r: &[u8])
        ensures
            r@ == self@,
    {
        self.0.as_slice()
    }
}

impl AeadCiphertext {
    /// The ciphertext bytes.
    pub fn bytes(&self) -> (r: &[u8])
        ensures
            r@ == self@,
    {
        self.0.as_slice()
    }
}

pub type AeadResult<T> = Result<T, TinkError>;

/// The AEAD capability consumed by the envelope and dispatch layers.
/// A master key supplied by the application implements this trait;
/// nothing is assumed of such an implementation beyond its signature.
pub trait Aead {
    fn encrypt(&self, plaintext: &[u8], associated_data: &[u8]) -> AeadResult<AeadCiphertext>;

    fn decrypt(&self, ciphertext: &[u8], associated_data: &[u8]) -> AeadResult<AeadPlaintext>;
}

/// Canonical key templates for the AEAD key types.
pub struct AeadKeyTemplates;

impl AeadKeyTemplates {
    /// The AES-256-GCM template: 32-byte keys, ciphertexts framed with
    /// the five-byte versioned prefix.
    pub fn aes_256_gcm() -> (r: KeyTemplate)
        ensures
            r@.type_url == aes_gcm::aes_gcm_type_url(),
            r@.value == ser_aes_gcm_key_format(AesGcmKeyFormat { key_size: 32, version: 0 }),
            r@.output_prefix_type == OutputPrefixType::Tink,
    {
        let format = aes_gcm::AesGcmFactory::aes_256();
        KeyTemplate {
            type_url: aes_gcm::AesGcm::key_type_bytes(),
            value: encode_aes_gcm_key_format(&format),
            output_prefix_type: OutputPrefixType::Tink,
        }
    }
}

} // verus!
