//! The data model of the keyset wire schema: key material, keys, keysets,
//! the envelope form, the redacted info projection, and the AES-GCM
//! per-algorithm messages.
//!
//! Strings of the wire schema (`type_url`) are held as their UTF-8 bytes,
//! which is what the wire carries.
use vstd::prelude::*;

verus! {

/// Classification of key material; `Symmetric` and `AsymmetricPrivate`
/// are secret.
#[derive(Debug, Clone, Copy, PartialEq, Eq, Structural)]
pub enum KeyMaterialType {
    UnknownKeymaterial,
    Symmetric,
    AsymmetricPrivate,
    AsymmetricPublic,
    Remote,
}

/// Lifecycle state of a key; transitions are monotonic
/// (`Enabled` -> `Disabled` -> `Destroyed`).
#[derive(Debug, Clone, Copy, PartialEq, Eq, Structural)]
pub enum KeyStatusType {
    UnknownStatus,
    Enabled,
    Disabled,
    Destroyed,
}

/// How ciphertexts produced under a key are framed.
#[derive(Debug, Clone, Copy, PartialEq, Eq, Structural)]
pub enum OutputPrefixType {
    UnknownPrefix,
    Tink,
    Legacy,
    Raw,
    Crunchy,
}

/// The wire value of a `KeyMaterialType`.
pub open spec fn key_material_type_value(t: KeyMaterialType) -> u32 {
    match t {
        KeyMaterialType::UnknownKeymaterial => 0,
        KeyMaterialType::Symmetric => 1,
        KeyMaterialType::AsymmetricPrivate => 2,
        KeyMaterialType::AsymmetricPublic => 3,
        KeyMaterialType::Remote => 4,
    }
}

/// The wire value of a `KeyStatusType`.
pub open spec fn key_status_type_value(t: KeyStatusType) -> u32 {
    match t {
        KeyStatusType::UnknownStatus => 0,
        KeyStatusType::Enabled => 1,
        KeyStatusType::Disabled => 2,
        KeyStatusType::Destroyed => 3,
    }
}

/// The wire value of an `OutputPrefixType`.
pub open spec fn output_prefix_type_value(t: OutputPrefixType) -> u32 {
    match t {
        OutputPrefixType::UnknownPrefix => 0,
        OutputPrefixType::Tink => 1,
        OutputPrefixType::Legacy => 2,
        OutputPrefixType::Raw => 3,
        OutputPrefixType::Crunchy => 4,
    }
}

/// The `KeyMaterialType` a wire value stands for, if any.
pub open spec fn key_material_type_of_value(v: nat) -> Option<KeyMaterialType> {
    if v == 0 {
        Some(KeyMaterialType::UnknownKeymaterial)
    } else if v == 1 {
        Some(KeyMaterialType::Symmetric)
    } else if v == 2 {
        Some(KeyMaterialType::AsymmetricPrivate)
    } else if v == 3 {
        Some(KeyMaterialType::AsymmetricPublic)
    } else if v == 4 {
        Some(KeyMaterialType::Remote)
    } else {
        None
    }
}

/// The `KeyStatusType` a wire value stands for, if any.
pub open spec fn key_status_type_of_value(v: nat) -> Option<KeyStatusType> {
    if v == 0 {
        Some(KeyStatusType::UnknownStatus)
    } else if v == 1 {
        Some(KeyStatusType::Enabled)
    } else if v == 2 {
        Some(KeyStatusType::Disabled)
    } else if v == 3 {
        Some(KeyStatusType::Destroyed)
    } else {
        None
    }
}

/// The `OutputPrefixType` a wire value stands for, if any.
pub open spec fn output_prefix_type_of_value(v: nat) -> Option<OutputPrefixType> {
    if v == 0 {
        Some(OutputPrefixType::UnknownPrefix)
    } else if v == 1 {
        Some(OutputPrefixType::Tink)
    } else if v == 2 {
        Some(OutputPrefixType::Legacy)
    } else if v == 3 {
        Some(OutputPrefixType::Raw)
    } else if v == 4 {
        Some(OutputPrefixType::Crunchy)
    } else {
        None
    }
}

/// Mapping a variant to its wire value and back is the identity.
pub proof fn lemma_enum_values_invert()
    ensures
        forall|t: KeyMaterialType| #[trigger] key_material_type_of_value(
            key_material_type_value(t) as nat,
        ) == Some(t),
        forall|t: KeyStatusType| #[trigger] key_status_type_of_value(
            key_status_type_value(t) as nat,
        ) == Some(t),
        forall|t: OutputPrefixType| #[trigger] output_prefix_type_of_value(
            output_prefix_type_value(t) as nat,
        ) == Some(t),
{
}

/// Turns a `KeyMaterialType` into its wire value.
pub fn key_material_type_to_u32(t: KeyMaterialType) -> (r: u32)
    ensures
        r == key_material_type_value(t),
{
    match t {
        KeyMaterialType::UnknownKeymaterial => 0,
        KeyMaterialType::Symmetric => 1,
        KeyMaterialType::AsymmetricPrivate => 2,
        KeyMaterialType::AsymmetricPublic => 3,
        KeyMaterialType::Remote => 4,
    }
}

/// Turns a wire value into a `KeyMaterialType`, if it stands for one.
pub fn key_material_type_from_u64(v: u64) -> (r: Option<KeyMaterialType>)
    ensures
        r == key_material_type_of_value(v as nat),
{
    if v == 0 {
        Some(KeyMaterialType::UnknownKeymaterial)
    } else if v == 1 {
        Some(KeyMaterialType::Symmetric)
    } else if v == 2 {
        Some(KeyMaterialType::AsymmetricPrivate)
    } else if v == 3 {
        Some(KeyMaterialType::AsymmetricPublic)
    } else if v == 4 {
        Some(KeyMaterialType::Remote)
    } else {
        None
    }
}

/// Turns a `KeyStatusType` into its wire value.
pub fn key_status_type_to_u32(t: KeyStatusType) -> (r: u32)
    ensures
        r == key_status_type_value(t),
{
    match t {
        KeyStatusType::UnknownStatus => 0,
        KeyStatusType::Enabled => 1,
        KeyStatusType::Disabled => 2,
        KeyStatusType::Destroyed => 3,
    }
}

/// Turns a wire value into a `KeyStatusType`, if it stands for one.
pub fn key_status_type_from_u64(v: u64) -> (r: Option<KeyStatusType>)
    ensures
        r == key_status_type_of_value(v as nat),
{
    if v == 0 {
        Some(KeyStatusType::UnknownStatus)
    } else if v == 1 {
        Some(KeyStatusType::Enabled)
    } else if v == 2 {
        Some(KeyStatusType::Disabled)
    } else if v == 3 {
        Some(KeyStatusType::Destroyed)
    } else {
        None
    }
}

/// Turns an `OutputPrefixType` into its wire value.
pub fn output_prefix_type_to_u32(t: OutputPrefixType) -> (r: u32)
    ensures
        r == output_prefix_type_value(t),
{
    match t {
        OutputPrefixType::UnknownPrefix => 0,
        OutputPrefixType::Tink => 1,
        OutputPrefixType::Legacy => 2,
        OutputPrefixType::Raw => 3,
        OutputPrefixType::Crunchy => 4,
    }
}

/// Turns a wire value into an `OutputPrefixType`, if it stands for one.
pub fn output_prefix_type_from_u64(v: u64) -> (r: Option<OutputPrefixType>)
    ensures
        r == output_prefix_type_of_value(v as nat),
{
    if v == 0 {
        Some(OutputPrefixType::UnknownPrefix)
    } else if v == 1 {
        Some(OutputPrefixType::Tink)
    } else if v == 2 {
        Some(OutputPrefixType::Legacy)
    } else if v == 3 {
        Some(OutputPrefixType::Raw)
    } else if v == 4 {
        Some(OutputPrefixType::Crunchy)
    } else {
        None
    }
}

/// Serialized key material together with the type that can interpret it.
#[derive(Debug, Clone, PartialEq, Eq)]
pub struct KeyData {
    pub type_url: Vec<u8>,
    pub value: Vec<u8>,
    pub key_material_type: KeyMaterialType,
}

/// Mathematical model of a `KeyData`.
#[verifier::ext_equal]
pub ghost struct KeyDataV {
    pub type_url: Seq<u8>,
    pub value: Seq<u8>,
    pub key_material_type: KeyMaterialType,
}

impl View for KeyData {
    type V = KeyDataV;

    open spec fn view(&self) -> KeyDataV {
        KeyDataV {
            type_url: self.type_url@,
            value: self.value@,
            key_material_type: self.key_material_type,
        }
    }
}

/// One entry of a keyset: key material plus rotation metadata.
#[derive(Debug, Clone, PartialEq, Eq)]
pub struct Key {
    pub key_data: Option<KeyData>,
    pub status: KeyStatusType,
    pub key_id: u32,
    pub output_prefix_type: OutputPrefixType,
}

/// Mathematical model of a `Key`.
#[verifier::ext_equal]
pub ghost struct KeyV {
    pub key_data: Option<KeyDataV>,
    pub status: KeyStatusType,
    pub key_id: u32,
    pub output_prefix_type: OutputPrefixType,
}

impl View for Key {
    type V = KeyV;

    open spec fn view(&self) -> KeyV {
        KeyV {
            key_data: match self.key_data {
                Some(kd) => Some(kd@),
                None => None,
            },
            status: self.status,
            key_id: self.key_id,
            output_prefix_type: self.output_prefix_type,
        }
    }
}

/// The ordered collection of keys with a designated primary.
/// Order is rotation history, not a priority list.
#[derive(Debug, Clone, PartialEq, Eq)]
pub struct Keyset {
    pub primary_key_id: u32,
    pub key: Vec<Key>,
}

/// Mathematical model of a `Keyset`.
#[verifier::ext_equal]
pub ghost struct KeysetV {
    pub primary_key_id: u32,
    pub key: Seq<KeyV>,
}

impl View for Keyset {
    type V = KeysetV;

    open spec fn view(&self) -> KeysetV {
        KeysetV {
            primary_key_id: self.primary_key_id,
            key: self.key@.map_values(|k: Key| k@),
        }
    }
}

/// Redacted projection of a `Key`: no field can carry key material.
#[derive(Debug, Clone, PartialEq, Eq)]
pub struct KeyInfo {
    pub type_url: Vec<u8>,
    pub status: KeyStatusType,
    pub key_id: u32,
    pub output_prefix_type: OutputPrefixType,
}

/// Mathematical model of a `KeyInfo`.
#[verifier::ext_equal]
pub ghost struct KeyInfoV {
    pub type_url: Seq<u8>,
    pub status: KeyStatusType,
    pub key_id: u32,
    pub output_prefix_type: OutputPrefixType,
}

impl View for KeyInfo {
    type V = KeyInfoV;

    open spec fn view(&self) -> KeyInfoV {
        KeyInfoV {
            type_url: self.type_url@,
            status: self.status,
            key_id: self.key_id,
            output_prefix_type: self.output_prefix_type,
        }
    }
}

/// Redacted projection of a `Keyset`, safe for logging.
#[derive(Debug, Clone, PartialEq, Eq)]
pub struct KeysetInfo {
    pub primary_key_id: u32,
    pub key_info: Vec<KeyInfo>,
}

/// Mathematical model of a `KeysetInfo`.
#[verifier::ext_equal]
pub ghost struct KeysetInfoV {
    pub primary_key_id: u32,
    pub key_info: Seq<KeyInfoV>,
}

impl View for KeysetInfo {
    type V = KeysetInfoV;

    open spec fn view(&self) -> KeysetInfoV {
        KeysetInfoV {
            primary_key_id: self.primary_key_id,
            key_info: self.key_info@.map_values(|k: KeyInfo| k@),
        }
    }
}

/// The envelope form of a keyset: ciphertext of a serialized `Keyset`
/// under a master-key AEAD, with an optional redacted info projection.
#[derive(Debug, Clone, PartialEq, Eq)]
pub struct EncryptedKeyset {
    pub encrypted_keyset: Vec<u8>,
    pub keyset_info: Option<KeysetInfo>,
}

/// Mathematical model of an `EncryptedKeyset`.
#[verifier::ext_equal]
pub ghost struct EncryptedKeysetV {
    pub encrypted_keyset: Seq<u8>,
    pub keyset_info: Option<KeysetInfoV>,
}

impl View for EncryptedKeyset {
    type V = EncryptedKeysetV;

    open spec fn view(&self) -> EncryptedKeysetV {
        EncryptedKeysetV {
            encrypted_keyset: self.encrypted_keyset@,
            keyset_info: match self.keyset_info {
                Some(i) => Some(i@),
                None => None,
            },
        }
    }
}

/// An immutable request for key generation: which type, with which
/// serialized format parameters, framed how.
#[derive(Debug, Clone, PartialEq, Eq)]
pub struct KeyTemplate {
    pub type_url: Vec<u8>,
    pub value: Vec<u8>,
    pub output_prefix_type: OutputPrefixType,
}

/// Mathematical model of a `KeyTemplate`.
#[verifier::ext_equal]
pub ghost struct KeyTemplateV {
    pub type_url: Seq<u8>,
    pub value: Seq<u8>,
    pub output_prefix_type: OutputPrefixType,
}

impl View for KeyTemplate {
    type V = KeyTemplateV;

    open spec fn view(&self) -> KeyTemplateV {
        KeyTemplateV {
            type_url: self.type_url@,
            value: self.value@,
            output_prefix_type: self.output_prefix_type,
        }
    }
}

/// Format parameters of an AES-GCM key: the key size in bytes.
#[derive(Debug, Clone, Copy, PartialEq, Eq, Structural)]
pub struct AesGcmKeyFormat {
    pub key_size: u32,
    pub version: u32,
}

/// An AES-GCM key: the raw key bytes and a schema version.
#[derive(Debug, Clone, PartialEq, Eq)]
pub struct AesGcmKey {
    pub version: u32,
    pub key_value: Vec<u8>,
}

/// Mathematical model of an `AesGcmKey`.
#[verifier::ext_equal]
pub ghost struct AesGcmKeyV {
    pub version: u32,
    pub key_value: Seq<u8>,
}

impl View for AesGcmKey {
    type V = AesGcmKeyV;

    open spec fn view(&self) -> AesGcmKeyV {
        AesGcmKeyV { version: self.version, key_value: self.key_value@ }
    }
}

} // verus!
