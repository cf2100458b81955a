//! Keyset containers, the handle that owns a decrypted keyset, the
//! rotation lifecycle, and the envelope (encrypted-at-rest) form.
//!
//! A well-formed keyset has unique key ids and exactly one `Enabled`
//! key whose id is the designated primary; every operation here
//! preserves that invariant.
use vstd::prelude::*;

use crate::aead::rust_crypto_aead::{aead_blob, RustCryptoAead};
use crate::aead::Aead;
use crate::codec::{decode_encrypted_keyset, decode_keyset, encode_keyset, parse_keyset, ser_keyset};
use crate::errors::TinkError;
use crate::protos::{
    EncryptedKeyset, Key, KeyData, KeyInfo, KeyInfoV, KeyMaterialType, KeyStatusType, KeyTemplate,
    KeyV, Keyset, KeysetInfo, KeysetInfoV, KeysetV,
};
use crate::registry::{create_key_data, template_valid};
use crate::wire::copy_bytes;

verus! {

/// Failure to read or parse a keyset container from its wire form.
#[derive(Debug, Clone, Copy, PartialEq, Eq, Structural)]
pub struct ReadError;

/// The capability to read a keyset, plain or enveloped, from wherever
/// it is stored. Implemented by callers; `BinaryKeysetReader` reads
/// from bytes in memory.
pub trait KeysetReader {
    fn read(self) -> Result<Keyset, ReadError>;

    fn read_encrypted(self) -> Result<EncryptedKeyset, ReadError>;
}

/// The capability to write a keyset, plain or enveloped.
pub trait KeysetWriter {
    fn write(&self, keyset: Keyset) -> Result<(), ReadError>;

    fn write_encrypted(&self, keyset: EncryptedKeyset) -> Result<(), ReadError>;
}

/// Reads keysets from their binary wire form held in memory.
pub struct BinaryKeysetReader(pub Vec<u8>);

impl KeysetReader for BinaryKeysetReader {
    fn read(self) -> (r: Result<Keyset, ReadError>)
        ensures
            r matches Ok(ks) ==> parse_keyset(self.0@) == Some(ks@),
            r is Err ==> parse_keyset(self.0@) is None,
    {
        match decode_keyset(self.0.as_slice()) {
            Ok(ks) => Ok(ks),
            Err(_) => Err(ReadError),
        }
    }

    fn read_encrypted(self) -> (r: Result<EncryptedKeyset, ReadError>)
        ensures
            r matches Ok(e) ==> crate::codec::parse_encrypted_keyset(self.0@) == Some(e@),
            r is Err ==> crate::codec::parse_encrypted_keyset(self.0@) is None,
    {
        match decode_encrypted_keyset(self.0.as_slice()) {
            Ok(e) => Ok(e),
            Err(_) => Err(ReadError),
        }
    }
}

/// Key ids are unique within a keyset.
pub open spec fn key_ids_unique(keys: Seq<KeyV>) -> bool {
    forall|i: int, j: int|
        0 <= i < j < keys.len() ==> #[trigger] keys[i].key_id != #[trigger] keys[j].key_id
}

/// A key that is `Enabled` under the given primary id.
pub open spec fn is_enabled_primary(k: KeyV, p: u32) -> bool {
    k.status == KeyStatusType::Enabled && k.key_id == p
}

/// The keyset invariant: unique ids, and an `Enabled` key carries the
/// primary id. With unique ids that key is the only one.
pub open spec fn keyset_wf(ks: KeysetV) -> bool {
    &&& key_ids_unique(ks.key)
    &&& exists|i: int|
        0 <= i < ks.key.len() && is_enabled_primary(#[trigger] ks.key[i], ks.primary_key_id)
}

/// How many keys are `Enabled` under the given primary id.
pub open spec fn count_enabled_primary(keys: Seq<KeyV>, p: u32) -> nat
    decreases keys.len(),
{
    if keys.len() == 0 {
        0
    } else {
        (if is_enabled_primary(keys[0], p) {
            1nat
        } else {
            0nat
        }) + count_enabled_primary(keys.drop_first(), p)
    }
}

proof fn lemma_count_enabled_primary_zero(keys: Seq<KeyV>, p: u32)
    requires
        forall|i: int| 0 <= i < keys.len() ==> !is_enabled_primary(#[trigger] keys[i], p),
    ensures
        count_enabled_primary(keys, p) == 0,
    decreases keys.len(),
{
    if keys.len() > 0 {
        assert(forall|i: int|
            0 <= i < keys.drop_first().len() ==> keys.drop_first()[i] == keys[i + 1]);
        lemma_count_enabled_primary_zero(keys.drop_first(), p);
    }
}

proof fn lemma_count_enabled_primary_one(keys: Seq<KeyV>, p: u32, w: int)
    requires
        key_ids_unique(keys),
        0 <= w < keys.len(),
        is_enabled_primary(keys[w], p),
    ensures
        count_enabled_primary(keys, p) == 1,
    decreases keys.len(),
{
    let rest = keys.drop_first();
    assert(forall|i: int| 0 <= i < rest.len() ==> rest[i] == keys[i + 1]);
    if w == 0 {
        assert forall|i: int| 0 <= i < rest.len() implies !is_enabled_primary(
            #[trigger] rest[i],
            p,
        ) by {
            assert(keys[0].key_id != keys[i + 1].key_id);
        }
        lemma_count_enabled_primary_zero(rest, p);
    } else {
        assert(keys[0].key_id != keys[w].key_id);
        assert(!is_enabled_primary(keys[0], p));
        lemma_count_enabled_primary_one(rest, p, w - 1);
    }
}

/// A well-formed keyset holds exactly one `Enabled` key whose id is
/// the primary id.
pub proof fn lemma_exactly_one_enabled_primary(ks: KeysetV)
    requires
        keyset_wf(ks),
    ensures
        count_enabled_primary(ks.key, ks.primary_key_id) == 1,
{
    let w = choose|i: int|
        0 <= i < ks.key.len() && is_enabled_primary(#[trigger] ks.key[i], ks.primary_key_id);
    lemma_count_enabled_primary_one(ks.key, ks.primary_key_id, w);
}

/// Secret key material: symmetric or private asymmetric.
pub open spec fn is_secret_material(t: KeyMaterialType) -> bool {
    t == KeyMaterialType::Symmetric || t == KeyMaterialType::AsymmetricPrivate
}

/// A key carrying live secret material.
pub open spec fn key_has_secret(k: KeyV) -> bool {
    match k.key_data {
        Some(kd) => is_secret_material(kd.key_material_type) && kd.value.len() > 0,
        None => false,
    }
}

/// A keyset carrying live secret material anywhere.
pub open spec fn has_secret_key_material(ks: KeysetV) -> bool {
    exists|i: int| 0 <= i < ks.key.len() && key_has_secret(#[trigger] ks.key[i])
}

impl Keyset {
    /// Fails with `DecryptionError` exactly when some key carries live
    /// secret material; the only check on the cleartext reading path.
    pub fn assert_no_secret_key_material(&self) -> (r: Result<(), TinkError>)
        ensures
            r is Ok <==> !has_secret_key_material(self@),
            r matches Err(e) ==> e == TinkError::DecryptionError,
    {
        let n: usize = self.key.len();
        let mut i: usize = 0;
        while i < n
            invariant
                i <= n,
                n == self.key@.len(),
                forall|m: int| 0 <= m < i ==> !key_has_secret(#[trigger] self@.key[m]),
            decreases n - i,
        {
            let k = &self.key[i];
            match &k.key_data {
                Some(kd) => {
                    let secret = match kd.key_material_type {
                        KeyMaterialType::Symmetric => true,
                        KeyMaterialType::AsymmetricPrivate => true,
                        _ => false,
                    };
                    if secret && kd.value.len() > 0 {
                        assert(key_has_secret(self@.key[i as int]));
                        return Err(TinkError::DecryptionError);
                    }
                },
                None => {},
            }
            assert(!key_has_secret(self@.key[i as int]));
            i = i + 1;
        }
        Ok(())
    }
}

/// Checks the keyset invariant: fails with `ValidationError` exactly
/// when ids repeat or no `Enabled` key carries the primary id.
pub fn validate_keyset(ks: &Keyset) -> (r: Result<(), TinkError>)
    ensures
        r is Ok <==> keyset_wf(ks@),
        r matches Err(e) ==> e == TinkError::ValidationError,
{
    let n: usize = ks.key.len();
    let mut i: usize = 0;
    while i < n
        invariant
            i <= n,
            n == ks.key@.len(),
            forall|a: int, b: int|
                0 <= a < b < n && a < i ==> #[trigger] ks@.key[a].key_id != #[trigger] ks@.key[b].key_id,
        decreases n - i,
    {
        let mut j: usize = i + 1;
        while j < n
            invariant
                i < j <= n,
                i < n,
                n == ks.key@.len(),
                forall|b: int| i < b < j ==> ks@.key[i as int].key_id != #[trigger] ks@.key[b].key_id,
            decreases n - j,
        {
            if ks.key[i].key_id == ks.key[j].key_id {
                assert(ks@.key[i as int].key_id == ks@.key[j as int].key_id);
                assert(!key_ids_unique(ks@.key));
                return Err(TinkError::ValidationError);
            }
            j = j + 1;
        }
        i = i + 1;
    }
    let mut found = false;
    let mut m: usize = 0;
    while m < n
        invariant
            m <= n,
            n == ks.key@.len(),
            found <==> exists|w: int|
                0 <= w < m && is_enabled_primary(#[trigger] ks@.key[w], ks@.primary_key_id),
        decreases n - m,
    {
        let k = &ks.key[m];
        let enabled = match k.status {
            KeyStatusType::Enabled => true,
            _ => false,
        };
        if enabled && k.key_id == ks.primary_key_id {
            assert(is_enabled_primary(ks@.key[m as int], ks@.primary_key_id));
            found = true;
        }
        m = m + 1;
    }
    if found {
        Ok(())
    } else {
        Err(TinkError::ValidationError)
    }
}

/// Copies a `KeyData`.
fn copy_key_data(kd: &KeyData) -> (r: KeyData)
    ensures
        r@ == kd@,
{
    KeyData {
        type_url: copy_bytes(&kd.type_url),
        value: copy_bytes(&kd.value),
        key_material_type: kd.key_material_type,
    }
}

/// Copies a `Key`.
fn copy_key(k: &Key) -> (r: Key)
    ensures
        r@ == k@,
{
    Key {
        key_data: match &k.key_data {
            Some(kd) => Some(copy_key_data(kd)),
            None => None,
        },
        status: k.status,
        key_id: k.key_id,
        output_prefix_type: k.output_prefix_type,
    }
}

/// The smallest id above every id in use; fails only where an id has
/// reached the maximum.
fn next_key_id(keys: &Vec<Key>) -> (r: Result<u32, TinkError>)
    ensures
        r matches Ok(id) ==> id >= 1 && forall|i: int|
            0 <= i < keys@.len() ==> (#[trigger] keys@[i]@.key_id) < id,
        r is Ok <==> forall|i: int| 0 <= i < keys@.len() ==> (#[trigger] keys@[i]@.key_id) < u32::MAX,
        r matches Err(e) ==> e == TinkError::ValidationError,
{
    let n: usize = keys.len();
    let mut top: u32 = 0;
    let mut i: usize = 0;
    while i < n
        invariant
            i <= n,
            n == keys@.len(),
            forall|m: int| 0 <= m < i ==> (#[trigger] keys@[m]@.key_id) <= top,
            top == 0 || exists|m: int| 0 <= m < i && (#[trigger] keys@[m]@.key_id) == top,
        decreases n - i,
    {
        if keys[i].key_id > top {
            top = keys[i].key_id;
            assert(keys@[i as int]@.key_id == top);
        }
        i = i + 1;
    }
    if top == u32::MAX {
        return Err(TinkError::ValidationError);
    }
    Ok(top + 1)
}

/// A destroyed key's data: the metadata stub with the material
/// cleared.
pub open spec fn clear_key_data(kd: Option<crate::protos::KeyDataV>) -> Option<
    crate::protos::KeyDataV,
> {
    match kd {
        Some(d) => Some(
            crate::protos::KeyDataV {
                type_url: d.type_url,
                value: Seq::<u8>::empty(),
                key_material_type: d.key_material_type,
            },
        ),
        None => None,
    }
}

/// The redacted projection of one key: its metadata, never its
/// material.
pub open spec fn redact_key(k: KeyV) -> KeyInfoV {
    KeyInfoV {
        type_url: match k.key_data {
            Some(kd) => kd.type_url,
            None => Seq::<u8>::empty(),
        },
        status: k.status,
        key_id: k.key_id,
        output_prefix_type: k.output_prefix_type,
    }
}

/// The redacted projection of a keyset, safe for logging: derivable
/// from the keyset, never the reverse.
pub open spec fn redact_keyset(ks: KeysetV) -> KeysetInfoV {
    KeysetInfoV {
        primary_key_id: ks.primary_key_id,
        key_info: ks.key.map_values(|k: KeyV| redact_key(k)),
    }
}

/// The one way application code touches a keyset: owns the decrypted
/// keyset, exposes only a redacted view of it, and never hands out
/// secret key material.
pub struct KeysetHandle {
    keyset: Keyset,
}

impl View for KeysetHandle {
    type V = KeysetV;

    closed spec fn view(&self) -> KeysetV {
        self.keyset@
    }
}

impl KeysetHandle {
    /// The handle invariant: the owned keyset is well-formed.
    pub open spec fn wf(&self) -> bool {
        keyset_wf(self@)
    }

    /// The keys of the owned keyset, for the dispatch layer; the key
    /// material inside stays behind the registry.
    pub fn keys(&self) -> (r: &Vec<Key>)
        ensures
            r@.map_values(|k: Key| k@) == self@.key,
    {
        &self.keyset.key
    }

    /// The id of the primary key.
    pub fn primary_id(&self) -> (r: u32)
        ensures
            r == self@.primary_key_id,
    {
        self.keyset.primary_key_id
    }

    /// Wraps a keyset after checking the invariant; succeeds on
    /// exactly the well-formed keysets.
    pub fn from_keyset(keyset: Keyset) -> (r: Result<KeysetHandle, TinkError>)
        ensures
            r is Ok <==> keyset_wf(keyset@),
            r matches Ok(h) ==> h@ == keyset@ && h.wf(),
            r matches Err(e) ==> e == TinkError::ValidationError,
    {
        match validate_keyset(&keyset) {
            Ok(()) => Ok(KeysetHandle { keyset }),
            Err(e) => Err(e),
        }
    }

    /// Reads a cleartext keyset, which must carry no secret material:
    /// the only path for keysets that travel through untrusted
    /// channels.
    pub fn new_no_secrets<T: KeysetReader>(reader: T) -> (r: Result<KeysetHandle, TinkError>)
        ensures
            r matches Ok(h) ==> h.wf() && !has_secret_key_material(h@),
            r matches Err(e) ==> (e == TinkError::KeysetReadError(ReadError) || e
                == TinkError::DecryptionError || e == TinkError::ValidationError),
    {
        let keyset = match reader.read() {
            Ok(ks) => ks,
            Err(e) => {
                return Err(TinkError::KeysetReadError(e));
            },
        };
        if let Err(e) = keyset.assert_no_secret_key_material() {
            return Err(e);
        }
        KeysetHandle::from_keyset(keyset)
    }

    /// Reads an enveloped keyset and decrypts it under the caller's
    /// master-key AEAD. A failure is reported only as a failed read,
    /// a failed decryption, or an invalid keyset; which of wrong key,
    /// corrupted ciphertext or wrong associated data broke the
    /// decryption is not distinguished.
    pub fn new<T: KeysetReader, A: Aead>(reader: T, master_key: A) -> (r: Result<
        KeysetHandle,
        TinkError,
    >)
        ensures
            r matches Ok(h) ==> h.wf(),
            r matches Err(e) ==> (e == TinkError::KeysetReadError(ReadError) || e
                == TinkError::DecryptionError || e == TinkError::ValidationError),
    {
        let encrypted_keyset = match reader.read_encrypted() {
            Ok(e) => e,
            Err(e) => {
                return Err(TinkError::KeysetReadError(e));
            },
        };
        let keyset = match KeysetHandle::decrypt(encrypted_keyset, &master_key) {
            Ok(ks) => ks,
            Err(e) => {
                return Err(e);
            },
        };
        KeysetHandle::from_keyset(keyset)
    }

    /// Decrypts the envelope ciphertext and parses the plaintext as a
    /// keyset. Nothing is assumed of the caller's AEAD implementation,
    /// so all that is owed is the error mapping: a refused decryption
    /// surfaces as `DecryptionError`, whatever its cause, and a
    /// plaintext that is no keyset as `KeysetReadError`.
    fn decrypt<A: Aead>(encrypted_keyset: EncryptedKeyset, master_key: &A) -> (r: Result<
        Keyset,
        TinkError,
    >)
        ensures
            r matches Err(e) ==> (e == TinkError::DecryptionError || e
                == TinkError::KeysetReadError(ReadError)),
    {
        let plaintext = match master_key.decrypt(
            encrypted_keyset.encrypted_keyset.as_slice(),
            Vec::new().as_slice(),
        ) {
            Ok(p) => p,
            Err(_) => {
                return Err(TinkError::DecryptionError);
            },
        };
        match decode_keyset(plaintext.bytes()) {
            Ok(ks) => Ok(ks),
            Err(_) => Err(TinkError::KeysetReadError(ReadError)),
        }
    }

    /// Reads an envelope under the library's own AES-GCM master key.
    /// Exactly the envelopes sealed under this key open; the keyset
    /// read back is the keyset that was sealed.
    pub fn from_encrypted(encrypted_keyset: &EncryptedKeyset, master_key: &RustCryptoAead) -> (r:
        Result<KeysetHandle, TinkError>)
        requires
            master_key.wf(),
        ensures
            r matches Ok(h) ==> h.wf(),
            forall|nonce: Seq<u8>, pt: Seq<u8>|
                #![auto]
                nonce.len() == 12 && encrypted_keyset@.encrypted_keyset == aead_blob(
                    master_key@,
                    nonce,
                    Seq::<u8>::empty(),
                    pt,
                ) ==> match parse_keyset(pt) {
                    Some(kv) => if keyset_wf(kv) {
                        r matches Ok(h) && h@ == kv
                    } else {
                        r == Err::<KeysetHandle, TinkError>(TinkError::ValidationError)
                    },
                    None => r == Err::<KeysetHandle, TinkError>(
                        TinkError::KeysetReadError(ReadError),
                    ),
                },
            r == Err::<KeysetHandle, TinkError>(TinkError::DecryptionError)
                <==> !exists|nonce: Seq<u8>, pt: Seq<u8>|
                #![auto]
                nonce.len() == 12 && encrypted_keyset@.encrypted_keyset == aead_blob(
                    master_key@,
                    nonce,
                    Seq::<u8>::empty(),
                    pt,
                ),
    {
        let aad: Vec<u8> = Vec::new();
        let plaintext = match master_key.open(
            encrypted_keyset.encrypted_keyset.as_slice(),
            aad.as_slice(),
        ) {
            Ok(p) => p,
            Err(_) => {
                return Err(TinkError::DecryptionError);
            },
        };
        proof {
            let s = encrypted_keyset@.encrypted_keyset;
            assert(s == aead_blob(
                master_key@,
                s.subrange(0, 12),
                Seq::<u8>::empty(),
                plaintext@,
            ));
        }
        let keyset = match decode_keyset(plaintext.bytes()) {
            Ok(ks) => ks,
            Err(_) => {
                return Err(TinkError::KeysetReadError(ReadError));
            },
        };
        KeysetHandle::from_keyset(keyset)
    }

    /// Seals the keyset under the library's own AES-GCM master key,
    /// attaching the redacted projection for auditability.
    pub fn encrypted_keyset(&self, master_key: &RustCryptoAead) -> (r: EncryptedKeyset)
        requires
            master_key.wf(),
        ensures
            exists|nonce: Seq<u8>|
                #![auto]
                nonce.len() == 12 && r@.encrypted_keyset == aead_blob(
                    master_key@,
                    nonce,
                    Seq::<u8>::empty(),
                    ser_keyset(self@),
                ),
            r@.keyset_info == Some(redact_keyset(self@)),
    {
        let plaintext = encode_keyset(&self.keyset);
        let aad: Vec<u8> = Vec::new();
        let ct = master_key.seal(plaintext.as_slice(), aad.as_slice());
        EncryptedKeyset { encrypted_keyset: ct.0, keyset_info: Some(self.keyset_info()) }
    }

    /// The envelope laws composed: sealing a keyset and opening the
    /// envelope under the same master key always succeeds and gives
    /// the keyset back. The body is the proof; the contract promises
    /// success unconditionally.
    pub fn envelope_round_trip(&self, master_key: &RustCryptoAead) -> (r: Result<
        KeysetHandle,
        TinkError,
    >)
        requires
            self.wf(),
            master_key.wf(),
            crate::codec::keyset_bounded(self@),
        ensures
            r matches Ok(h) && h@ == self@,
    {
        let enc = self.encrypted_keyset(master_key);
        proof {
            crate::codec::lemma_keyset_round_trip(self@);
        }
        KeysetHandle::from_encrypted(&enc, master_key)
    }

    /// The redacted projection of the owned keyset, safe for logging:
    /// it cannot carry key material.
    pub fn keyset_info(&self) -> (r: KeysetInfo)
        ensures
            r@ == redact_keyset(self@),
    {
        let n: usize = self.keyset.key.len();
        let mut key_info: Vec<KeyInfo> = Vec::new();
        let mut i: usize = 0;
        while i < n
            invariant
                i <= n,
                n == self.keyset.key@.len(),
                key_info@.len() == i,
                forall|m: int| 0 <= m < i ==> #[trigger] key_info@[m]@ == redact_key(self@.key[m]),
            decreases n - i,
        {
            let k = &self.keyset.key[i];
            let type_url = match &k.key_data {
                Some(kd) => copy_bytes(&kd.type_url),
                None => Vec::new(),
            };
            key_info.push(
                KeyInfo {
                    type_url: type_url,
                    status: k.status,
                    key_id: k.key_id,
                    output_prefix_type: k.output_prefix_type,
                },
            );
            i = i + 1;
        }
        let r = KeysetInfo { primary_key_id: self.keyset.primary_key_id, key_info: key_info };
        proof {
            assert(r@.key_info =~= redact_keyset(self@).key_info);
            assert(r@ =~= redact_keyset(self@));
        }
        r
    }

    /// Generates a fresh keyset holding one key from the template,
    /// enabled and primary. Succeeds on exactly the valid templates.
    pub fn generate_new(template: &KeyTemplate) -> (r: Result<KeysetHandle, TinkError>)
        ensures
            r is Ok <==> template_valid(template@),
            r matches Ok(h) ==> {
                &&& h.wf()
                &&& h@.key.len() == 1
                &&& h@.primary_key_id == h@.key[0].key_id
                &&& h@.key[0].status == KeyStatusType::Enabled
                &&& h@.key[0].output_prefix_type == template@.output_prefix_type
                &&& match h@.key[0].key_data {
                    Some(kd) => kd.type_url == template@.type_url
                        && crate::registry::key_data_valid(kd),
                    None => false,
                }
            },
    {
        let key_data = match create_key_data(template) {
            Ok(kd) => kd,
            Err(e) => {
                return Err(e);
            },
        };
        let key = Key {
            key_data: Some(key_data),
            status: KeyStatusType::Enabled,
            key_id: 1,
            output_prefix_type: template.output_prefix_type,
        };
        let mut keys: Vec<Key> = Vec::new();
        keys.push(key);
        let keyset = Keyset { primary_key_id: 1, key: keys };
        assert(is_enabled_primary(keyset@.key[0], 1));
        Ok(KeysetHandle { keyset })
    }

    /// Appends a fresh key from the template under an unused id,
    /// enabled; `primary` says whether it also becomes the primary.
    /// The previous keys are untouched: the previous primary stays
    /// enabled until the caller disables it.
    fn add_from_template(&self, template: &KeyTemplate, primary: bool) -> (r: Result<
        KeysetHandle,
        TinkError,
    >)
        requires
            self.wf(),
        ensures
            r is Ok <==> template_valid(template@) && (forall|i: int|
                0 <= i < self@.key.len() ==> (#[trigger] self@.key[i].key_id) < u32::MAX),
            r matches Ok(h) ==> {
                &&& h.wf()
                &&& h@.key.len() == self@.key.len() + 1
                &&& forall|i: int| 0 <= i < self@.key.len() ==> h@.key[i] == self@.key[i]
                &&& h@.primary_key_id == (if primary {
                    h@.key[self@.key.len() as int].key_id
                } else {
                    self@.primary_key_id
                })
                &&& h@.key[self@.key.len() as int].status == KeyStatusType::Enabled
                &&& h@.key[self@.key.len() as int].output_prefix_type
                    == template@.output_prefix_type
                &&& (forall|i: int|
                    0 <= i < self@.key.len() ==> (#[trigger] self@.key[i].key_id) != h@.key[self@.key.len() as int].key_id)
                &&& match h@.key[self@.key.len() as int].key_data {
                    Some(kd) => kd.type_url == template@.type_url
                        && crate::registry::key_data_valid(kd),
                    None => false,
                }
            },
            r matches Err(e) ==> (e == TinkError::UnknownKeyType || e == TinkError::ProtobufError
                || e == TinkError::ValidationError),
    {
        proof {
            assert forall|i: int| 0 <= i < self@.key.len() implies self@.key[i]
                == #[trigger] self.keyset.key@[i]@ by {}
        }
        let key_data = match create_key_data(template) {
            Ok(kd) => kd,
            Err(e) => {
                return Err(e);
            },
        };
        let id = match next_key_id(&self.keyset.key) {
            Ok(id) => id,
            Err(e) => {
                return Err(e);
            },
        };
        let n: usize = self.keyset.key.len();
        let mut keys: Vec<Key> = Vec::new();
        let mut i: usize = 0;
        while i < n
            invariant
                i <= n,
                n == self.keyset.key@.len(),
                keys@.len() == i,
                forall|m: int| 0 <= m < i ==> #[trigger] keys@[m]@ == self@.key[m],
            decreases n - i,
        {
            keys.push(copy_key(&self.keyset.key[i]));
            i = i + 1;
        }
        let key = Key {
            key_data: Some(key_data),
            status: KeyStatusType::Enabled,
            key_id: id,
            output_prefix_type: template.output_prefix_type,
        };
        keys.push(key);
        let primary_key_id = if primary {
            id
        } else {
            self.keyset.primary_key_id
        };
        let keyset = Keyset { primary_key_id: primary_key_id, key: keys };
        proof {
            let kv = keyset@;
            let old_n = self@.key.len() as int;
            assert(kv.key.len() == old_n + 1);
            assert(forall|m: int| 0 <= m < old_n ==> #[trigger] kv.key[m] == self@.key[m]);
            assert(key_ids_unique(kv.key));
            if primary {
                assert(is_enabled_primary(kv.key[old_n], kv.primary_key_id));
            } else {
                let w = choose|i: int|
                    0 <= i < self@.key.len() && is_enabled_primary(
                        #[trigger] self@.key[i],
                        self@.primary_key_id,
                    );
                assert(is_enabled_primary(kv.key[w], kv.primary_key_id));
            }
        }
        Ok(KeysetHandle { keyset })
    }

    /// Rotates: appends a fresh key from the template and makes it the
    /// primary. The previous primary stays enabled for decryption
    /// until the caller disables it.
    pub fn rotate(&self, template: &KeyTemplate) -> (r: Result<KeysetHandle, TinkError>)
        requires
            self.wf(),
        ensures
            r is Ok <==> template_valid(template@) && (forall|i: int|
                0 <= i < self@.key.len() ==> (#[trigger] self@.key[i].key_id) < u32::MAX),
            r matches Ok(h) ==> {
                &&& h.wf()
                &&& h@.key.len() == self@.key.len() + 1
                &&& forall|i: int| 0 <= i < self@.key.len() ==> h@.key[i] == self@.key[i]
                &&& h@.primary_key_id == h@.key[self@.key.len() as int].key_id
                &&& h@.key[self@.key.len() as int].status == KeyStatusType::Enabled
                &&& h@.key[self@.key.len() as int].output_prefix_type
                    == template@.output_prefix_type
                &&& match h@.key[self@.key.len() as int].key_data {
                    Some(kd) => kd.type_url == template@.type_url
                        && crate::registry::key_data_valid(kd),
                    None => false,
                }
            },
    {
        self.add_from_template(template, true)
    }

    /// Disables the key with `key_id`, leaving it usable for
    /// decryption only. The primary cannot be disabled; a key already
    /// destroyed cannot come back.
    pub fn disable_key(&self, key_id: u32) -> (r: Result<KeysetHandle, TinkError>)
        requires
            self.wf(),
        ensures
            r is Ok <==> (key_id != self@.primary_key_id && exists|i: int|
                #![auto]
                0 <= i < self@.key.len() && self@.key[i].key_id == key_id && (self@.key[i].status
                    == KeyStatusType::Enabled || self@.key[i].status == KeyStatusType::Disabled)),
            r matches Ok(h) ==> {
                &&& h.wf()
                &&& h@.primary_key_id == self@.primary_key_id
                &&& h@.key.len() == self@.key.len()
                &&& forall|i: int|
                    0 <= i < self@.key.len() && (#[trigger] self@.key[i]).key_id != key_id
                        ==> h@.key[i] == self@.key[i]
                &&& forall|i: int|
                    0 <= i < self@.key.len() && (#[trigger] self@.key[i]).key_id == key_id
                        ==> h@.key[i] == (KeyV {
                        status: KeyStatusType::Disabled,
                        ..self@.key[i]
                    })
            },
            r matches Err(e) ==> (e == TinkError::ValidationError || e == TinkError::KeyNotFound),
            key_id != self@.primary_key_id && !(exists|i: int|
                0 <= i < self@.key.len() && (#[trigger] self@.key[i]).key_id == key_id) ==> r
                == Err::<KeysetHandle, TinkError>(TinkError::KeyNotFound),
    {
        self.set_key_status(key_id, false)
    }

    /// Destroys the key with `key_id`: the stub keeps its id and
    /// metadata so old ciphertexts fail predictably, but the key
    /// material is cleared. The primary cannot be destroyed.
    pub fn destroy_key(&self, key_id: u32) -> (r: Result<KeysetHandle, TinkError>)
        requires
            self.wf(),
        ensures
            r is Ok <==> (key_id != self@.primary_key_id && exists|i: int|
                #![auto]
                0 <= i < self@.key.len() && self@.key[i].key_id == key_id && (self@.key[i].status
                    == KeyStatusType::Enabled || self@.key[i].status == KeyStatusType::Disabled)),
            r matches Ok(h) ==> {
                &&& h.wf()
                &&& h@.primary_key_id == self@.primary_key_id
                &&& h@.key.len() == self@.key.len()
                &&& forall|i: int|
                    0 <= i < self@.key.len() && (#[trigger] self@.key[i]).key_id != key_id
                        ==> h@.key[i] == self@.key[i]
                &&& forall|i: int|
                    0 <= i < self@.key.len() && (#[trigger] self@.key[i]).key_id == key_id
                        ==> h@.key[i] == (KeyV {
                        status: KeyStatusType::Destroyed,
                        key_data: clear_key_data(self@.key[i].key_data),
                        ..self@.key[i]
                    })
            },
            r matches Err(e) ==> (e == TinkError::ValidationError || e == TinkError::KeyNotFound),
            key_id != self@.primary_key_id && !(exists|i: int|
                0 <= i < self@.key.len() && (#[trigger] self@.key[i]).key_id == key_id) ==> r
                == Err::<KeysetHandle, TinkError>(TinkError::KeyNotFound),
    {
        self.set_key_status(key_id, true)
    }

    /// The shared walk of `disable_key` and `destroy_key`: find the
    /// key, check the transition is allowed, and rebuild the keyset
    /// with the one key changed.
    fn set_key_status(&self, key_id: u32, destroy: bool) -> (r: Result<KeysetHandle, TinkError>)
        requires
            self.wf(),
        ensures
            r is Ok <==> (key_id != self@.primary_key_id && exists|i: int|
                #![auto]
                0 <= i < self@.key.len() && self@.key[i].key_id == key_id && (self@.key[i].status
                    == KeyStatusType::Enabled || self@.key[i].status == KeyStatusType::Disabled)),
            r matches Ok(h) ==> {
                &&& h.wf()
                &&& h@.primary_key_id == self@.primary_key_id
                &&& h@.key.len() == self@.key.len()
                &&& forall|i: int|
                    0 <= i < self@.key.len() && (#[trigger] self@.key[i]).key_id != key_id
                        ==> h@.key[i] == self@.key[i]
                &&& forall|i: int|
                    0 <= i < self@.key.len() && (#[trigger] self@.key[i]).key_id == key_id
                        ==> h@.key[i] == (if destroy {
                        KeyV {
                            status: KeyStatusType::Destroyed,
                            key_data: clear_key_data(self@.key[i].key_data),
                            ..self@.key[i]
                        }
                    } else {
                        KeyV { status: KeyStatusType::Disabled, ..self@.key[i] }
                    })
            },
            r matches Err(e) ==> (e == TinkError::ValidationError || e == TinkError::KeyNotFound),
            key_id != self@.primary_key_id && !(exists|i: int|
                0 <= i < self@.key.len() && (#[trigger] self@.key[i]).key_id == key_id) ==> r
                == Err::<KeysetHandle, TinkError>(TinkError::KeyNotFound),
    {
        proof {
            assert forall|i: int| 0 <= i < self@.key.len() implies self@.key[i]
                == #[trigger] self.keyset.key@[i]@ by {}
        }
        if key_id == self.keyset.primary_key_id {
            return Err(TinkError::ValidationError);
        }
        let n: usize = self.keyset.key.len();
        let mut idx: usize = 0;
        let mut found = false;
        let mut i: usize = 0;
        while i < n
            invariant
                i <= n,
                n == self.keyset.key@.len(),
                !found ==> forall|m: int|
                    0 <= m < i ==> (#[trigger] self@.key[m]).key_id != key_id,
                found ==> idx < i && self@.key[idx as int].key_id == key_id,
            decreases n - i,
        {
            if !found && self.keyset.key[i].key_id == key_id {
                idx = i;
                found = true;
            }
            i = i + 1;
        }
        if !found {
            return Err(TinkError::KeyNotFound);
        }
        let target = &self.keyset.key[idx];
        let eligible = match target.status {
            KeyStatusType::Enabled => true,
            KeyStatusType::Disabled => true,
            _ => false,
        };
        if !eligible {
            proof {
                assert forall|i2: int|
                    0 <= i2 < self@.key.len() && self@.key[i2].key_id == key_id implies !(
                self@.key[i2].status == KeyStatusType::Enabled || self@.key[i2].status
                    == KeyStatusType::Disabled) by {
                    if i2 != idx as int {
                        assert(self@.key[i2].key_id != self@.key[idx as int].key_id);
                    }
                }
            }
            return Err(TinkError::ValidationError);
        }
        let mut keys: Vec<Key> = Vec::new();
        let mut m: usize = 0;
        while m < n
            invariant
                m <= n,
                n == self.keyset.key@.len(),
                idx < n,
                keys@.len() == m,
                self@.key[idx as int].key_id == key_id,
                forall|q: int|
                    0 <= q < m && q != idx ==> #[trigger] keys@[q]@ == self@.key[q],
                forall|q: int|
                    0 <= q < m && q == idx ==> #[trigger] keys@[q]@ == (if destroy {
                        KeyV {
                            status: KeyStatusType::Destroyed,
                            key_data: clear_key_data(self@.key[q].key_data),
                            ..self@.key[q]
                        }
                    } else {
                        KeyV { status: KeyStatusType::Disabled, ..self@.key[q] }
                    }),
            decreases n - m,
        {
            let k = &self.keyset.key[m];
            if m == idx {
                let new_key_data: Option<KeyData> = if destroy {
                    match &k.key_data {
                        Some(kd) => Some(
                            KeyData {
                                type_url: copy_bytes(&kd.type_url),
                                value: Vec::new(),
                                key_material_type: kd.key_material_type,
                            },
                        ),
                        None => None,
                    }
                } else {
                    match &k.key_data {
                        Some(kd) => Some(copy_key_data(kd)),
                        None => None,
                    }
                };
                keys.push(
                    Key {
                        key_data: new_key_data,
                        status: if destroy {
                            KeyStatusType::Destroyed
                        } else {
                            KeyStatusType::Disabled
                        },
                        key_id: k.key_id,
                        output_prefix_type: k.output_prefix_type,
                    },
                );
            } else {
                keys.push(copy_key(k));
            }
            m = m + 1;
        }
        let keyset = Keyset { primary_key_id: self.keyset.primary_key_id, key: keys };
        proof {
            let kv = keyset@;
            assert(kv.key.len() == self@.key.len());
            assert(forall|q: int|
                0 <= q < kv.key.len() ==> (#[trigger] kv.key[q]).key_id == self@.key[q].key_id);
            assert(key_ids_unique(kv.key));
            let w = choose|i2: int|
                0 <= i2 < self@.key.len() && is_enabled_primary(
                    #[trigger] self@.key[i2],
                    self@.primary_key_id,
                );
            assert(w != idx as int);
            assert(kv.key[w] == self@.key[w]);
            assert(is_enabled_primary(kv.key[w], kv.primary_key_id));
            assert forall|i2: int|
                0 <= i2 < self@.key.len() && (#[trigger] self@.key[i2]).key_id
                    == key_id implies i2 == idx as int by {
                if i2 != idx as int {
                    assert(self@.key[i2].key_id != self@.key[idx as int].key_id);
                }
            }
        }
        Ok(KeysetHandle { keyset })
    }

    /// Appends a fresh enabled key from the template without changing
    /// the primary.
    pub fn add_key(&self, template: &KeyTemplate) -> (r: Result<KeysetHandle, TinkError>)
        requires
            self.wf(),
        ensures
            r is Ok <==> template_valid(template@) && (forall|i: int|
                0 <= i < self@.key.len() ==> (#[trigger] self@.key[i].key_id) < u32::MAX),
            r matches Ok(h) ==> {
                &&& h.wf()
                &&& h@.key.len() == self@.key.len() + 1
                &&& forall|i: int| 0 <= i < self@.key.len() ==> h@.key[i] == self@.key[i]
                &&& h@.primary_key_id == self@.primary_key_id
                &&& h@.key[self@.key.len() as int].status == KeyStatusType::Enabled
            },
    {
        self.add_from_template(template, false)
    }
}

} // verus!
