//! The primitive set: every usable key of a keyset bound to a concrete
//! AEAD primitive and its framing prefix, with rotation-aware
//! encrypt-with-primary and decrypt-by-trying-candidates dispatch.
use vstd::prelude::*;

use crate::aead::rust_crypto_aead::{aead_blob, RustCryptoAead};
use crate::aead::{AeadCiphertext, AeadPlaintext, AeadResult};
use crate::codec::parse_aes_gcm_key;
use crate::errors::TinkError;
use crate::keysets::KeysetHandle;
use crate::protos::{KeyStatusType, KeyV, OutputPrefixType};
use crate::registry::{aead_from_key_data, key_data_valid};
use crate::wire::{bytes_eq, copy_bytes, push_bytes};

verus! {

/// The big-endian bytes of a key id.
pub open spec fn be32(x: u32) -> Seq<u8> {
    seq![
        (x / 0x100_0000) as u8,
        ((x / 0x1_0000) % 0x100) as u8,
        ((x / 0x100) % 0x100) as u8,
        (x % 0x100) as u8,
    ]
}

/// The key id a five-byte prefix carries.
pub open spec fn be32_val(b: Seq<u8>) -> nat {
    b[0] as nat * 0x100_0000 + b[1] as nat * 0x1_0000 + b[2] as nat * 0x100 + b[3] as nat
}

/// The framing prefix a key prepends to its ciphertexts: one version
/// byte and the big-endian key id, or nothing for `Raw`.
pub open spec fn prefix_of(t: OutputPrefixType, key_id: u32) -> Seq<u8> {
    match t {
        OutputPrefixType::Tink => seq![1u8] + be32(key_id),
        OutputPrefixType::Legacy => seq![0u8] + be32(key_id),
        OutputPrefixType::Crunchy => seq![0u8] + be32(key_id),
        OutputPrefixType::Raw => seq![],
        OutputPrefixType::UnknownPrefix => seq![],
    }
}

/// Builds the framing prefix of a key.
pub fn prefix_bytes(t: OutputPrefixType, key_id: u32) -> (r: Vec<u8>)
    ensures
        r@ == prefix_of(t, key_id),
{
    let mut out: Vec<u8> = Vec::new();
    match t {
        OutputPrefixType::Tink => {
            out.push(1);
        },
        OutputPrefixType::Legacy => {
            out.push(0);
        },
        OutputPrefixType::Crunchy => {
            out.push(0);
        },
        OutputPrefixType::Raw => {
            assert(out@ =~= prefix_of(t, key_id));
            return out;
        },
        OutputPrefixType::UnknownPrefix => {
            assert(out@ =~= prefix_of(t, key_id));
            return out;
        },
    }
    out.push((key_id / 0x100_0000) as u8);
    out.push(((key_id / 0x1_0000) % 0x100) as u8);
    out.push(((key_id / 0x100) % 0x100) as u8);
    out.push((key_id % 0x100) as u8);
    assert(out@ =~= prefix_of(t, key_id));
    out
}

/// One usable key bound to its primitive and framing prefix.
pub struct AeadEntry {
    key_id: u32,
    output_prefix_type: OutputPrefixType,
    status: KeyStatusType,
    prefix: Vec<u8>,
    primitive: RustCryptoAead,
}

/// Mathematical model of an entry: its metadata and its key bytes.
#[verifier::ext_equal]
pub ghost struct AeadEntryV {
    pub key_id: u32,
    pub output_prefix_type: OutputPrefixType,
    pub status: KeyStatusType,
    pub key: Seq<u8>,
}

impl View for AeadEntry {
    type V = AeadEntryV;

    closed spec fn view(&self) -> AeadEntryV {
        AeadEntryV {
            key_id: self.key_id,
            output_prefix_type: self.output_prefix_type,
            status: self.status,
            key: self.primitive@,
        }
    }
}

impl AeadEntry {
    /// A primitive over an accepted key, a prefix matching the
    /// metadata, a usable status, and a known prefix kind.
    pub closed spec fn wf(&self) -> bool {
        &&& self.primitive.wf()
        &&& self.prefix@ == prefix_of(self@.output_prefix_type, self@.key_id)
        &&& (self@.status == KeyStatusType::Enabled || self@.status == KeyStatusType::Disabled)
        &&& self@.output_prefix_type != OutputPrefixType::UnknownPrefix
    }
}

/// Whether a key takes part in dispatch: enabled keys encrypt and
/// decrypt, disabled keys decrypt only, destroyed stubs neither.
pub open spec fn usable(k: KeyV) -> bool {
    k.status == KeyStatusType::Enabled || k.status == KeyStatusType::Disabled
}

/// A usable key the registry can instantiate, under a known prefix
/// kind.
pub open spec fn key_usable_ok(k: KeyV) -> bool {
    usable(k) ==> {
        &&& match k.key_data {
            Some(kd) => key_data_valid(kd),
            None => false,
        }
        &&& k.output_prefix_type != OutputPrefixType::UnknownPrefix
    }
}

/// The entry a usable key gives rise to.
pub open spec fn entry_of(k: KeyV) -> AeadEntryV {
    AeadEntryV {
        key_id: k.key_id,
        output_prefix_type: k.output_prefix_type,
        status: k.status,
        key: match k.key_data {
            Some(kd) => match parse_aes_gcm_key(kd.value) {
                Some(ak) => ak.key_value,
                None => Seq::<u8>::empty(),
            },
            None => Seq::<u8>::empty(),
        },
    }
}

/// The entries of the usable keys, in keyset order.
pub open spec fn usable_entries(keys: Seq<KeyV>) -> Seq<AeadEntryV>
    decreases keys.len(),
{
    if keys.len() == 0 {
        seq![]
    } else {
        (if usable(keys[0]) {
            seq![entry_of(keys[0])]
        } else {
            seq![]
        }) + usable_entries(keys.drop_first())
    }
}

/// The ids of the keys that are kept only as stubs.
pub open spec fn stub_ids(keys: Seq<KeyV>) -> Seq<u32>
    decreases keys.len(),
{
    if keys.len() == 0 {
        seq![]
    } else {
        (if usable(keys[0]) {
            seq![]
        } else {
            seq![keys[0].key_id]
        }) + stub_ids(keys.drop_first())
    }
}

proof fn lemma_usable_entries_snoc(keys: Seq<KeyV>, k: KeyV)
    ensures
        usable_entries(keys.push(k)) == usable_entries(keys) + (if usable(k) {
            seq![entry_of(k)]
        } else {
            seq![]
        }),
        stub_ids(keys.push(k)) == stub_ids(keys) + (if usable(k) {
            seq![]
        } else {
            seq![k.key_id]
        }),
    decreases keys.len(),
{
    let p = keys.push(k);
    if keys.len() == 0 {
        assert(p[0] == k);
        assert(p.drop_first() =~= Seq::<KeyV>::empty());
        assert(usable_entries(p.drop_first()) == Seq::<AeadEntryV>::empty());
        assert(stub_ids(p.drop_first()) == Seq::<u32>::empty());
        if usable(k) {
            assert(usable_entries(p) =~= usable_entries(keys) + seq![entry_of(k)]);
            assert(stub_ids(p) =~= stub_ids(keys) + Seq::<u32>::empty());
        } else {
            assert(usable_entries(p) =~= usable_entries(keys) + Seq::<AeadEntryV>::empty());
            assert(stub_ids(p) =~= stub_ids(keys) + seq![k.key_id]);
        }
    } else {
        lemma_usable_entries_snoc(keys.drop_first(), k);
        assert(p.drop_first() =~= keys.drop_first().push(k));
        assert(p[0] == keys[0]);
        assert(usable_entries(p) =~= usable_entries(keys) + (if usable(k) {
            seq![entry_of(k)]
        } else {
            seq![]
        }));
        assert(stub_ids(p) =~= stub_ids(keys) + (if usable(k) {
            seq![]
        } else {
            seq![k.key_id]
        }));
    }
}

/// The primitives of one keyset, ready for dispatch.
pub struct AeadPrimitiveSet {
    entries: Vec<AeadEntry>,
    stubs: Vec<u32>,
    primary_index: usize,
}

impl View for AeadPrimitiveSet {
    type V = Seq<AeadEntryV>;

    closed spec fn view(&self) -> Seq<AeadEntryV> {
        self.entries@.map_values(|e: AeadEntry| e@)
    }
}

/// A blob a key opens to the given plaintext under the given
/// associated data, for some nonce.
pub open spec fn opens_to(key: Seq<u8>, aad: Seq<u8>, blob: Seq<u8>, pt: Seq<u8>) -> bool {
    exists|nonce: Seq<u8>| #![auto] nonce.len() == 12 && blob == aead_blob(key, nonce, aad, pt)
}

/// A blob a key opens under the given associated data.
pub open spec fn opens(key: Seq<u8>, aad: Seq<u8>, blob: Seq<u8>) -> bool {
    exists|pt: Seq<u8>| #![auto] opens_to(key, aad, blob, pt)
}

/// A prefixed entry whose prefix and authentication both match the
/// ciphertext.
pub open spec fn pfx_match(e: AeadEntryV, ct: Seq<u8>, aad: Seq<u8>) -> bool {
    &&& e.output_prefix_type != OutputPrefixType::Raw
    &&& ct.len() >= 5
    &&& prefix_of(e.output_prefix_type, e.key_id) == ct.subrange(0, 5)
    &&& opens(e.key, aad, ct.subrange(5, ct.len() as int))
}

/// A raw entry whose authentication matches the whole ciphertext.
pub open spec fn raw_match(e: AeadEntryV, ct: Seq<u8>, aad: Seq<u8>) -> bool {
    &&& e.output_prefix_type == OutputPrefixType::Raw
    &&& opens(e.key, aad, ct)
}

/// A five-byte-prefixed ciphertext naming a key that survives only as
/// a stub: such a ciphertext fails predictably rather than silently.
pub open spec fn names_stub(stubs: Seq<u32>, ct: Seq<u8>) -> bool {
    &&& ct.len() >= 5
    &&& (ct[0] == 0 || ct[0] == 1)
    &&& exists|i: int| 0 <= i < stubs.len() && (#[trigger] stubs[i]) as nat == be32_val(
        ct.subrange(1, 5),
    )
}

impl AeadPrimitiveSet {
    /// Every entry well formed, and the primary entry enabled.
    pub closed spec fn wf(&self) -> bool {
        &&& forall|i: int| 0 <= i < self.entries@.len() ==> (#[trigger] self.entries@[i]).wf()
        &&& self.primary_index < self.entries@.len()
        &&& self@[self.primary_index as int].status == KeyStatusType::Enabled
    }

    /// The index of the primary entry.
    pub closed spec fn primary(&self) -> int {
        self.primary_index as int
    }

    /// The stub ids the set retains for predictable failure.
    pub closed spec fn stubs(&self) -> Seq<u32> {
        self.stubs@
    }

    /// Encrypts with the primary key's primitive and prepends the
    /// primary key's framing prefix; never fails.
    pub fn encrypt(&self, plaintext: &[u8], associated_data: &[u8]) -> (r: AeadResult<
        AeadCiphertext,
    >)
        requires
            self.wf(),
        ensures
            r is Ok,
            r matches Ok(c) ==> exists|nonce: Seq<u8>|
                #![auto]
                nonce.len() == 12 && c@ == prefix_of(
                    self@[self.primary()].output_prefix_type,
                    self@[self.primary()].key_id,
                ) + aead_blob(self@[self.primary()].key, nonce, associated_data@, plaintext@),
    {
        let e = &self.entries[self.primary_index];
        let ct = e.primitive.seal(plaintext, associated_data);
        let mut out = copy_bytes(&e.prefix);
        push_bytes(&mut out, ct.bytes());
        proof {
            let nonce = choose|nonce: Seq<u8>|
                #![auto]
                nonce.len() == 12 && ct@ == aead_blob(
                    e.primitive@,
                    nonce,
                    associated_data@,
                    plaintext@,
                );
            assert(out@ == prefix_of(self@[self.primary()].output_prefix_type, self@[self.primary()].key_id)
                + aead_blob(self@[self.primary()].key, nonce, associated_data@, plaintext@));
        }
        Ok(AeadCiphertext(out))
    }

    /// Decrypts by candidates: entries whose prefix matches first,
    /// then raw entries, in set order; the first that authenticates
    /// wins. Exactly the ciphertexts no candidate authenticates fail,
    /// with `KeyNotFound` where the prefix names a destroyed stub and
    /// `DecryptionError` otherwise.
    pub fn decrypt(&self, ciphertext: &[u8], associated_data: &[u8]) -> (r: AeadResult<
        AeadPlaintext,
    >)
        requires
            self.wf(),
        ensures
            r matches Ok(p) ==> ((exists|i: int|
                #![auto]
                0 <= i < self@.len() && pfx_match(self@[i], ciphertext@, associated_data@)
                    && opens_to(
                    self@[i].key,
                    associated_data@,
                    ciphertext@.subrange(5, ciphertext@.len() as int),
                    p@,
                ) && (forall|j: int|
                    0 <= j < i ==> !pfx_match(#[trigger] self@[j], ciphertext@, associated_data@)))
                || ((forall|j: int|
                    0 <= j < self@.len() ==> !pfx_match(
                        #[trigger] self@[j],
                        ciphertext@,
                        associated_data@,
                    )) && (exists|i: int|
                    #![auto]
                    0 <= i < self@.len() && raw_match(self@[i], ciphertext@, associated_data@)
                        && opens_to(self@[i].key, associated_data@, ciphertext@, p@) && (forall|
                        j: int,
                    |
                        0 <= j < i ==> !raw_match(
                            #[trigger] self@[j],
                            ciphertext@,
                            associated_data@,
                        ))))),
            r is Err <==> (forall|j: int|
                0 <= j < self@.len() ==> !pfx_match(#[trigger] self@[j], ciphertext@, associated_data@))
                && (forall|j: int|
                0 <= j < self@.len() ==> !raw_match(#[trigger] self@[j], ciphertext@, associated_data@)),
            r matches Err(e) ==> (e == (if names_stub(self.stubs(), ciphertext@) {
                TinkError::KeyNotFound
            } else {
                TinkError::DecryptionError
            })),
    {
        let n: usize = self.entries.len();
        let clen: usize = ciphertext.len();
        let mut i: usize = 0;
        while i < n
            invariant
                i <= n,
                self.wf(),
                n == self.entries@.len(),
                clen == ciphertext@.len(),
                forall|j: int|
                    0 <= j < i ==> !pfx_match(#[trigger] self@[j], ciphertext@, associated_data@),
            decreases n - i,
        {
            let e = &self.entries[i];
            let is_raw = match e.output_prefix_type {
                OutputPrefixType::Raw => true,
                _ => false,
            };
            if !is_raw && clen >= 5 {
                let head = vstd::slice::slice_subrange(ciphertext, 0, 5);
                if bytes_eq(e.prefix.as_slice(), head) {
                    let body = vstd::slice::slice_subrange(ciphertext, 5, clen);
                    match e.primitive.open(body, associated_data) {
                        Ok(p) => {
                            proof {
                                assert(body@ == ciphertext@.subrange(5, ciphertext@.len() as int));
                                assert(opens_to(
                                    self@[i as int].key,
                                    associated_data@,
                                    body@,
                                    p@,
                                ));
                                assert(pfx_match(self@[i as int], ciphertext@, associated_data@));
                            }
                            return Ok(p);
                        },
                        Err(_) => {
                            proof {
                                assert(!opens(
                                    self@[i as int].key,
                                    associated_data@,
                                    ciphertext@.subrange(5, ciphertext@.len() as int),
                                ));
                            }
                        },
                    }
                }
            }
            proof {
                assert(!pfx_match(self@[i as int], ciphertext@, associated_data@));
            }
            i = i + 1;
        }
        let mut m: usize = 0;
        while m < n
            invariant
                m <= n,
                self.wf(),
                n == self.entries@.len(),
                clen == ciphertext@.len(),
                forall|j: int|
                    0 <= j < n ==> !pfx_match(#[trigger] self@[j], ciphertext@, associated_data@),
                forall|j: int|
                    0 <= j < m ==> !raw_match(#[trigger] self@[j], ciphertext@, associated_data@),
            decreases n - m,
        {
            let e = &self.entries[m];
            let is_raw = match e.output_prefix_type {
                OutputPrefixType::Raw => true,
                _ => false,
            };
            if is_raw {
                match e.primitive.open(ciphertext, associated_data) {
                    Ok(p) => {
                        proof {
                            assert(opens_to(self@[m as int].key, associated_data@, ciphertext@, p@));
                            assert(raw_match(self@[m as int], ciphertext@, associated_data@));
                        }
                        return Ok(p);
                    },
                    Err(_) => {
                        proof {
                            assert(!opens(self@[m as int].key, associated_data@, ciphertext@));
                        }
                    },
                }
            }
            proof {
                assert(!raw_match(self@[m as int], ciphertext@, associated_data@));
            }
            m = m + 1;
        }
        if clen >= 5 && (ciphertext[0] == 0 || ciphertext[0] == 1) {
            let id: u32 = (ciphertext[1] as u32) * 0x100_0000 + (ciphertext[2] as u32) * 0x1_0000
                + (ciphertext[3] as u32) * 0x100 + (ciphertext[4] as u32);
            proof {
                assert(ciphertext@.subrange(1, 5)[0] == ciphertext@[1]);
                assert(ciphertext@.subrange(1, 5)[1] == ciphertext@[2]);
                assert(ciphertext@.subrange(1, 5)[2] == ciphertext@[3]);
                assert(ciphertext@.subrange(1, 5)[3] == ciphertext@[4]);
            }
            let sn: usize = self.stubs.len();
            let mut s: usize = 0;
            while s < sn
                invariant
                    s <= sn,
                    sn == self.stubs@.len(),
                    clen == ciphertext@.len(),
                    clen >= 5,
                    ciphertext@[0] == 0 || ciphertext@[0] == 1,
                    id as nat == be32_val(ciphertext@.subrange(1, 5)),
                    forall|j: int| 0 <= j < s ==> (#[trigger] self.stubs@[j]) != id,
                    forall|j: int|
                        0 <= j < self@.len() ==> !pfx_match(
                            #[trigger] self@[j],
                            ciphertext@,
                            associated_data@,
                        ),
                    forall|j: int|
                        0 <= j < self@.len() ==> !raw_match(
                            #[trigger] self@[j],
                            ciphertext@,
                            associated_data@,
                        ),
                decreases sn - s,
            {
                if self.stubs[s] == id {
                    assert(names_stub(self.stubs(), ciphertext@));
                    return Err(TinkError::KeyNotFound);
                }
                s = s + 1;
            }
            assert(!names_stub(self.stubs(), ciphertext@));
            return Err(TinkError::DecryptionError);
        }
        Err(TinkError::DecryptionError)
    }
}

impl KeysetHandle {
    /// Binds every usable key of the keyset to its AEAD primitive and
    /// framing prefix, the primary first in line for encryption.
    /// Succeeds on exactly the keysets whose usable keys the registry
    /// accepts.
    pub fn aead_primitive_set(&self) -> (r: Result<AeadPrimitiveSet, TinkError>)
        requires
            self.wf(),
        ensures
            r is Ok <==> (forall|i: int|
                0 <= i < self@.key.len() ==> key_usable_ok(#[trigger] self@.key[i])),
            r matches Ok(ps) ==> {
                &&& ps.wf()
                &&& ps@ == usable_entries(self@.key)
                &&& ps.stubs() == stub_ids(self@.key)
                &&& 0 <= ps.primary() < ps@.len()
                &&& ps@[ps.primary()].key_id == self@.primary_key_id
                &&& ps@[ps.primary()].status == KeyStatusType::Enabled
            },
            r matches Err(e) ==> (e == TinkError::UnknownKeyType || e == TinkError::ProtobufError
                || e == TinkError::ValidationError),
    {
        let keys = self.keys();
        let n: usize = keys.len();
        let mut entries: Vec<AeadEntry> = Vec::new();
        let mut stubs: Vec<u32> = Vec::new();
        let mut primary_index: usize = 0;
        let mut found = false;
        let mut i: usize = 0;
        while i < n
            invariant
                i <= n,
                n == keys@.len(),
                keys@.map_values(|k: crate::protos::Key| k@) == self@.key,
                self.wf(),
                entries@.map_values(|e: AeadEntry| e@) == usable_entries(
                    self@.key.subrange(0, i as int),
                ),
                stubs@ == stub_ids(self@.key.subrange(0, i as int)),
                forall|q: int| 0 <= q < entries@.len() ==> (#[trigger] entries@[q]).wf(),
                forall|m: int| 0 <= m < i ==> key_usable_ok(#[trigger] self@.key[m]),
                found ==> primary_index < entries@.len() && entries@[primary_index as int]@.key_id
                    == self@.primary_key_id && entries@[primary_index as int]@.status
                    == KeyStatusType::Enabled,
                !found ==> forall|m: int|
                    0 <= m < i ==> !crate::keysets::is_enabled_primary(
                        #[trigger] self@.key[m],
                        self@.primary_key_id,
                    ),
            decreases n - i,
        {
            proof {
                assert(self@.key.subrange(0, i as int).push(self@.key[i as int])
                    =~= self@.key.subrange(0, i as int + 1));
                lemma_usable_entries_snoc(self@.key.subrange(0, i as int), self@.key[i as int]);
            }
            let k = &keys[i];
            assert(k@ == self@.key[i as int]);
            let is_usable = match k.status {
                KeyStatusType::Enabled => true,
                KeyStatusType::Disabled => true,
                _ => false,
            };
            if is_usable {
                let kd = match &k.key_data {
                    Some(kd) => kd,
                    None => {
                        return Err(TinkError::ValidationError);
                    },
                };
                let primitive = match aead_from_key_data(kd) {
                    Ok(p) => p,
                    Err(e) => {
                        return Err(e);
                    },
                };
                let known_prefix = match k.output_prefix_type {
                    OutputPrefixType::UnknownPrefix => false,
                    _ => true,
                };
                if !known_prefix {
                    return Err(TinkError::ValidationError);
                }
                let entry = AeadEntry {
                    key_id: k.key_id,
                    output_prefix_type: k.output_prefix_type,
                    status: k.status,
                    prefix: prefix_bytes(k.output_prefix_type, k.key_id),
                    primitive: primitive,
                };
                assert(entry@ =~= entry_of(self@.key[i as int]));
                let enabled = match k.status {
                    KeyStatusType::Enabled => true,
                    _ => false,
                };
                if !found && enabled && k.key_id == self.primary_id() {
                    primary_index = entries.len();
                    found = true;
                }
                entries.push(entry);
                proof {
                    assert(entries@.map_values(|e: AeadEntry| e@) =~= usable_entries(
                        self@.key.subrange(0, i as int + 1),
                    ));
                    assert(stubs@ =~= stub_ids(self@.key.subrange(0, i as int + 1)));
                }
            } else {
                stubs.push(k.key_id);
                proof {
                    assert(entries@.map_values(|e: AeadEntry| e@) =~= usable_entries(
                        self@.key.subrange(0, i as int + 1),
                    ));
                    assert(stubs@ =~= stub_ids(self@.key.subrange(0, i as int + 1)));
                    assert(!crate::keysets::is_enabled_primary(
                        self@.key[i as int],
                        self@.primary_key_id,
                    ));
                }
            }
            i = i + 1;
        }
        proof {
            assert(self@.key.subrange(0, n as int) =~= self@.key);
            if !found {
                let w = choose|i2: int|
                    0 <= i2 < self@.key.len() && crate::keysets::is_enabled_primary(
                        #[trigger] self@.key[i2],
                        self@.primary_key_id,
                    );
                assert(false);
            }
        }
        let ps = AeadPrimitiveSet { entries, stubs, primary_index };
        Ok(ps)
    }
}

} // verus!
