//! The concrete AES-GCM AEAD primitive, built on an outside cipher
//! engine. The engine's transforms are named, not restated: `gcm_ct`
//! stands for the CTR keystream transform and `gcm_tag` for the
//! authentication tag, both functions of their arguments alone.
use vstd::prelude::*;

use crate::aead::{Aead, AeadCiphertext, AeadPlaintext, AeadResult};
use crate::errors::TinkError;
use crate::rand_bytes;
use crate::wire::push_bytes;
use crypto::aead::{AeadDecryptor, AeadEncryptor};
use vstd::bytes::{
    lemma_auto_spec_u128_to_from_le_bytes, spec_u128_from_le_bytes, spec_u128_to_le_bytes,
};

verus! {

/// The ciphertext body AES-GCM produces for a plaintext under a key
/// and nonce: the CTR keystream XOR, an involution.
pub uninterp spec fn gcm_ct(key: Seq<u8>, nonce: Seq<u8>, pt: Seq<u8>) -> Seq<u8>;

/// The 16-byte AES-GCM authentication tag over associated data and
/// ciphertext body, read as a little-endian integer.
pub uninterp spec fn gcm_tag(key: Seq<u8>, nonce: Seq<u8>, aad: Seq<u8>, ct: Seq<u8>) -> u128;

/// The on-the-wire shape this primitive produces: nonce, ciphertext
/// body, 16-byte tag.
pub open spec fn aead_blob(key: Seq<u8>, nonce: Seq<u8>, aad: Seq<u8>, pt: Seq<u8>) -> Seq<u8> {
    nonce + gcm_ct(key, nonce, pt) + spec_u128_to_le_bytes(
        gcm_tag(key, nonce, aad, gcm_ct(key, nonce, pt)),
    )
}

/// Relies on `crypto::aes_gcm::AesGcm` (`AeadEncryptor::encrypt`): the
/// ciphertext is the CTR keystream XOR of the plaintext (same length),
/// and the tag is the 16-byte GHASH-derived tag over associated data
/// and ciphertext; both depend on the arguments alone.
#[verifier::external_body]
fn gcm_seal(key: &[u8], nonce: &[u8], aad: &[u8], plaintext: &[u8]) -> (r: (Vec<u8>, Vec<u8>))
    requires
        key@.len() == 16 || key@.len() == 32,
        nonce@.len() == 12,
    ensures
        r.0@ == gcm_ct(key@, nonce@, plaintext@),
        r.0@.len() == plaintext@.len(),
        r.1@.len() == 16,
        spec_u128_from_le_bytes(r.1@) == gcm_tag(key@, nonce@, aad@, r.0@),
{
    let size = if key.len() == 16 {
        crypto::aes::KeySize::KeySize128
    } else {
        crypto::aes::KeySize::KeySize256
    };
    let mut gcm = crypto::aes_gcm::AesGcm::new(size, key, nonce, aad);
    let mut ct = vec![0u8; plaintext.len()];
    let mut tag = vec![0u8; 16];
    gcm.encrypt(plaintext, &mut ct, &mut tag);
    (ct, tag)
}

/// Relies on `crypto::aes_gcm::AesGcm` (`AeadDecryptor::decrypt`): it
/// recomputes the tag over the ciphertext body and compares in fixed
/// time; on a match it applies the same CTR keystream as encryption,
/// which is an XOR and hence inverts it.
#[verifier::external_body]
fn gcm_open(key: &[u8], nonce: &[u8], aad: &[u8], ciphertext: &[u8], tag: &[u8]) -> (r: Option<
    Vec<u8>,
>)
    requires
        key@.len() == 16 || key@.len() == 32,
        nonce@.len() == 12,
        tag@.len() == 16,
    ensures
        r is Some <==> spec_u128_from_le_bytes(tag@) == gcm_tag(key@, nonce@, aad@, ciphertext@),
        r matches Some(p) ==> p@.len() == ciphertext@.len() && ciphertext@ == gcm_ct(
            key@,
            nonce@,
            p@,
        ),
        forall|pt: Seq<u8>|
            ciphertext@ == gcm_ct(key@, nonce@, pt) ==> (r matches Some(p) ==> p@ == pt),
{
    let size = if key.len() == 16 {
        crypto::aes::KeySize::KeySize128
    } else {
        crypto::aes::KeySize::KeySize256
    };
    let mut gcm = crypto::aes_gcm::AesGcm::new(size, key, nonce, aad);
    let mut pt = vec![0u8; ciphertext.len()];
    if gcm.decrypt(ciphertext, &mut pt, tag) {
        Some(pt)
    } else {
        None
    }
}

/// An AES-GCM AEAD bound to one key.
pub struct RustCryptoAead {
    key: Vec<u8>,
}

impl View for RustCryptoAead {
    type V = Seq<u8>;

    closed spec fn view(&self) -> Seq<u8> {
        self.key@
    }
}

impl RustCryptoAead {
    /// A key of an accepted AES-GCM size.
    pub open spec fn wf(&self) -> bool {
        self@.len() == 16 || self@.len() == 32
    }

    /// Binds the primitive to `key`; rejects key sizes other than 16
    /// or 32 bytes.
    pub fn create(key: Vec<u8>) -> (r: Result<RustCryptoAead, TinkError>)
        ensures
            r matches Ok(a) ==> a.wf() && a@ == key@,
            r is Ok <==> (key@.len() == 16 || key@.len() == 32),
            r matches Err(e) ==> e == TinkError::ValidationError,
    {
        if key.len() == 16 || key.len() == 32 {
            Ok(RustCryptoAead { key })
        } else {
            Err(TinkError::ValidationError)
        }
    }

    /// Encrypts under a fresh random nonce. The result is the blob
    /// shape for some 12-byte nonce; nothing more is promised of the
    /// nonce, which is drawn fresh on every call. The overhead is the
    /// fixed 28 bytes of nonce and tag, independent of the content.
    pub fn seal(&self, plaintext: &[u8], associated_data: &[u8]) -> (r: AeadCiphertext)
        requires
            self.wf(),
        ensures
            exists|nonce: Seq<u8>|
                #![auto]
                nonce.len() == 12 && r@ == aead_blob(self@, nonce, associated_data@, plaintext@),
            r@.len() == plaintext@.len() + 28,
    {
        let nonce = rand_bytes(12);
        let (ct, tag) = gcm_seal(
            self.key.as_slice(),
            nonce.as_slice(),
            associated_data,
            plaintext,
        );
        proof {
            lemma_auto_spec_u128_to_from_le_bytes();
            assert(tag@ == spec_u128_to_le_bytes(
                gcm_tag(self@, nonce@, associated_data@, ct@),
            ));
        }
        let ghost n = nonce@;
        let mut out = nonce;
        push_bytes(&mut out, ct.as_slice());
        push_bytes(&mut out, tag.as_slice());
        assert(out@ =~= aead_blob(self@, n, associated_data@, plaintext@));
        AeadCiphertext(out)
    }

    /// Opens a blob. Exactly the well-shaped blobs whose tag verifies
    /// open; the recovered plaintext is the one the blob was sealed
    /// from, and anything else fails with `DecryptionError`.
    pub fn open(&self, ciphertext: &[u8], associated_data: &[u8]) -> (r: AeadResult<AeadPlaintext>)
        requires
            self.wf(),
        ensures
            r matches Ok(p) ==> ciphertext@.len() >= 28 && ciphertext@ == aead_blob(
                self@,
                ciphertext@.subrange(0, 12),
                associated_data@,
                p@,
            ),
            forall|nonce: Seq<u8>, pt: Seq<u8>|
                #![auto]
                nonce.len() == 12 && ciphertext@ == aead_blob(self@, nonce, associated_data@, pt)
                    ==> (r matches Ok(p) && p@ == pt),
            r matches Err(e) ==> e == TinkError::DecryptionError,
    {
        let clen: usize = ciphertext.len();
        if clen < 28 {
            proof {
                lemma_auto_spec_u128_to_from_le_bytes();
                assert forall|nonce: Seq<u8>, pt: Seq<u8>|
                    nonce.len() == 12 && ciphertext@ == aead_blob(
                        self@,
                        nonce,
                        associated_data@,
                        pt,
                    ) implies false by {
                    assert(aead_blob(self@, nonce, associated_data@, pt).len() >= 28);
                }
            }
            return Err(TinkError::DecryptionError);
        }
        let nonce = vstd::slice::slice_subrange(ciphertext, 0, 12);
        let body = vstd::slice::slice_subrange(ciphertext, 12, clen - 16);
        let tag = vstd::slice::slice_subrange(ciphertext, clen - 16, clen);
        match gcm_open(self.key.as_slice(), nonce, associated_data, body, tag) {
            Some(pt) => {
                proof {
                    lemma_auto_spec_u128_to_from_le_bytes();
                    assert(ciphertext@ =~= nonce@ + body@ + tag@);
                    assert(tag@ == spec_u128_to_le_bytes(
                        gcm_tag(self@, nonce@, associated_data@, body@),
                    ));
                    assert(ciphertext@ == aead_blob(self@, nonce@, associated_data@, pt@));
                    assert(ciphertext@.subrange(0, 12) =~= nonce@);
                    assert forall|n2: Seq<u8>, p2: Seq<u8>|
                        #![auto]
                        n2.len() == 12 && ciphertext@ == aead_blob(
                            self@,
                            n2,
                            associated_data@,
                            p2,
                        ) implies pt@ == p2 by {
                        assert(n2 =~= ciphertext@.subrange(0, 12));
                        assert(gcm_ct(self@, n2, p2).len() == ciphertext@.len() - 28);
                        assert(gcm_ct(self@, n2, p2) =~= ciphertext@.subrange(
                            12,
                            ciphertext@.len() - 16,
                        ));
                        assert(body@ == gcm_ct(self@, nonce@, p2));
                    }
                }
                Ok(AeadPlaintext(pt))
            },
            None => {
                proof {
                    lemma_auto_spec_u128_to_from_le_bytes();
                    assert forall|n2: Seq<u8>, p2: Seq<u8>|
                        n2.len() == 12 && ciphertext@ == aead_blob(
                            self@,
                            n2,
                            associated_data@,
                            p2,
                        ) implies false by {
                        assert(n2 =~= ciphertext@.subrange(0, 12));
                        assert(gcm_ct(self@, n2, p2).len() == ciphertext@.len() - 28);
                        assert(gcm_ct(self@, n2, p2) =~= ciphertext@.subrange(
                            12,
                            ciphertext@.len() - 16,
                        ));
                        assert(spec_u128_to_le_bytes(
                            gcm_tag(self@, n2, associated_data@, gcm_ct(self@, n2, p2)),
                        ) =~= ciphertext@.subrange(
                            ciphertext@.len() - 16,
                            ciphertext@.len() as int,
                        ));
                        assert(tag@ == spec_u128_to_le_bytes(
                            gcm_tag(self@, nonce@, associated_data@, body@),
                        ));
                        assert(spec_u128_from_le_bytes(tag@) == gcm_tag(
                            self@,
                            nonce@,
                            associated_data@,
                            body@,
                        ));
                    }
                }
                Err(TinkError::DecryptionError)
            },
        }
    }
}

impl Aead for RustCryptoAead {
    fn encrypt(&self, plaintext: &[u8], associated_data: &[u8]) -> AeadResult<AeadCiphertext> {
        if self.key.len() == 16 || self.key.len() == 32 {
            Ok(self.seal(plaintext, associated_data))
        } else {
            Err(TinkError::ValidationError)
        }
    }

    fn decrypt(&self, ciphertext: &[u8], associated_data: &[u8]) -> AeadResult<AeadPlaintext> {
        if self.key.len() == 16 || self.key.len() == 32 {
            self.open(ciphertext, associated_data)
        } else {
            Err(TinkError::ValidationError)
        }
    }
}

} // verus!
