use tink_core::aead::rust_crypto_aead::RustCryptoAead;
use tink_core::aead::AeadKeyTemplates;
use tink_core::codec::encode_encrypted_keyset;
use tink_core::keysets::{BinaryKeysetReader, KeysetHandle};
use tink_core::TinkError;

#[test]
fn envelope_round_trip() {
    let template = AeadKeyTemplates::aes_256_gcm();
    let handle = KeysetHandle::generate_new(&template).unwrap();
    let master = RustCryptoAead::create(vec![7u8; 32]).unwrap();
    let enc = handle.encrypted_keyset(&master);
    assert!(enc.keyset_info.is_some());
    let back = KeysetHandle::from_encrypted(&enc, &master).unwrap();
    assert_eq!(back.keyset_info(), handle.keyset_info());
    // And the recovered keyset still works: its primitives decrypt
    // what the first handle's primitives produced.
    let ct = handle
        .aead_primitive_set()
        .unwrap()
        .encrypt(b"payload", b"ad")
        .unwrap();
    let pt = back
        .aead_primitive_set()
        .unwrap()
        .decrypt(ct.bytes(), b"ad")
        .unwrap();
    assert_eq!(pt.bytes(), b"payload");
}

#[test]
fn envelope_round_trip_always_succeeds() {
    let template = AeadKeyTemplates::aes_256_gcm();
    let handle = KeysetHandle::generate_new(&template).unwrap();
    let master = RustCryptoAead::create(vec![9u8; 16]).unwrap();
    let back = handle.envelope_round_trip(&master).unwrap();
    assert_eq!(back.keyset_info(), handle.keyset_info());
}

#[test]
fn envelope_wrong_master_key_fails() {
    let template = AeadKeyTemplates::aes_256_gcm();
    let handle = KeysetHandle::generate_new(&template).unwrap();
    let master = RustCryptoAead::create(vec![7u8; 32]).unwrap();
    let other = RustCryptoAead::create(vec![8u8; 32]).unwrap();
    let enc = handle.encrypted_keyset(&master);
    match KeysetHandle::from_encrypted(&enc, &other) {
        Err(e) => assert_eq!(e, TinkError::DecryptionError),
        Ok(_) => panic!("expected an error"),
    }
}

#[test]
fn envelope_tampered_ciphertext_fails() {
    let template = AeadKeyTemplates::aes_256_gcm();
    let handle = KeysetHandle::generate_new(&template).unwrap();
    let master = RustCryptoAead::create(vec![7u8; 32]).unwrap();
    let mut enc = handle.encrypted_keyset(&master);
    let mid = enc.encrypted_keyset.len() / 2;
    enc.encrypted_keyset[mid] ^= 0x55;
    match KeysetHandle::from_encrypted(&enc, &master) {
        Err(e) => assert_eq!(e, TinkError::DecryptionError),
        Ok(_) => panic!("expected an error"),
    }
}

#[test]
fn envelope_reader_path_round_trip() {
    let template = AeadKeyTemplates::aes_256_gcm();
    let handle = KeysetHandle::generate_new(&template).unwrap();
    let master = RustCryptoAead::create(vec![1u8; 16]).unwrap();
    let enc = handle.encrypted_keyset(&master);
    let bytes = encode_encrypted_keyset(&enc);
    let reader = BinaryKeysetReader(bytes);
    let master2 = RustCryptoAead::create(vec![1u8; 16]).unwrap();
    let back = KeysetHandle::new(reader, master2).unwrap();
    assert_eq!(back.keyset_info(), handle.keyset_info());
}

#[test]
fn envelope_reader_path_wrong_key_fails() {
    let template = AeadKeyTemplates::aes_256_gcm();
    let handle = KeysetHandle::generate_new(&template).unwrap();
    let master = RustCryptoAead::create(vec![1u8; 16]).unwrap();
    let enc = handle.encrypted_keyset(&master);
    let reader = BinaryKeysetReader(encode_encrypted_keyset(&enc));
    let other = RustCryptoAead::create(vec![2u8; 16]).unwrap();
    match KeysetHandle::new(reader, other) {
        Err(e) => assert_eq!(e, TinkError::DecryptionError),
        Ok(_) => panic!("expected an error"),
    }
}

#[test]
fn aead_ciphertext_is_not_the_plaintext() {
    // The cipher engine transforms its input: the ciphertext body
    // (after the 12-byte nonce, before the 16-byte tag) differs from
    // the plaintext.
    let master = RustCryptoAead::create(vec![3u8; 32]).unwrap();
    let pt = b"a fixed plaintext of some length";
    let ct = master.seal(pt, b"");
    let body = &ct.bytes()[12..12 + pt.len()];
    assert_eq!(ct.bytes().len(), 12 + pt.len() + 16);
    assert_ne!(body, pt.as_slice());
    let back = master.open(ct.bytes(), b"").unwrap();
    assert_eq!(back.bytes(), pt.as_slice());
}

#[test]
fn aead_wrong_associated_data_fails() {
    let master = RustCryptoAead::create(vec![3u8; 32]).unwrap();
    let ct = master.seal(b"msg", b"context-a");
    assert_eq!(
        master.open(ct.bytes(), b"context-b").unwrap_err(),
        TinkError::DecryptionError
    );
    assert_eq!(
        master.open(b"too short", b"context-a").unwrap_err(),
        TinkError::DecryptionError
    );
}

#[test]
fn aead_key_sizes() {
    assert!(RustCryptoAead::create(vec![0u8; 16]).is_ok());
    assert!(RustCryptoAead::create(vec![0u8; 32]).is_ok());
    match RustCryptoAead::create(vec![0u8; 24]) {
        Err(e) => assert_eq!(e, TinkError::ValidationError),
        Ok(_) => panic!("expected an error"),
    }
    match RustCryptoAead::create(vec![]) {
        Err(e) => assert_eq!(e, TinkError::ValidationError),
        Ok(_) => panic!("expected an error"),
    }
}
