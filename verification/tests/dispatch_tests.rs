use tink_core::aead::aes_gcm::AesGcm;
use tink_core::aead::AeadKeyTemplates;
use tink_core::codec::encode_aes_gcm_key;
use tink_core::keysets::KeysetHandle;
use tink_core::protos::{
    AesGcmKey, Key, KeyData, KeyMaterialType, KeyStatusType, Keyset, OutputPrefixType,
};
use tink_core::TinkError;

fn aes_key_data(byte: u8) -> KeyData {
    KeyData {
        type_url: AesGcm::key_type().as_bytes().to_vec(),
        value: encode_aes_gcm_key(&AesGcmKey {
            version: 0,
            key_value: vec![byte; 32],
        }),
        key_material_type: KeyMaterialType::Symmetric,
    }
}

#[test]
fn tink_prefix_framing() {
    // A Tink-framed key with id 7: every ciphertext starts
    // 01 00 00 00 07.
    let ks = Keyset {
        primary_key_id: 7,
        key: vec![Key {
            key_data: Some(aes_key_data(1)),
            status: KeyStatusType::Enabled,
            key_id: 7,
            output_prefix_type: OutputPrefixType::Tink,
        }],
    };
    let handle = KeysetHandle::from_keyset(ks).unwrap();
    let ps = handle.aead_primitive_set().unwrap();
    for _ in 0..3 {
        let ct = ps.encrypt(b"data", b"").unwrap();
        assert_eq!(&ct.bytes()[0..5], &[0x01, 0x00, 0x00, 0x00, 0x07]);
    }
}

#[test]
fn raw_framing_has_no_prefix() {
    let ks = Keyset {
        primary_key_id: 3,
        key: vec![Key {
            key_data: Some(aes_key_data(2)),
            status: KeyStatusType::Enabled,
            key_id: 3,
            output_prefix_type: OutputPrefixType::Raw,
        }],
    };
    let handle = KeysetHandle::from_keyset(ks).unwrap();
    let ps = handle.aead_primitive_set().unwrap();
    let ct = ps.encrypt(b"data", b"ad").unwrap();
    // nonce + body + tag only.
    assert_eq!(ct.bytes().len(), 12 + 4 + 16);
    let pt = ps.decrypt(ct.bytes(), b"ad").unwrap();
    assert_eq!(pt.bytes(), b"data");
}

#[test]
fn rotation_scenario() {
    let template = AeadKeyTemplates::aes_256_gcm();
    // Key A: id 1, enabled, primary.
    let h1 = KeysetHandle::generate_new(&template).unwrap();
    let ps1 = h1.aead_primitive_set().unwrap();
    let ct_old = ps1.encrypt(b"before rotation", b"ad").unwrap();
    assert_eq!(&ct_old.bytes()[0..5], &[0x01, 0x00, 0x00, 0x00, 0x01]);

    // Rotate: key B, id 2, becomes primary; key A stays enabled.
    let h2 = h1.rotate(&template).unwrap();
    let ps2 = h2.aead_primitive_set().unwrap();
    let pt = ps2.decrypt(ct_old.bytes(), b"ad").unwrap();
    assert_eq!(pt.bytes(), b"before rotation");
    let ct_new = ps2.encrypt(b"after rotation", b"ad").unwrap();
    assert_eq!(&ct_new.bytes()[0..5], &[0x01, 0x00, 0x00, 0x00, 0x02]);

    // Disable key A: new encryptions use key B only; old ciphertexts
    // still decrypt.
    let h3 = h2.disable_key(1).unwrap();
    let ps3 = h3.aead_primitive_set().unwrap();
    let ct_after_disable = ps3.encrypt(b"x", b"ad").unwrap();
    assert_eq!(&ct_after_disable.bytes()[0..5], &[0x01, 0x00, 0x00, 0x00, 0x02]);
    let pt_old = ps3.decrypt(ct_old.bytes(), b"ad").unwrap();
    assert_eq!(pt_old.bytes(), b"before rotation");

    // Destroy key A: ciphertexts tagged with id 1 fail predictably.
    let h4 = h3.destroy_key(1).unwrap();
    let ps4 = h4.aead_primitive_set().unwrap();
    assert_eq!(
        ps4.decrypt(ct_old.bytes(), b"ad").unwrap_err(),
        TinkError::KeyNotFound
    );
    // Ciphertexts under the surviving key still decrypt.
    let pt_new = ps4.decrypt(ct_new.bytes(), b"ad").unwrap();
    assert_eq!(pt_new.bytes(), b"after rotation");
}

#[test]
fn decrypt_unmatched_ciphertext_fails() {
    let template = AeadKeyTemplates::aes_256_gcm();
    let handle = KeysetHandle::generate_new(&template).unwrap();
    let ps = handle.aead_primitive_set().unwrap();
    assert_eq!(
        ps.decrypt(b"garbage bytes that match nothing", b"")
            .unwrap_err(),
        TinkError::DecryptionError
    );
    let ct = ps.encrypt(b"msg", b"ad").unwrap();
    let mut tampered = ct.bytes().to_vec();
    let last = tampered.len() - 1;
    tampered[last] ^= 1;
    assert_eq!(
        ps.decrypt(&tampered, b"ad").unwrap_err(),
        TinkError::DecryptionError
    );
    // Same bytes, different associated data: no candidate verifies.
    assert_eq!(
        ps.decrypt(ct.bytes(), b"other").unwrap_err(),
        TinkError::DecryptionError
    );
}

#[test]
fn raw_keys_are_tried_for_unprefixed_ciphertexts() {
    // Two raw keys; a ciphertext under the second is found by trying
    // candidates in keyset order.
    let ks = Keyset {
        primary_key_id: 1,
        key: vec![
            Key {
                key_data: Some(aes_key_data(5)),
                status: KeyStatusType::Enabled,
                key_id: 1,
                output_prefix_type: OutputPrefixType::Raw,
            },
            Key {
                key_data: Some(aes_key_data(6)),
                status: KeyStatusType::Disabled,
                key_id: 2,
                output_prefix_type: OutputPrefixType::Raw,
            },
        ],
    };
    let handle = KeysetHandle::from_keyset(ks).unwrap();
    let ps = handle.aead_primitive_set().unwrap();

    let only_second = Keyset {
        primary_key_id: 2,
        key: vec![Key {
            key_data: Some(aes_key_data(6)),
            status: KeyStatusType::Enabled,
            key_id: 2,
            output_prefix_type: OutputPrefixType::Raw,
        }],
    };
    let h2 = KeysetHandle::from_keyset(only_second).unwrap();
    let ct = h2.aead_primitive_set().unwrap().encrypt(b"hi", b"").unwrap();
    let pt = ps.decrypt(ct.bytes(), b"").unwrap();
    assert_eq!(pt.bytes(), b"hi");
}

#[test]
fn primitive_set_rejects_unusable_keys() {
    // A usable key without key data cannot be instantiated.
    let ks = Keyset {
        primary_key_id: 1,
        key: vec![Key {
            key_data: None,
            status: KeyStatusType::Enabled,
            key_id: 1,
            output_prefix_type: OutputPrefixType::Tink,
        }],
    };
    let handle = KeysetHandle::from_keyset(ks).unwrap();
    match handle.aead_primitive_set() {
        Err(e) => assert_eq!(e, TinkError::ValidationError),
        Ok(_) => panic!("expected an error"),
    }
    // A usable key of an unknown type is refused by the registry.
    let ks2 = Keyset {
        primary_key_id: 1,
        key: vec![Key {
            key_data: Some(KeyData {
                type_url: b"type.googleapis.com/unknown.Type".to_vec(),
                value: vec![],
                key_material_type: KeyMaterialType::Symmetric,
            }),
            status: KeyStatusType::Enabled,
            key_id: 1,
            output_prefix_type: OutputPrefixType::Tink,
        }],
    };
    let handle2 = KeysetHandle::from_keyset(ks2).unwrap();
    match handle2.aead_primitive_set() {
        Err(e) => assert_eq!(e, TinkError::UnknownKeyType),
        Ok(_) => panic!("expected an error"),
    }
}
