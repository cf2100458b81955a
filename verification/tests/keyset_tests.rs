use tink_core::aead::aes_gcm::AesGcm;
use tink_core::aead::AeadKeyTemplates;
use tink_core::codec::encode_keyset;
use tink_core::keysets::{BinaryKeysetReader, KeysetHandle};
use tink_core::protos::{
    Key, KeyData, KeyMaterialType, KeyStatusType, Keyset, KeyTemplate, OutputPrefixType,
};
use tink_core::registry::create_key_data;
use tink_core::TinkError;

fn expect_err<T>(r: Result<T, TinkError>) -> TinkError {
    match r {
        Err(e) => e,
        Ok(_) => panic!("expected an error"),
    }
}

fn assert_exactly_one_enabled_primary(handle: &KeysetHandle) {
    let info = handle.keyset_info();
    let mut count = 0;
    for ki in &info.key_info {
        if ki.status == KeyStatusType::Enabled && ki.key_id == info.primary_key_id {
            count += 1;
        }
    }
    assert_eq!(count, 1);
}

#[test]
fn create_key_data_keeps_type_url() {
    let template = AeadKeyTemplates::aes_256_gcm();
    let kd = create_key_data(&template).unwrap();
    assert_eq!(kd.type_url, template.type_url);
    assert_eq!(kd.key_material_type, KeyMaterialType::Symmetric);
}

#[test]
fn create_key_data_rejects_unknown_type() {
    let template = KeyTemplate {
        type_url: b"type.googleapis.com/something.else".to_vec(),
        value: vec![],
        output_prefix_type: OutputPrefixType::Tink,
    };
    assert_eq!(
        create_key_data(&template).unwrap_err(),
        TinkError::UnknownKeyType
    );
}

#[test]
fn create_key_data_rejects_bad_format() {
    let mut template = AeadKeyTemplates::aes_256_gcm();
    // key_size = 17 is not an accepted AES key size.
    template.value = vec![0x10, 0x11];
    assert_eq!(
        create_key_data(&template).unwrap_err(),
        TinkError::ValidationError
    );
    template.value = vec![0xff, 0xff];
    assert_eq!(
        create_key_data(&template).unwrap_err(),
        TinkError::ProtobufError
    );
}

#[test]
fn generate_new_builds_singleton_keyset() {
    let template = AeadKeyTemplates::aes_256_gcm();
    let handle = KeysetHandle::generate_new(&template).unwrap();
    let info = handle.keyset_info();
    assert_eq!(info.key_info.len(), 1);
    assert_eq!(info.primary_key_id, info.key_info[0].key_id);
    assert_eq!(info.key_info[0].status, KeyStatusType::Enabled);
    assert_eq!(
        info.key_info[0].type_url,
        AesGcm::key_type().as_bytes().to_vec()
    );
    assert_exactly_one_enabled_primary(&handle);
}

#[test]
fn lifecycle_preserves_exactly_one_enabled_primary() {
    let template = AeadKeyTemplates::aes_256_gcm();
    let h1 = KeysetHandle::generate_new(&template).unwrap();
    assert_exactly_one_enabled_primary(&h1);
    let h2 = h1.add_key(&template).unwrap();
    assert_exactly_one_enabled_primary(&h2);
    let h3 = h2.rotate(&template).unwrap();
    assert_exactly_one_enabled_primary(&h3);
    let h4 = h3.disable_key(1).unwrap();
    assert_exactly_one_enabled_primary(&h4);
    let h5 = h4.destroy_key(1).unwrap();
    assert_exactly_one_enabled_primary(&h5);
}

#[test]
fn disable_and_destroy_guard_the_primary() {
    let template = AeadKeyTemplates::aes_256_gcm();
    let h1 = KeysetHandle::generate_new(&template).unwrap();
    assert_eq!(expect_err(h1.disable_key(1)), TinkError::ValidationError);
    assert_eq!(expect_err(h1.destroy_key(1)), TinkError::ValidationError);
    assert_eq!(expect_err(h1.disable_key(99)), TinkError::KeyNotFound);
}

#[test]
fn destroy_clears_key_material_but_keeps_the_stub() {
    let template = AeadKeyTemplates::aes_256_gcm();
    let h = KeysetHandle::generate_new(&template)
        .unwrap()
        .rotate(&template)
        .unwrap()
        .destroy_key(1)
        .unwrap();
    let info = h.keyset_info();
    assert_eq!(info.key_info.len(), 2);
    assert_eq!(info.key_info[0].key_id, 1);
    assert_eq!(info.key_info[0].status, KeyStatusType::Destroyed);
    // A destroyed key cannot be disabled or re-destroyed.
    assert_eq!(expect_err(h.disable_key(1)), TinkError::ValidationError);
    assert_eq!(expect_err(h.destroy_key(1)), TinkError::ValidationError);
}

#[test]
fn from_keyset_rejects_invalid_keysets() {
    // No enabled key carries the primary id.
    let ks = Keyset {
        primary_key_id: 5,
        key: vec![Key {
            key_data: None,
            status: KeyStatusType::Enabled,
            key_id: 1,
            output_prefix_type: OutputPrefixType::Tink,
        }],
    };
    assert_eq!(
        expect_err(KeysetHandle::from_keyset(ks)),
        TinkError::ValidationError
    );
    // Duplicate key ids.
    let dup = Keyset {
        primary_key_id: 1,
        key: vec![
            Key {
                key_data: None,
                status: KeyStatusType::Enabled,
                key_id: 1,
                output_prefix_type: OutputPrefixType::Tink,
            },
            Key {
                key_data: None,
                status: KeyStatusType::Disabled,
                key_id: 1,
                output_prefix_type: OutputPrefixType::Raw,
            },
        ],
    };
    assert_eq!(
        expect_err(KeysetHandle::from_keyset(dup)),
        TinkError::ValidationError
    );
}

#[test]
fn new_no_secrets_rejects_live_secret_material() {
    let ks = Keyset {
        primary_key_id: 1,
        key: vec![Key {
            key_data: Some(KeyData {
                type_url: b"t".to_vec(),
                value: vec![1, 2, 3],
                key_material_type: KeyMaterialType::Symmetric,
            }),
            status: KeyStatusType::Enabled,
            key_id: 1,
            output_prefix_type: OutputPrefixType::Tink,
        }],
    };
    let reader = BinaryKeysetReader(encode_keyset(&ks));
    assert_eq!(
        expect_err(KeysetHandle::new_no_secrets(reader)),
        TinkError::DecryptionError
    );
}

#[test]
fn new_no_secrets_reports_read_errors() {
    let reader = BinaryKeysetReader(vec![0xff, 0xff, 0xff]);
    assert_eq!(
        expect_err(KeysetHandle::new_no_secrets(reader)),
        TinkError::KeysetReadError(tink_core::keysets::ReadError)
    );
}

#[test]
fn new_no_secrets_accepts_empty_secret_values() {
    let ks = Keyset {
        primary_key_id: 1,
        key: vec![
            Key {
                key_data: Some(KeyData {
                    type_url: b"t".to_vec(),
                    value: vec![],
                    key_material_type: KeyMaterialType::Symmetric,
                }),
                status: KeyStatusType::Enabled,
                key_id: 1,
                output_prefix_type: OutputPrefixType::Tink,
            },
            Key {
                key_data: Some(KeyData {
                    type_url: b"t".to_vec(),
                    value: vec![4, 5],
                    key_material_type: KeyMaterialType::AsymmetricPublic,
                }),
                status: KeyStatusType::Disabled,
                key_id: 2,
                output_prefix_type: OutputPrefixType::Raw,
            },
        ],
    };
    let reader = BinaryKeysetReader(encode_keyset(&ks));
    let handle = KeysetHandle::new_no_secrets(reader).unwrap();
    assert_eq!(handle.keyset_info().key_info.len(), 2);
}

#[test]
fn keyset_info_never_carries_key_material() {
    let template = AeadKeyTemplates::aes_256_gcm();
    let handle = KeysetHandle::generate_new(&template).unwrap();
    let info = handle.keyset_info();
    // The redacted projection has only metadata fields; check them.
    assert_eq!(info.primary_key_id, 1);
    assert_eq!(info.key_info[0].key_id, 1);
    assert_eq!(info.key_info[0].output_prefix_type, OutputPrefixType::Tink);
}
