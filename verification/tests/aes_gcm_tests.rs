use tink_core::aead::aes_gcm::{AesGcm, AesGcmFactory};
use tink_core::protos::{AesGcmKey, AesGcmKeyFormat, KeyMaterialType};

#[test]
fn basics() {
    assert_eq!(
        AesGcm::key_type(),
        "type.googleapis.com/google.crypto.tink.AesGcmKey"
    );
    assert_eq!(AesGcm::version(), 0);
    assert_eq!(AesGcm::key_material_type(), KeyMaterialType::Symmetric);
}

#[test]
fn validate_key_format_empty() {
    assert!(AesGcmFactory::validate_key_format(&AesGcmKeyFormat {
        key_size: 0,
        version: 0
    })
    .is_err())
}

#[test]
fn validate_key_format_valid() {
    assert!(AesGcmFactory::validate_key_format(&AesGcmFactory::aes_256()).is_ok())
}

#[test]
fn it_works() {
    assert_eq!(2 + 2, 4);
}

#[test]
fn testing() {}

#[test]
fn validate_key_format_sizes() {
    for size in [16u32, 32u32] {
        assert!(AesGcmFactory::validate_key_format(&AesGcmKeyFormat {
            key_size: size,
            version: 0
        })
        .is_ok());
    }
    for size in [0u32, 15, 17, 33] {
        let r = AesGcmFactory::validate_key_format(&AesGcmKeyFormat {
            key_size: size,
            version: 0,
        });
        assert_eq!(r, Err(tink_core::TinkError::ValidationError));
    }
}

#[test]
fn create_key_has_requested_size() {
    let format = AesGcmFactory::aes_256();
    let key = AesGcmFactory::create_key(&format);
    assert_eq!(key.version, 0);
    assert_eq!(key.key_value.len(), 32);
    let other = AesGcmFactory::create_key(&format);
    // Two generated keys agree only with negligible probability.
    assert_ne!(key.key_value, other.key_value);
}

#[test]
fn validate_key_checks_size_and_version() {
    let good = AesGcmKey {
        version: 0,
        key_value: vec![7u8; 32],
    };
    assert!(AesGcm::validate_key(&good).is_ok());
    let short = AesGcmKey {
        version: 0,
        key_value: vec![7u8; 15],
    };
    assert_eq!(
        AesGcm::validate_key(&short),
        Err(tink_core::TinkError::ValidationError)
    );
    let newer = AesGcmKey {
        version: 1,
        key_value: vec![7u8; 32],
    };
    assert_eq!(
        AesGcm::validate_key(&newer),
        Err(tink_core::TinkError::ValidationError)
    );
}

#[test]
fn aes_256_gcm_template_is_deterministic() {
    let a = tink_core::aead::AeadKeyTemplates::aes_256_gcm();
    let b = tink_core::aead::AeadKeyTemplates::aes_256_gcm();
    assert_eq!(a, b);
    assert_eq!(
        a.type_url,
        b"type.googleapis.com/google.crypto.tink.AesGcmKey".to_vec()
    );
    // key_size = 32 in field 2; the zero version field is omitted.
    assert_eq!(a.value, vec![0x10, 0x20]);
    assert_eq!(
        a.output_prefix_type,
        tink_core::protos::OutputPrefixType::Tink
    );
}

#[test]
fn rand_bytes_len_and_freshness() {
    let a = tink_core::rand_bytes(32);
    let b = tink_core::rand_bytes(32);
    assert_eq!(a.len(), 32);
    assert_eq!(b.len(), 32);
    assert_ne!(a, b);
    assert_eq!(tink_core::rand_bytes(0).len(), 0);
}
