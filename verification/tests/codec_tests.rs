use tink_core::codec::{
    decode_aes_gcm_key, decode_aes_gcm_key_format, decode_encrypted_keyset, decode_keyset,
    encode_aes_gcm_key, encode_aes_gcm_key_format, encode_encrypted_keyset, encode_keyset,
};
use tink_core::protos::{
    AesGcmKey, AesGcmKeyFormat, EncryptedKeyset, Key, KeyData, KeyInfo, KeyMaterialType,
    KeyStatusType, Keyset, KeysetInfo, OutputPrefixType,
};
use tink_core::TinkError;

fn sample_keyset() -> Keyset {
    Keyset {
        primary_key_id: 1,
        key: vec![
            Key {
                key_data: Some(KeyData {
                    type_url: b"type.googleapis.com/google.crypto.tink.AesGcmKey".to_vec(),
                    value: vec![0x1a, 0x02, 0xab, 0xcd],
                    key_material_type: KeyMaterialType::Symmetric,
                }),
                status: KeyStatusType::Enabled,
                key_id: 1,
                output_prefix_type: OutputPrefixType::Tink,
            },
            Key {
                key_data: None,
                status: KeyStatusType::Destroyed,
                key_id: 2,
                output_prefix_type: OutputPrefixType::Raw,
            },
        ],
    }
}

#[test]
fn aes_gcm_key_format_wire_bytes() {
    let format = AesGcmKeyFormat {
        key_size: 32,
        version: 0,
    };
    // Field 2 (key_size) as a varint; the zero version field is omitted.
    assert_eq!(encode_aes_gcm_key_format(&format), vec![0x10, 0x20]);
    let format2 = AesGcmKeyFormat {
        key_size: 300,
        version: 1,
    };
    assert_eq!(
        encode_aes_gcm_key_format(&format2),
        vec![0x10, 0xac, 0x02, 0x18, 0x01]
    );
}

#[test]
fn aes_gcm_key_format_round_trip() {
    for format in [
        AesGcmKeyFormat {
            key_size: 0,
            version: 0,
        },
        AesGcmKeyFormat {
            key_size: 16,
            version: 3,
        },
        AesGcmKeyFormat {
            key_size: u32::MAX,
            version: u32::MAX,
        },
    ] {
        let bytes = encode_aes_gcm_key_format(&format);
        assert_eq!(decode_aes_gcm_key_format(&bytes), Ok(format));
    }
}

#[test]
fn aes_gcm_key_wire_bytes_and_round_trip() {
    let key = AesGcmKey {
        version: 0,
        key_value: vec![0xab, 0xcd],
    };
    let bytes = encode_aes_gcm_key(&key);
    assert_eq!(bytes, vec![0x1a, 0x02, 0xab, 0xcd]);
    assert_eq!(decode_aes_gcm_key(&bytes), Ok(key));
}

#[test]
fn keyset_round_trip() {
    let ks = sample_keyset();
    let bytes = encode_keyset(&ks);
    assert_eq!(decode_keyset(&bytes), Ok(ks));
}

#[test]
fn keyset_wire_bytes() {
    let ks = Keyset {
        primary_key_id: 1,
        key: vec![Key {
            key_data: Some(KeyData {
                type_url: b"t".to_vec(),
                value: b"v".to_vec(),
                key_material_type: KeyMaterialType::Symmetric,
            }),
            status: KeyStatusType::Enabled,
            key_id: 1,
            output_prefix_type: OutputPrefixType::Tink,
        }],
    };
    let expected = vec![
        0x08, 0x01, // primary_key_id = 1
        0x12, 0x10, // one key block of 16 bytes
        0x0a, 0x08, // key_data block of 8 bytes
        0x0a, 0x01, b't', // type_url
        0x12, 0x01, b'v', // value
        0x18, 0x01, // key_material_type = SYMMETRIC
        0x10, 0x01, // status = ENABLED
        0x18, 0x01, // key_id = 1
        0x20, 0x01, // output_prefix_type = TINK
    ];
    assert_eq!(encode_keyset(&ks), expected);
}

#[test]
fn keyset_decode_rejects_garbage() {
    assert_eq!(
        decode_keyset(&[0xff, 0xff, 0xff]),
        Err(TinkError::ProtobufError)
    );
    // A trailing byte after the known fields is rejected.
    assert_eq!(
        decode_keyset(&[0x08, 0x01, 0x00]),
        Err(TinkError::ProtobufError)
    );
    // A truncated length-delimited field is rejected.
    assert_eq!(
        decode_keyset(&[0x12, 0x05, 0x00]),
        Err(TinkError::ProtobufError)
    );
}

#[test]
fn keyset_decode_accepts_omitted_fields() {
    // An empty buffer is the keyset with no keys and primary id zero.
    assert_eq!(
        decode_keyset(&[]),
        Ok(Keyset {
            primary_key_id: 0,
            key: vec![],
        })
    );
}

#[test]
fn encrypted_keyset_round_trip() {
    let e = EncryptedKeyset {
        encrypted_keyset: vec![1, 2, 3, 4],
        keyset_info: Some(KeysetInfo {
            primary_key_id: 7,
            key_info: vec![KeyInfo {
                type_url: b"t".to_vec(),
                status: KeyStatusType::Enabled,
                key_id: 7,
                output_prefix_type: OutputPrefixType::Tink,
            }],
        }),
    };
    let bytes = encode_encrypted_keyset(&e);
    assert_eq!(decode_encrypted_keyset(&bytes), Ok(e));
    let bare = EncryptedKeyset {
        encrypted_keyset: vec![9, 9],
        keyset_info: None,
    };
    let bytes2 = encode_encrypted_keyset(&bare);
    assert_eq!(bytes2, vec![0x12, 0x02, 9, 9]);
    assert_eq!(decode_encrypted_keyset(&bytes2), Ok(bare));
}
