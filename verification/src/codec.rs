//! Byte-exact serializers and parsers for the key and keyset messages
//! of the wire schema, with serialization proved invertible.
//!
//! Serialization is canonical: fields stand in ascending tag order and a
//! zero-valued scalar or empty bytes field is omitted. The parsers
//! accept exactly that canonical form (with any subset of fields
//! present) and reject anything else.
use vstd::prelude::*;

use crate::errors::TinkError;
use crate::protos::{
    EncryptedKeyset, EncryptedKeysetV, KeyInfo, KeyInfoV, KeysetInfo, KeysetInfoV,
};
use crate::protos::{
    key_material_type_from_u64, key_material_type_of_value, key_material_type_to_u32,
    key_material_type_value, key_status_type_from_u64, key_status_type_of_value,
    key_status_type_to_u32, key_status_type_value, lemma_enum_values_invert,
    output_prefix_type_from_u64, output_prefix_type_of_value, output_prefix_type_to_u32,
    output_prefix_type_value, AesGcmKey, AesGcmKeyFormat, AesGcmKeyV, Key, KeyData, KeyDataV, KeyV,
    Keyset, KeysetV,
};
use crate::wire::{
    lemma_parse_field_bytes_of_ser, lemma_parse_field_msg_of_ser, lemma_parse_field_varint_of_ser,
    lemma_parse_varint_rec_advances, parse_field_bytes, parse_field_msg, parse_field_varint,
    read_field_bytes, read_field_msg, read_field_varint, ser_field_bytes, ser_field_msg,
    ser_field_varint, ser_opt_field_msg, write_field_bytes, write_field_msg, write_field_varint,
};

verus! {

/// Wire form of an `AesGcmKeyFormat`: key_size then version.
pub open spec fn ser_aes_gcm_key_format(f: AesGcmKeyFormat) -> Seq<u8> {
    ser_field_varint(0x10, f.key_size as nat) + ser_field_varint(0x18, f.version as nat)
}

/// Reads an `AesGcmKeyFormat` from a whole buffer.
pub open spec fn parse_aes_gcm_key_format(s: Seq<u8>) -> Option<AesGcmKeyFormat> {
    match parse_field_varint(s, 0, 0x10) {
        Some((ks, i)) => match parse_field_varint(s, i, 0x18) {
            Some((v, j)) => if j == s.len() && ks <= u32::MAX && v <= u32::MAX {
                Some(AesGcmKeyFormat { key_size: ks as u32, version: v as u32 })
            } else {
                None
            },
            None => None,
        },
        None => None,
    }
}

/// Parsing reads back exactly what serialization wrote.
pub proof fn lemma_aes_gcm_key_format_round_trip(f: AesGcmKeyFormat)
    ensures
        parse_aes_gcm_key_format(ser_aes_gcm_key_format(f)) == Some(f),
{
    let a = ser_field_varint(0x10, f.key_size as nat);
    let b = ser_field_varint(0x18, f.version as nat);
    let s = ser_aes_gcm_key_format(f);
    assert(s.subrange(0, a.len() as int) =~= a);
    lemma_parse_field_varint_of_ser(s, 0, 0x10, f.key_size as nat);
    assert(s.subrange(a.len() as int, (a.len() + b.len()) as int) =~= b);
    lemma_parse_field_varint_of_ser(s, a.len() as int, 0x18, f.version as nat);
}

/// Serializes an `AesGcmKeyFormat`.
pub fn encode_aes_gcm_key_format(f: &AesGcmKeyFormat) -> (r: Vec<u8>)
    ensures
        r@ == ser_aes_gcm_key_format(*f),
{
    let mut buf: Vec<u8> = Vec::new();
    write_field_varint(&mut buf, 0x10, f.key_size as u64);
    write_field_varint(&mut buf, 0x18, f.version as u64);
    assert(buf@ =~= ser_aes_gcm_key_format(*f));
    buf
}

/// Parses an `AesGcmKeyFormat`; fails with `ProtobufError` exactly on
/// the buffers the wire reading rejects.
pub fn decode_aes_gcm_key_format(s: &[u8]) -> (r: Result<AesGcmKeyFormat, TinkError>)
    ensures
        r matches Ok(f) ==> parse_aes_gcm_key_format(s@) == Some(f),
        r is Err ==> parse_aes_gcm_key_format(s@) is None,
        r matches Err(e) ==> e == TinkError::ProtobufError,
{
    let slen: usize = s.len();
    if let Some((ks, i)) = read_field_varint(s, 0, 0x10) {
        if let Some((v, j)) = read_field_varint(s, i, 0x18) {
            if j == slen && ks <= u32::MAX as u64 && v <= u32::MAX as u64 {
                return Ok(AesGcmKeyFormat { key_size: ks as u32, version: v as u32 });
            }
        }
    }
    Err(TinkError::ProtobufError)
}

/// Wire form of an `AesGcmKey`: version then the raw key bytes.
pub open spec fn ser_aes_gcm_key(k: AesGcmKeyV) -> Seq<u8> {
    ser_field_varint(0x08, k.version as nat) + ser_field_bytes(0x1a, k.key_value)
}

/// Reads an `AesGcmKey` from a whole buffer.
pub open spec fn parse_aes_gcm_key(s: Seq<u8>) -> Option<AesGcmKeyV> {
    match parse_field_varint(s, 0, 0x08) {
        Some((v, i)) => match parse_field_bytes(s, i, 0x1a) {
            Some((kv, j)) => if j == s.len() && v <= u32::MAX {
                Some(AesGcmKeyV { version: v as u32, key_value: kv })
            } else {
                None
            },
            None => None,
        },
        None => None,
    }
}

/// Parsing reads back exactly what serialization wrote.
pub proof fn lemma_aes_gcm_key_round_trip(k: AesGcmKeyV)
    requires
        k.key_value.len() <= u64::MAX,
    ensures
        parse_aes_gcm_key(ser_aes_gcm_key(k)) == Some(k),
{
    let a = ser_field_varint(0x08, k.version as nat);
    let b = ser_field_bytes(0x1a, k.key_value);
    let s = ser_aes_gcm_key(k);
    assert(s.subrange(0, a.len() as int) =~= a);
    lemma_parse_field_varint_of_ser(s, 0, 0x08, k.version as nat);
    assert(s.subrange(a.len() as int, (a.len() + b.len()) as int) =~= b);
    lemma_parse_field_bytes_of_ser(s, a.len() as int, 0x1a, k.key_value);
    assert(parse_aes_gcm_key(s) == Some(AesGcmKeyV { version: k.version, key_value: k.key_value }));
    assert(AesGcmKeyV { version: k.version, key_value: k.key_value } =~= k);
}

/// Serializes an `AesGcmKey`.
pub fn encode_aes_gcm_key(k: &AesGcmKey) -> (r: Vec<u8>)
    ensures
        r@ == ser_aes_gcm_key(k@),
{
    let mut buf: Vec<u8> = Vec::new();
    write_field_varint(&mut buf, 0x08, k.version as u64);
    write_field_bytes(&mut buf, 0x1a, k.key_value.as_slice());
    assert(buf@ =~= ser_aes_gcm_key(k@));
    buf
}

/// Parses an `AesGcmKey`; fails with `ProtobufError` exactly on the
/// buffers the wire reading rejects.
pub fn decode_aes_gcm_key(s: &[u8]) -> (r: Result<AesGcmKey, TinkError>)
    ensures
        r matches Ok(k) ==> parse_aes_gcm_key(s@) == Some(k@),
        r is Err ==> parse_aes_gcm_key(s@) is None,
        r matches Err(e) ==> e == TinkError::ProtobufError,
{
    let slen: usize = s.len();
    if let Some((v, i)) = read_field_varint(s, 0, 0x08) {
        if let Some((kv, j)) = read_field_bytes(s, i, 0x1a) {
            if j == slen && v <= u32::MAX as u64 {
                let k = AesGcmKey { version: v as u32, key_value: kv };
                assert(parse_aes_gcm_key(s@) == Some(k@));
                return Ok(k);
            }
        }
    }
    Err(TinkError::ProtobufError)
}

/// Wire form of a `KeyData`: type_url, value, key_material_type.
pub open spec fn ser_key_data(kd: KeyDataV) -> Seq<u8> {
    ser_field_bytes(0x0a, kd.type_url) + ser_field_bytes(0x12, kd.value) + ser_field_varint(
        0x18,
        key_material_type_value(kd.key_material_type) as nat,
    )
}

/// Reads a `KeyData` from a whole buffer.
pub open spec fn parse_key_data(s: Seq<u8>) -> Option<KeyDataV> {
    match parse_field_bytes(s, 0, 0x0a) {
        Some((url, i)) => match parse_field_bytes(s, i, 0x12) {
            Some((value, j)) => match parse_field_varint(s, j, 0x18) {
                Some((m, e)) => if e == s.len() {
                    match key_material_type_of_value(m) {
                        Some(kmt) => Some(
                            KeyDataV { type_url: url, value: value, key_material_type: kmt },
                        ),
                        None => None,
                    }
                } else {
                    None
                },
                None => None,
            },
            None => None,
        },
        None => None,
    }
}

/// Parsing reads back exactly what serialization wrote.
pub proof fn lemma_key_data_round_trip(kd: KeyDataV)
    requires
        kd.type_url.len() <= u64::MAX,
        kd.value.len() <= u64::MAX,
    ensures
        parse_key_data(ser_key_data(kd)) == Some(kd),
{
    let a = ser_field_bytes(0x0a, kd.type_url);
    let b = ser_field_bytes(0x12, kd.value);
    let c = ser_field_varint(0x18, key_material_type_value(kd.key_material_type) as nat);
    let s = ser_key_data(kd);
    assert(s =~= a + b + c);
    assert(s.subrange(0, a.len() as int) =~= a);
    lemma_parse_field_bytes_of_ser(s, 0, 0x0a, kd.type_url);
    assert(s.subrange(a.len() as int, (a.len() + b.len()) as int) =~= b);
    lemma_parse_field_bytes_of_ser(s, a.len() as int, 0x12, kd.value);
    assert(s.subrange((a.len() + b.len()) as int, (a.len() + b.len() + c.len()) as int) =~= c);
    lemma_parse_field_varint_of_ser(
        s,
        (a.len() + b.len()) as int,
        0x18,
        key_material_type_value(kd.key_material_type) as nat,
    );
    lemma_enum_values_invert();
    assert(parse_key_data(s) == Some(
        KeyDataV {
            type_url: kd.type_url,
            value: kd.value,
            key_material_type: kd.key_material_type,
        },
    ));
    assert(KeyDataV {
        type_url: kd.type_url,
        value: kd.value,
        key_material_type: kd.key_material_type,
    } =~= kd);
}

/// Serializes a `KeyData`.
pub fn encode_key_data(kd: &KeyData) -> (r: Vec<u8>)
    ensures
        r@ == ser_key_data(kd@),
{
    let mut buf: Vec<u8> = Vec::new();
    write_field_bytes(&mut buf, 0x0a, kd.type_url.as_slice());
    write_field_bytes(&mut buf, 0x12, kd.value.as_slice());
    let m = key_material_type_to_u32(kd.key_material_type);
    write_field_varint(&mut buf, 0x18, m as u64);
    assert(buf@ =~= ser_key_data(kd@));
    buf
}

/// Parses a `KeyData`; fails with `ProtobufError` exactly on the
/// buffers the wire reading rejects.
pub fn decode_key_data(s: &[u8]) -> (r: Result<KeyData, TinkError>)
    ensures
        r matches Ok(kd) ==> parse_key_data(s@) == Some(kd@),
        r is Err ==> parse_key_data(s@) is None,
        r matches Err(e) ==> e == TinkError::ProtobufError,
{
    let slen: usize = s.len();
    if let Some((url, i)) = read_field_bytes(s, 0, 0x0a) {
        if let Some((value, j)) = read_field_bytes(s, i, 0x12) {
            if let Some((m, e)) = read_field_varint(s, j, 0x18) {
                if e == slen {
                    if let Some(kmt) = key_material_type_from_u64(m) {
                        let kd = KeyData { type_url: url, value: value, key_material_type: kmt };
                        assert(parse_key_data(s@) == Some(kd@));
                        return Ok(kd);
                    }
                }
            }
        }
    }
    Err(TinkError::ProtobufError)
}

/// The serialized `KeyData` inside a key, where one is present.
pub open spec fn ser_key_data_opt(kd: Option<KeyDataV>) -> Option<Seq<u8>> {
    match kd {
        Some(d) => Some(ser_key_data(d)),
        None => None,
    }
}

/// Wire form of a `Key`: key_data, status, key_id, output_prefix_type.
pub open spec fn ser_key_msg(k: KeyV) -> Seq<u8> {
    ser_opt_field_msg(0x0a, ser_key_data_opt(k.key_data)) + ser_field_varint(
        0x10,
        key_status_type_value(k.status) as nat,
    ) + ser_field_varint(0x18, k.key_id as nat) + ser_field_varint(
        0x20,
        output_prefix_type_value(k.output_prefix_type) as nat,
    )
}

/// Reads a `Key` from a whole buffer.
pub open spec fn parse_key_msg(s: Seq<u8>) -> Option<KeyV> {
    match parse_field_msg(s, 0, 0x0a) {
        Some((body, i)) => {
            let kdo = match body {
                Some(b) => match parse_key_data(b) {
                    Some(kd) => Some(Some(kd)),
                    None => None,
                },
                None => Some(None),
            };
            match kdo {
                Some(kd) => match parse_field_varint(s, i, 0x10) {
                    Some((st, j)) => match parse_field_varint(s, j, 0x18) {
                        Some((id, l)) => match parse_field_varint(s, l, 0x20) {
                            Some((pf, e)) => if e == s.len() && id <= u32::MAX {
                                match (key_status_type_of_value(st), output_prefix_type_of_value(
                                    pf,
                                )) {
                                    (Some(status), Some(prefix)) => Some(
                                        KeyV {
                                            key_data: kd,
                                            status: status,
                                            key_id: id as u32,
                                            output_prefix_type: prefix,
                                        },
                                    ),
                                    _ => None,
                                }
                            } else {
                                None
                            },
                            None => None,
                        },
                        None => None,
                    },
                    None => None,
                },
                None => None,
            }
        },
        None => None,
    }
}

/// Lengths under which a `KeyData` serializes within the wire limits.
pub open spec fn key_data_bounded(kd: KeyDataV) -> bool {
    &&& kd.type_url.len() <= u64::MAX
    &&& kd.value.len() <= u64::MAX
    &&& ser_key_data(kd).len() <= u64::MAX
}

/// Lengths under which a `Key` serializes within the wire limits.
pub open spec fn key_bounded(k: KeyV) -> bool {
    match k.key_data {
        Some(kd) => key_data_bounded(kd),
        None => true,
    }
}

/// Parsing reads back exactly what serialization wrote.
#[verifier::rlimit(100)]
pub proof fn lemma_key_round_trip(k: KeyV)
    requires
        key_bounded(k),
    ensures
        parse_key_msg(ser_key_msg(k)) == Some(k),
{
    let bodyopt = ser_key_data_opt(k.key_data);
    let a = ser_opt_field_msg(0x0a, bodyopt);
    let b = ser_field_varint(0x10, key_status_type_value(k.status) as nat);
    let c = ser_field_varint(0x18, k.key_id as nat);
    let d = ser_field_varint(0x20, output_prefix_type_value(k.output_prefix_type) as nat);
    let s = ser_key_msg(k);
    assert(s =~= a + b + c + d);
    if a.len() == 0 && s.len() > 0 {
        if b.len() > 0 {
            assert(s[0] == b[0]);
        } else if c.len() > 0 {
            assert(s[0] == c[0]);
        } else {
            assert(s[0] == d[0]);
        }
    }
    assert(s.subrange(0, a.len() as int) =~= a);
    lemma_parse_field_msg_of_ser(s, 0, 0x0a, bodyopt);
    match k.key_data {
        Some(kd) => {
            lemma_key_data_round_trip(kd);
        },
        None => {},
    }
    let i = a.len() as int;
    if b.len() == 0 && i < s.len() {
        if c.len() > 0 {
            assert(s[i] == c[0]);
        } else {
            assert(s[i] == d[0]);
        }
    }
    assert(s.subrange(i, i + b.len()) =~= b);
    lemma_parse_field_varint_of_ser(s, i, 0x10, key_status_type_value(k.status) as nat);
    let j = i + b.len();
    if c.len() == 0 && j < s.len() {
        assert(s[j] == d[0]);
    }
    assert(s.subrange(j, j + c.len()) =~= c);
    lemma_parse_field_varint_of_ser(s, j, 0x18, k.key_id as nat);
    let l = j + c.len();
    assert(s.subrange(l, l + d.len()) =~= d);
    lemma_parse_field_varint_of_ser(
        s,
        l,
        0x20,
        output_prefix_type_value(k.output_prefix_type) as nat,
    );
    lemma_enum_values_invert();
    assert(parse_key_msg(s) == Some(
        KeyV {
            key_data: k.key_data,
            status: k.status,
            key_id: k.key_id,
            output_prefix_type: k.output_prefix_type,
        },
    ));
    assert(KeyV {
        key_data: k.key_data,
        status: k.status,
        key_id: k.key_id,
        output_prefix_type: k.output_prefix_type,
    } =~= k);
}

/// Serializes a `Key`.
pub fn encode_key(k: &Key) -> (r: Vec<u8>)
    ensures
        r@ == ser_key_msg(k@),
{
    let mut buf: Vec<u8> = Vec::new();
    match &k.key_data {
        Some(kd) => {
            let body = encode_key_data(kd);
            write_field_msg(&mut buf, 0x0a, body.as_slice());
        },
        None => {},
    }
    let st = key_status_type_to_u32(k.status);
    write_field_varint(&mut buf, 0x10, st as u64);
    write_field_varint(&mut buf, 0x18, k.key_id as u64);
    let pf = output_prefix_type_to_u32(k.output_prefix_type);
    write_field_varint(&mut buf, 0x20, pf as u64);
    assert(buf@ =~= ser_key_msg(k@));
    buf
}

/// Parses a `Key`; fails with `ProtobufError` exactly on the buffers
/// the wire reading rejects.
pub fn decode_key(s: &[u8]) -> (r: Result<Key, TinkError>)
    ensures
        r matches Ok(k) ==> parse_key_msg(s@) == Some(k@),
        r is Err ==> parse_key_msg(s@) is None,
        r matches Err(e) ==> e == TinkError::ProtobufError,
{
    let slen: usize = s.len();
    if let Some((w, i)) = read_field_msg(s, 0, 0x0a) {
        let kd: Option<KeyData> = match w {
            Some((a, b)) => {
                let body = vstd::slice::slice_subrange(s, a, b);
                match decode_key_data(body) {
                    Ok(d) => Some(d),
                    Err(_) => {
                        return Err(TinkError::ProtobufError);
                    },
                }
            },
            None => None,
        };
        if let Some((st, j)) = read_field_varint(s, i, 0x10) {
            if let Some((id, l)) = read_field_varint(s, j, 0x18) {
                if let Some((pf, e)) = read_field_varint(s, l, 0x20) {
                    if e == slen && id <= u32::MAX as u64 {
                        if let Some(status) = key_status_type_from_u64(st) {
                            if let Some(prefix) = output_prefix_type_from_u64(pf) {
                                let k = Key {
                                    key_data: kd,
                                    status: status,
                                    key_id: id as u32,
                                    output_prefix_type: prefix,
                                };
                                assert(parse_key_msg(s@) == Some(k@));
                                return Ok(k);
                            }
                        }
                    }
                }
            }
        }
    }
    Err(TinkError::ProtobufError)
}

/// Wire form of the repeated key field of a `Keyset`, in order.
pub open spec fn ser_keys(keys: Seq<KeyV>) -> Seq<u8>
    decreases keys.len(),
{
    if keys.len() == 0 {
        seq![]
    } else {
        ser_field_msg(0x12, ser_key_msg(keys[0])) + ser_keys(keys.drop_first())
    }
}

/// Wire form of a `Keyset`: primary_key_id then the keys in order.
pub open spec fn ser_keyset(ks: KeysetV) -> Seq<u8> {
    ser_field_varint(0x08, ks.primary_key_id as nat) + ser_keys(ks.key)
}

/// Reads the repeated key field from `i` on, as long as key blocks
/// stand there.
pub open spec fn parse_keys(s: Seq<u8>, i: int) -> Option<(Seq<KeyV>, int)>
    decreases s.len() - i,
{
    if 0 <= i < s.len() && s[i] == 0x12 {
        match parse_field_msg(s, i, 0x12) {
            Some((Some(body), j)) => if i < j <= s.len() {
                match parse_key_msg(body) {
                    Some(k) => match parse_keys(s, j) {
                        Some((rest, e)) => Some((seq![k] + rest, e)),
                        None => None,
                    },
                    None => None,
                }
            } else {
                None
            },
            _ => None,
        }
    } else {
        Some((seq![], i))
    }
}

/// Reads a `Keyset` from a whole buffer.
pub open spec fn parse_keyset(s: Seq<u8>) -> Option<KeysetV> {
    match parse_field_varint(s, 0, 0x08) {
        Some((p, i)) => match parse_keys(s, i) {
            Some((keys, e)) => if e == s.len() && p <= u32::MAX {
                Some(KeysetV { primary_key_id: p as u32, key: keys })
            } else {
                None
            },
            None => None,
        },
        None => None,
    }
}

/// Lengths under which a `Keyset` serializes within the wire limits.
pub open spec fn keyset_bounded(ks: KeysetV) -> bool {
    forall|i: int|
        0 <= i < ks.key.len() ==> #[trigger] key_bounded(ks.key[i]) && ser_key_msg(
            ks.key[i],
        ).len() <= u64::MAX
}

/// Reading the repeated key field back from where it was written
/// yields the written keys, when the field runs to the end of the
/// buffer, as it does in a `Keyset`.
#[verifier::rlimit(100)]
pub proof fn lemma_parse_keys_of_ser(pre: Seq<u8>, keys: Seq<KeyV>)
    requires
        forall|n: int|
            0 <= n < keys.len() ==> #[trigger] key_bounded(keys[n]) && ser_key_msg(
                keys[n],
            ).len() <= u64::MAX,
    ensures
        parse_keys(pre + ser_keys(keys), pre.len() as int) == Some(
            (keys, pre.len() + ser_keys(keys).len() as int),
        ),
    decreases keys.len(),
{
    let s = pre + ser_keys(keys);
    let i = pre.len() as int;
    if keys.len() == 0 {
        assert(s =~= pre);
        assert(keys =~= Seq::<KeyV>::empty());
        assert(parse_keys(s, i) == Some((Seq::<KeyV>::empty(), i)));
    } else {
        assert(key_bounded(keys[0]) && ser_key_msg(keys[0]).len() <= u64::MAX);
        let body = ser_key_msg(keys[0]);
        let h = ser_field_msg(0x12, body);
        let t = ser_keys(keys.drop_first());
        assert(ser_keys(keys) == h + t);
        assert(s[i] == (h + t)[0]);
        assert((h + t)[0] == h[0]);
        assert(h[0] == 0x12);
        assert(s.subrange(i, i + h.len()) =~= h);
        lemma_parse_field_msg_of_ser(s, i, 0x12, Some(body));
        lemma_key_round_trip(keys[0]);
        let j = i + h.len();
        lemma_parse_keys_of_ser(pre + h, keys.drop_first());
        assert((pre + h) + t =~= s);
        assert(parse_keys(s, j) == Some((keys.drop_first(), j + t.len())));
        assert(seq![keys[0]] + keys.drop_first() =~= keys);
        assert(j + t.len() == pre.len() + ser_keys(keys).len());
    }
}

/// Parsing reads back exactly what serialization wrote: serialization
/// of a keyset is invertible.
pub proof fn lemma_keyset_round_trip(ks: KeysetV)
    requires
        keyset_bounded(ks),
    ensures
        parse_keyset(ser_keyset(ks)) == Some(ks),
{
    let a = ser_field_varint(0x08, ks.primary_key_id as nat);
    let t = ser_keys(ks.key);
    let s = ser_keyset(ks);
    assert(s =~= a + t);
    if a.len() == 0 && s.len() > 0 {
        assert(t.len() > 0);
        assert(ks.key.len() > 0);
        assert(s[0] == ser_field_msg(0x12, ser_key_msg(ks.key[0]))[0]);
    }
    assert(s.subrange(0, a.len() as int) =~= a);
    lemma_parse_field_varint_of_ser(s, 0, 0x08, ks.primary_key_id as nat);
    lemma_parse_keys_of_ser(a, ks.key);
    assert(parse_keys(s, a.len() as int) == Some((ks.key, s.len() as int)));
    assert(parse_keyset(s) == Some(KeysetV { primary_key_id: ks.primary_key_id, key: ks.key }));
    assert(KeysetV { primary_key_id: ks.primary_key_id, key: ks.key } =~= ks);
}

/// Appending one more key extends the wire form by one key block.
pub proof fn lemma_ser_keys_snoc(keys: Seq<KeyV>, k: KeyV)
    ensures
        ser_keys(keys.push(k)) == ser_keys(keys) + ser_field_msg(0x12, ser_key_msg(k)),
    decreases keys.len(),
{
    let p = keys.push(k);
    if keys.len() == 0 {
        assert(p[0] == k);
        assert(p.drop_first() =~= Seq::<KeyV>::empty());
        assert(ser_keys(p.drop_first()) == Seq::<u8>::empty());
        assert(ser_keys(p) == ser_field_msg(0x12, ser_key_msg(k)) + Seq::<u8>::empty());
        assert(ser_keys(keys) == Seq::<u8>::empty());
        assert(ser_field_msg(0x12, ser_key_msg(k)) + Seq::<u8>::empty() =~= Seq::<u8>::empty()
            + ser_field_msg(0x12, ser_key_msg(k)));
    } else {
        lemma_ser_keys_snoc(keys.drop_first(), k);
        assert(p.drop_first() =~= keys.drop_first().push(k));
        assert(p[0] == keys[0]);
        assert(ser_keys(p) == ser_field_msg(0x12, ser_key_msg(p[0])) + ser_keys(p.drop_first()));
        assert(ser_keys(p.drop_first()) == ser_keys(keys.drop_first()) + ser_field_msg(
            0x12,
            ser_key_msg(k),
        ));
        assert(ser_keys(keys) == ser_field_msg(0x12, ser_key_msg(keys[0])) + ser_keys(
            keys.drop_first(),
        ));
        assert(ser_field_msg(0x12, ser_key_msg(keys[0])) + (ser_keys(keys.drop_first())
            + ser_field_msg(0x12, ser_key_msg(k))) =~= (ser_field_msg(0x12, ser_key_msg(keys[0]))
            + ser_keys(keys.drop_first())) + ser_field_msg(0x12, ser_key_msg(k)));
    }
}

/// Serializes a `Keyset`.
pub fn encode_keyset(ks: &Keyset) -> (r: Vec<u8>)
    ensures
        r@ == ser_keyset(ks@),
{
    let mut buf: Vec<u8> = Vec::new();
    write_field_varint(&mut buf, 0x08, ks.primary_key_id as u64);
    let ghost a = ser_field_varint(0x08, ks.primary_key_id as nat);
    let mut n: usize = 0;
    while n < ks.key.len()
        invariant
            n <= ks.key.len(),
            buf@ == a + ser_keys(ks@.key.subrange(0, n as int)),
        decreases ks.key.len() - n,
    {
        let body = encode_key(&ks.key[n]);
        write_field_msg(&mut buf, 0x12, body.as_slice());
        proof {
            lemma_ser_keys_snoc(ks@.key.subrange(0, n as int), ks@.key[n as int]);
            assert(ks@.key.subrange(0, n as int).push(ks@.key[n as int]) =~= ks@.key.subrange(
                0,
                n as int + 1,
            ));
        }
        n = n + 1;
    }
    proof {
        assert(ks@.key.subrange(0, ks.key@.len() as int) =~= ks@.key);
        assert(buf@ =~= ser_keyset(ks@));
    }
    buf
}

/// Parses a `Keyset`; fails with `ProtobufError` exactly on the
/// buffers the wire reading rejects.
pub fn decode_keyset(s: &[u8]) -> (r: Result<Keyset, TinkError>)
    ensures
        r matches Ok(ks) ==> parse_keyset(s@) == Some(ks@),
        r is Err ==> parse_keyset(s@) is None,
        r matches Err(e) ==> e == TinkError::ProtobufError,
{
    let slen: usize = s.len();
    if let Some((p, start)) = read_field_varint(s, 0, 0x08) {
        let mut keys: Vec<Key> = Vec::new();
        let mut i: usize = start;
        while i < slen && s[i] == 0x12
            invariant
                start <= i <= slen,
                slen == s@.len(),
                parse_field_varint(s@, 0, 0x08) == Some((p as nat, start as int)),
                match parse_keys(s@, i as int) {
                    Some((rest, e)) => parse_keys(s@, start as int) == Some(
                        (keys@.map_values(|k: Key| k@) + rest, e),
                    ),
                    None => parse_keys(s@, start as int) is None,
                },
            decreases slen - i,
        {
            match read_field_msg(s, i, 0x12) {
                Some((w, j)) => {
                    match w {
                        Some((a, b)) => {
                            proof {
                                lemma_parse_varint_rec_advances(s@, i as int + 1, 10);
                            }
                            let body = vstd::slice::slice_subrange(s, a, b);
                            match decode_key(body) {
                                Ok(k) => {
                                    proof {
                                        assert(keys@.push(k).map_values(|x: Key| x@)
                                            =~= keys@.map_values(|x: Key| x@) + seq![k@]);
                                    }
                                    let ghost prev = keys@.map_values(|x: Key| x@);
                                    keys.push(k);
                                    proof {
                                        let pk = parse_keys(s@, j as int);
                                        if pk is Some {
                                            let rest = pk->Some_0.0;
                                            let e = pk->Some_0.1;
                                            assert(parse_keys(s@, i as int) == Some(
                                                (seq![k@] + rest, e),
                                            ));
                                            assert(prev + (seq![k@] + rest) =~= (prev + seq![k@])
                                                + rest);
                                        }
                                    }
                                    i = j;
                                },
                                Err(_) => {
                                    return Err(TinkError::ProtobufError);
                                },
                            }
                        },
                        None => {
                            return Err(TinkError::ProtobufError);
                        },
                    }
                },
                None => {
                    return Err(TinkError::ProtobufError);
                },
            }
        }
        proof {
            assert(keys@.map_values(|k: Key| k@) + seq![] =~= keys@.map_values(|k: Key| k@));
        }
        if i == slen && p <= u32::MAX as u64 {
            let ks = Keyset { primary_key_id: p as u32, key: keys };
            assert(parse_keyset(s@) == Some(ks@));
            return Ok(ks);
        }
        return Err(TinkError::ProtobufError);
    }
    Err(TinkError::ProtobufError)
}

/// Wire form of a `KeyInfo`: type_url, status, key_id,
/// output_prefix_type.
pub open spec fn ser_key_info(ki: KeyInfoV) -> Seq<u8> {
    ser_field_bytes(0x0a, ki.type_url) + ser_field_varint(
        0x10,
        key_status_type_value(ki.status) as nat,
    ) + ser_field_varint(0x18, ki.key_id as nat) + ser_field_varint(
        0x20,
        output_prefix_type_value(ki.output_prefix_type) as nat,
    )
}

/// Reads a `KeyInfo` from a whole buffer.
pub open spec fn parse_key_info(s: Seq<u8>) -> Option<KeyInfoV> {
    match parse_field_bytes(s, 0, 0x0a) {
        Some((url, i)) => match parse_field_varint(s, i, 0x10) {
            Some((st, j)) => match parse_field_varint(s, j, 0x18) {
                Some((id, l)) => match parse_field_varint(s, l, 0x20) {
                    Some((pf, e)) => if e == s.len() && id <= u32::MAX {
                        match (key_status_type_of_value(st), output_prefix_type_of_value(pf)) {
                            (Some(status), Some(prefix)) => Some(
                                KeyInfoV {
                                    type_url: url,
                                    status: status,
                                    key_id: id as u32,
                                    output_prefix_type: prefix,
                                },
                            ),
                            _ => None,
                        }
                    } else {
                        None
                    },
                    None => None,
                },
                None => None,
            },
            None => None,
        },
        None => None,
    }
}

/// Lengths under which a `KeyInfo` serializes within the wire limits.
pub open spec fn key_info_bounded(ki: KeyInfoV) -> bool {
    &&& ki.type_url.len() <= u64::MAX
    &&& ser_key_info(ki).len() <= u64::MAX
}

/// Parsing reads back exactly what serialization wrote.
#[verifier::rlimit(100)]
pub proof fn lemma_key_info_round_trip(ki: KeyInfoV)
    requires
        key_info_bounded(ki),
    ensures
        parse_key_info(ser_key_info(ki)) == Some(ki),
{
    let a = ser_field_bytes(0x0a, ki.type_url);
    let b = ser_field_varint(0x10, key_status_type_value(ki.status) as nat);
    let c = ser_field_varint(0x18, ki.key_id as nat);
    let d = ser_field_varint(0x20, output_prefix_type_value(ki.output_prefix_type) as nat);
    let s = ser_key_info(ki);
    assert(s =~= a + b + c + d);
    if a.len() == 0 && s.len() > 0 {
        if b.len() > 0 {
            assert(s[0] == b[0]);
        } else if c.len() > 0 {
            assert(s[0] == c[0]);
        } else {
            assert(s[0] == d[0]);
        }
    }
    assert(s.subrange(0, a.len() as int) =~= a);
    lemma_parse_field_bytes_of_ser(s, 0, 0x0a, ki.type_url);
    let i = a.len() as int;
    if b.len() == 0 && i < s.len() {
        if c.len() > 0 {
            assert(s[i] == c[0]);
        } else {
            assert(s[i] == d[0]);
        }
    }
    assert(s.subrange(i, i + b.len()) =~= b);
    lemma_parse_field_varint_of_ser(s, i, 0x10, key_status_type_value(ki.status) as nat);
    let j = i + b.len();
    if c.len() == 0 && j < s.len() {
        assert(s[j] == d[0]);
    }
    assert(s.subrange(j, j + c.len()) =~= c);
    lemma_parse_field_varint_of_ser(s, j, 0x18, ki.key_id as nat);
    let l = j + c.len();
    assert(s.subrange(l, l + d.len()) =~= d);
    lemma_parse_field_varint_of_ser(
        s,
        l,
        0x20,
        output_prefix_type_value(ki.output_prefix_type) as nat,
    );
    lemma_enum_values_invert();
    assert(parse_key_info(s) == Some(
        KeyInfoV {
            type_url: ki.type_url,
            status: ki.status,
            key_id: ki.key_id,
            output_prefix_type: ki.output_prefix_type,
        },
    ));
    assert(KeyInfoV {
        type_url: ki.type_url,
        status: ki.status,
        key_id: ki.key_id,
        output_prefix_type: ki.output_prefix_type,
    } =~= ki);
}

/// Serializes a `KeyInfo`.
pub fn encode_key_info(ki: &KeyInfo) -> (r: Vec<u8>)
    ensures
        r@ == ser_key_info(ki@),
{
    let mut buf: Vec<u8> = Vec::new();
    write_field_bytes(&mut buf, 0x0a, ki.type_url.as_slice());
    let st = key_status_type_to_u32(ki.status);
    write_field_varint(&mut buf, 0x10, st as u64);
    write_field_varint(&mut buf, 0x18, ki.key_id as u64);
    let pf = output_prefix_type_to_u32(ki.output_prefix_type);
    write_field_varint(&mut buf, 0x20, pf as u64);
    assert(buf@ =~= ser_key_info(ki@));
    buf
}

/// Parses a `KeyInfo`; fails with `ProtobufError` exactly on the
/// buffers the wire reading rejects.
pub fn decode_key_info(s: &[u8]) -> (r: Result<KeyInfo, TinkError>)
    ensures
        r matches Ok(ki) ==> parse_key_info(s@) == Some(ki@),
        r is Err ==> parse_key_info(s@) is None,
        r matches Err(e) ==> e == TinkError::ProtobufError,
{
    let slen: usize = s.len();
    if let Some((url, i)) = read_field_bytes(s, 0, 0x0a) {
        if let Some((st, j)) = read_field_varint(s, i, 0x10) {
            if let Some((id, l)) = read_field_varint(s, j, 0x18) {
                if let Some((pf, e)) = read_field_varint(s, l, 0x20) {
                    if e == slen && id <= u32::MAX as u64 {
                        if let Some(status) = key_status_type_from_u64(st) {
                            if let Some(prefix) = output_prefix_type_from_u64(pf) {
                                let ki = KeyInfo {
                                    type_url: url,
                                    status: status,
                                    key_id: id as u32,
                                    output_prefix_type: prefix,
                                };
                                assert(parse_key_info(s@) == Some(ki@));
                                return Ok(ki);
                            }
                        }
                    }
                }
            }
        }
    }
    Err(TinkError::ProtobufError)
}

/// Wire form of the repeated key_info field of a `KeysetInfo`.
pub open spec fn ser_key_infos(kis: Seq<KeyInfoV>) -> Seq<u8>
    decreases kis.len(),
{
    if kis.len() == 0 {
        seq![]
    } else {
        ser_field_msg(0x12, ser_key_info(kis[0])) + ser_key_infos(kis.drop_first())
    }
}

/// Wire form of a `KeysetInfo`: primary_key_id then the entries.
pub open spec fn ser_keyset_info(ksi: KeysetInfoV) -> Seq<u8> {
    ser_field_varint(0x08, ksi.primary_key_id as nat) + ser_key_infos(ksi.key_info)
}

/// Reads the repeated key_info field from `i` on.
pub open spec fn parse_key_infos(s: Seq<u8>, i: int) -> Option<(Seq<KeyInfoV>, int)>
    decreases s.len() - i,
{
    if 0 <= i < s.len() && s[i] == 0x12 {
        match parse_field_msg(s, i, 0x12) {
            Some((Some(body), j)) => if i < j <= s.len() {
                match parse_key_info(body) {
                    Some(k) => match parse_key_infos(s, j) {
                        Some((rest, e)) => Some((seq![k] + rest, e)),
                        None => None,
                    },
                    None => None,
                }
            } else {
                None
            },
            _ => None,
        }
    } else {
        Some((seq![], i))
    }
}

/// Reads a `KeysetInfo` from a whole buffer.
pub open spec fn parse_keyset_info(s: Seq<u8>) -> Option<KeysetInfoV> {
    match parse_field_varint(s, 0, 0x08) {
        Some((p, i)) => match parse_key_infos(s, i) {
            Some((kis, e)) => if e == s.len() && p <= u32::MAX {
                Some(KeysetInfoV { primary_key_id: p as u32, key_info: kis })
            } else {
                None
            },
            None => None,
        },
        None => None,
    }
}

/// Lengths under which a `KeysetInfo` serializes within the wire
/// limits.
pub open spec fn keyset_info_bounded(ksi: KeysetInfoV) -> bool {
    forall|i: int|
        0 <= i < ksi.key_info.len() ==> #[trigger] key_info_bounded(ksi.key_info[i])
            && ser_field_msg(0x12, ser_key_info(ksi.key_info[i])).len() <= u64::MAX
}

/// Reading the repeated key_info field back from where it was written
/// yields the written entries.
#[verifier::rlimit(100)]
pub proof fn lemma_parse_key_infos_of_ser(pre: Seq<u8>, kis: Seq<KeyInfoV>)
    requires
        forall|n: int|
            0 <= n < kis.len() ==> #[trigger] key_info_bounded(kis[n]) && ser_field_msg(
                0x12,
                ser_key_info(kis[n]),
            ).len() <= u64::MAX,
    ensures
        parse_key_infos(pre + ser_key_infos(kis), pre.len() as int) == Some(
            (kis, pre.len() + ser_key_infos(kis).len() as int),
        ),
    decreases kis.len(),
{
    let s = pre + ser_key_infos(kis);
    let i = pre.len() as int;
    if kis.len() == 0 {
        assert(s =~= pre);
        assert(kis =~= Seq::<KeyInfoV>::empty());
        assert(parse_key_infos(s, i) == Some((Seq::<KeyInfoV>::empty(), i)));
    } else {
        assert(key_info_bounded(kis[0]) && ser_field_msg(0x12, ser_key_info(kis[0])).len()
            <= u64::MAX);
        let body = ser_key_info(kis[0]);
        let h = ser_field_msg(0x12, body);
        let t = ser_key_infos(kis.drop_first());
        assert(ser_key_infos(kis) == h + t);
        assert(s[i] == (h + t)[0]);
        assert((h + t)[0] == h[0]);
        assert(h[0] == 0x12);
        assert(s.subrange(i, i + h.len()) =~= h);
        lemma_parse_field_msg_of_ser(s, i, 0x12, Some(body));
        lemma_key_info_round_trip(kis[0]);
        let j = i + h.len();
        lemma_parse_key_infos_of_ser(pre + h, kis.drop_first());
        assert((pre + h) + t =~= s);
        assert(parse_key_infos(s, j) == Some((kis.drop_first(), j + t.len())));
        assert(seq![kis[0]] + kis.drop_first() =~= kis);
        assert(j + t.len() == pre.len() + ser_key_infos(kis).len());
    }
}

/// Parsing reads back exactly what serialization wrote.
pub proof fn lemma_keyset_info_round_trip(ksi: KeysetInfoV)
    requires
        keyset_info_bounded(ksi),
    ensures
        parse_keyset_info(ser_keyset_info(ksi)) == Some(ksi),
{
    let a = ser_field_varint(0x08, ksi.primary_key_id as nat);
    let t = ser_key_infos(ksi.key_info);
    let s = ser_keyset_info(ksi);
    assert(s =~= a + t);
    if a.len() == 0 && s.len() > 0 {
        assert(t.len() > 0);
        assert(ksi.key_info.len() > 0);
        assert(s[0] == ser_field_msg(0x12, ser_key_info(ksi.key_info[0]))[0]);
    }
    assert(s.subrange(0, a.len() as int) =~= a);
    lemma_parse_field_varint_of_ser(s, 0, 0x08, ksi.primary_key_id as nat);
    lemma_parse_key_infos_of_ser(a, ksi.key_info);
    assert(parse_key_infos(s, a.len() as int) == Some((ksi.key_info, s.len() as int)));
    assert(parse_keyset_info(s) == Some(
        KeysetInfoV { primary_key_id: ksi.primary_key_id, key_info: ksi.key_info },
    ));
    assert(KeysetInfoV { primary_key_id: ksi.primary_key_id, key_info: ksi.key_info } =~= ksi);
}

/// Appending one more entry extends the wire form by one block.
pub proof fn lemma_ser_key_infos_snoc(kis: Seq<KeyInfoV>, ki: KeyInfoV)
    ensures
        ser_key_infos(kis.push(ki)) == ser_key_infos(kis) + ser_field_msg(0x12, ser_key_info(ki)),
    decreases kis.len(),
{
    let p = kis.push(ki);
    if kis.len() == 0 {
        assert(p[0] == ki);
        assert(p.drop_first() =~= Seq::<KeyInfoV>::empty());
        assert(ser_key_infos(p.drop_first()) == Seq::<u8>::empty());
        assert(ser_key_infos(p) == ser_field_msg(0x12, ser_key_info(ki)) + Seq::<u8>::empty());
        assert(ser_key_infos(kis) == Seq::<u8>::empty());
        assert(ser_field_msg(0x12, ser_key_info(ki)) + Seq::<u8>::empty() =~= Seq::<u8>::empty()
            + ser_field_msg(0x12, ser_key_info(ki)));
    } else {
        lemma_ser_key_infos_snoc(kis.drop_first(), ki);
        assert(p.drop_first() =~= kis.drop_first().push(ki));
        assert(p[0] == kis[0]);
        assert(ser_key_infos(p) == ser_field_msg(0x12, ser_key_info(p[0])) + ser_key_infos(
            p.drop_first(),
        ));
        assert(ser_key_infos(p.drop_first()) == ser_key_infos(kis.drop_first()) + ser_field_msg(
            0x12,
            ser_key_info(ki),
        ));
        assert(ser_key_infos(kis) == ser_field_msg(0x12, ser_key_info(kis[0])) + ser_key_infos(
            kis.drop_first(),
        ));
        assert(ser_field_msg(0x12, ser_key_info(kis[0])) + (ser_key_infos(kis.drop_first())
            + ser_field_msg(0x12, ser_key_info(ki))) =~= (ser_field_msg(
            0x12,
            ser_key_info(kis[0]),
        ) + ser_key_infos(kis.drop_first())) + ser_field_msg(0x12, ser_key_info(ki)));
    }
}

/// Serializes a `KeysetInfo`.
pub fn encode_keyset_info(ksi: &KeysetInfo) -> (r: Vec<u8>)
    ensures
        r@ == ser_keyset_info(ksi@),
{
    let mut buf: Vec<u8> = Vec::new();
    write_field_varint(&mut buf, 0x08, ksi.primary_key_id as u64);
    let ghost a = ser_field_varint(0x08, ksi.primary_key_id as nat);
    let mut n: usize = 0;
    while n < ksi.key_info.len()
        invariant
            n <= ksi.key_info.len(),
            buf@ == a + ser_key_infos(ksi@.key_info.subrange(0, n as int)),
        decreases ksi.key_info.len() - n,
    {
        let body = encode_key_info(&ksi.key_info[n]);
        write_field_msg(&mut buf, 0x12, body.as_slice());
        proof {
            lemma_ser_key_infos_snoc(ksi@.key_info.subrange(0, n as int), ksi@.key_info[n as int]);
            assert(ksi@.key_info.subrange(0, n as int).push(ksi@.key_info[n as int])
                =~= ksi@.key_info.subrange(0, n as int + 1));
        }
        n = n + 1;
    }
    proof {
        assert(ksi@.key_info.subrange(0, ksi.key_info@.len() as int) =~= ksi@.key_info);
        assert(buf@ =~= ser_keyset_info(ksi@));
    }
    buf
}

/// Parses a `KeysetInfo`; fails with `ProtobufError` exactly on the
/// buffers the wire reading rejects.
pub fn decode_keyset_info(s: &[u8]) -> (r: Result<KeysetInfo, TinkError>)
    ensures
        r matches Ok(ksi) ==> parse_keyset_info(s@) == Some(ksi@),
        r is Err ==> parse_keyset_info(s@) is None,
        r matches Err(e) ==> e == TinkError::ProtobufError,
{
    let slen: usize = s.len();
    if let Some((p, start)) = read_field_varint(s, 0, 0x08) {
        let mut kis: Vec<KeyInfo> = Vec::new();
        let mut i: usize = start;
        while i < slen && s[i] == 0x12
            invariant
                start <= i <= slen,
                slen == s@.len(),
                parse_field_varint(s@, 0, 0x08) == Some((p as nat, start as int)),
                match parse_key_infos(s@, i as int) {
                    Some((rest, e)) => parse_key_infos(s@, start as int) == Some(
                        (kis@.map_values(|k: KeyInfo| k@) + rest, e),
                    ),
                    None => parse_key_infos(s@, start as int) is None,
                },
            decreases slen - i,
        {
            match read_field_msg(s, i, 0x12) {
                Some((w, j)) => {
                    match w {
                        Some((a, b)) => {
                            proof {
                                lemma_parse_varint_rec_advances(s@, i as int + 1, 10);
                            }
                            let body = vstd::slice::slice_subrange(s, a, b);
                            match decode_key_info(body) {
                                Ok(k) => {
                                    proof {
                                        assert(kis@.push(k).map_values(|x: KeyInfo| x@)
                                            =~= kis@.map_values(|x: KeyInfo| x@) + seq![k@]);
                                    }
                                    let ghost prev = kis@.map_values(|x: KeyInfo| x@);
                                    kis.push(k);
                                    proof {
                                        let pk = parse_key_infos(s@, j as int);
                                        if pk is Some {
                                            let rest = pk->Some_0.0;
                                            let e = pk->Some_0.1;
                                            assert(parse_key_infos(s@, i as int) == Some(
                                                (seq![k@] + rest, e),
                                            ));
                                            assert(prev + (seq![k@] + rest) =~= (prev + seq![k@])
                                                + rest);
                                        }
                                    }
                                    i = j;
                                },
                                Err(_) => {
                                    return Err(TinkError::ProtobufError);
                                },
                            }
                        },
                        None => {
                            return Err(TinkError::ProtobufError);
                        },
                    }
                },
                None => {
                    return Err(TinkError::ProtobufError);
                },
            }
        }
        proof {
            assert(kis@.map_values(|k: KeyInfo| k@) + seq![] =~= kis@.map_values(
                |k: KeyInfo| k@,
            ));
        }
        if i == slen && p <= u32::MAX as u64 {
            let ksi = KeysetInfo { primary_key_id: p as u32, key_info: kis };
            assert(parse_keyset_info(s@) == Some(ksi@));
            return Ok(ksi);
        }
        return Err(TinkError::ProtobufError);
    }
    Err(TinkError::ProtobufError)
}

/// The serialized `KeysetInfo` inside an envelope, where one is
/// present.
pub open spec fn ser_keyset_info_opt(ksi: Option<KeysetInfoV>) -> Option<Seq<u8>> {
    match ksi {
        Some(k) => Some(ser_keyset_info(k)),
        None => None,
    }
}

/// Wire form of an `EncryptedKeyset`: the ciphertext then the optional
/// redacted info.
pub open spec fn ser_encrypted_keyset(e: EncryptedKeysetV) -> Seq<u8> {
    ser_field_bytes(0x12, e.encrypted_keyset) + ser_opt_field_msg(
        0x1a,
        ser_keyset_info_opt(e.keyset_info),
    )
}

/// Reads an `EncryptedKeyset` from a whole buffer.
pub open spec fn parse_encrypted_keyset(s: Seq<u8>) -> Option<EncryptedKeysetV> {
    match parse_field_bytes(s, 0, 0x12) {
        Some((ct, i)) => match parse_field_msg(s, i, 0x1a) {
            Some((body, j)) => {
                let info = match body {
                    Some(b) => match parse_keyset_info(b) {
                        Some(k) => Some(Some(k)),
                        None => None,
                    },
                    None => Some(None),
                };
                match info {
                    Some(inf) => if j == s.len() {
                        Some(EncryptedKeysetV { encrypted_keyset: ct, keyset_info: inf })
                    } else {
                        None
                    },
                    None => None,
                }
            },
            None => None,
        },
        None => None,
    }
}

/// Lengths under which an `EncryptedKeyset` serializes within the wire
/// limits.
pub open spec fn encrypted_keyset_bounded(e: EncryptedKeysetV) -> bool {
    &&& e.encrypted_keyset.len() <= u64::MAX
    &&& match e.keyset_info {
        Some(ksi) => keyset_info_bounded(ksi) && ser_keyset_info(ksi).len() <= u64::MAX,
        None => true,
    }
}

/// Parsing reads back exactly what serialization wrote.
#[verifier::rlimit(100)]
pub proof fn lemma_encrypted_keyset_round_trip(e: EncryptedKeysetV)
    requires
        encrypted_keyset_bounded(e),
    ensures
        parse_encrypted_keyset(ser_encrypted_keyset(e)) == Some(e),
{
    let a = ser_field_bytes(0x12, e.encrypted_keyset);
    let bodyopt = ser_keyset_info_opt(e.keyset_info);
    let b = ser_opt_field_msg(0x1a, bodyopt);
    let s = ser_encrypted_keyset(e);
    assert(s =~= a + b);
    if a.len() == 0 && s.len() > 0 {
        assert(s[0] == b[0]);
        assert(b[0] == 0x1a);
    }
    assert(s.subrange(0, a.len() as int) =~= a);
    lemma_parse_field_bytes_of_ser(s, 0, 0x12, e.encrypted_keyset);
    let i = a.len() as int;
    assert(s.subrange(i, i + b.len()) =~= b);
    lemma_parse_field_msg_of_ser(s, i, 0x1a, bodyopt);
    match e.keyset_info {
        Some(ksi) => {
            lemma_keyset_info_round_trip(ksi);
        },
        None => {},
    }
    assert(parse_encrypted_keyset(s) == Some(
        EncryptedKeysetV { encrypted_keyset: e.encrypted_keyset, keyset_info: e.keyset_info },
    ));
    assert(EncryptedKeysetV { encrypted_keyset: e.encrypted_keyset, keyset_info: e.keyset_info }
        =~= e);
}

/// Serializes an `EncryptedKeyset`.
pub fn encode_encrypted_keyset(e: &EncryptedKeyset) -> (r: Vec<u8>)
    ensures
        r@ == ser_encrypted_keyset(e@),
{
    let mut buf: Vec<u8> = Vec::new();
    write_field_bytes(&mut buf, 0x12, e.encrypted_keyset.as_slice());
    match &e.keyset_info {
        Some(ksi) => {
            let body = encode_keyset_info(ksi);
            write_field_msg(&mut buf, 0x1a, body.as_slice());
        },
        None => {},
    }
    assert(buf@ =~= ser_encrypted_keyset(e@));
    buf
}

/// Parses an `EncryptedKeyset`; fails with `ProtobufError` exactly on
/// the buffers the wire reading rejects.
pub fn decode_encrypted_keyset(s: &[u8]) -> (r: Result<EncryptedKeyset, TinkError>)
    ensures
        r matches Ok(e) ==> parse_encrypted_keyset(s@) == Some(e@),
        r is Err ==> parse_encrypted_keyset(s@) is None,
        r matches Err(e) ==> e == TinkError::ProtobufError,
{
    let slen: usize = s.len();
    if let Some((ct, i)) = read_field_bytes(s, 0, 0x12) {
        if let Some((w, j)) = read_field_msg(s, i, 0x1a) {
            let info: Option<KeysetInfo> = match w {
                Some((a, b)) => {
                    let body = vstd::slice::slice_subrange(s, a, b);
                    match decode_keyset_info(body) {
                        Ok(ksi) => Some(ksi),
                        Err(_) => {
                            return Err(TinkError::ProtobufError);
                        },
                    }
                },
                None => None,
            };
            if j == slen {
                let e = EncryptedKeyset { encrypted_keyset: ct, keyset_info: info };
                assert(parse_encrypted_keyset(s@) == Some(e@));
                return Ok(e);
            }
        }
    }
    Err(TinkError::ProtobufError)
}

} // verus!
