use group_jwe::cid::CidError;
use libipld::cbor::DagCborCodec;
use libipld::codec::Codec;
use libipld::Ipld;
use group_jwe::cleartext::{decode_encoded_cleartext, prepare_encoded_cleartext, CleartextError};
use group_jwe::padding::{pad, PaddingError};

// DAG-CBOR of {"a": 1, "b": [true, null]}
const SAMPLE: [u8; 9] = [0xa2, 0x61, 0x61, 0x01, 0x61, 0x62, 0x82, 0xf5, 0xf6];

#[test]
fn prepare_exact_bytes() {
    let out = prepare_encoded_cleartext(&[0xa0], None);
    let mut expected = vec![0x01, 0x71, 0x00, 0x01, 0xa0, 0x80];
    expected.resize(24, 0);
    assert_eq!(out, expected);
}

#[test]
fn sample_value_round_trip() {
    let prepared = prepare_encoded_cleartext(&SAMPLE, None);
    assert_eq!(prepared.len() % 24, 0);
    assert_eq!(decode_encoded_cleartext(&prepared, None), Ok(SAMPLE.to_vec()));
}

#[test]
fn round_trip_with_large_block() {
    let encoded = vec![0x42u8; 1000];
    let prepared = prepare_encoded_cleartext(&encoded, Some(4096));
    assert_eq!(prepared.len(), 4096);
    assert_eq!(decode_encoded_cleartext(&prepared, Some(4096)), Ok(encoded));
}

#[test]
fn decode_rejects_bad_padding() {
    let mut prepared = prepare_encoded_cleartext(&SAMPLE, None);
    let last = prepared.len() - 1;
    prepared[last] = 7;
    assert_eq!(
        decode_encoded_cleartext(&prepared, None),
        Err(CleartextError::Padding(PaddingError::BadPadding))
    );
}

#[test]
fn decode_rejects_other_codec() {
    let padded = pad(&[0x01, 0x55, 0x00, 0x01, 0xa0], None);
    assert_eq!(decode_encoded_cleartext(&padded, None), Err(CleartextError::UnsupportedCodec));
}

#[test]
fn decode_rejects_bad_identifier() {
    let padded = pad(&[0x01, 0x71, 0x00, 0x05, 0xa0], None);
    assert_eq!(
        decode_encoded_cleartext(&padded, None),
        Err(CleartextError::Cid(CidError::InvalidLength))
    );
}

fn sample_ipld(reversed: bool) -> Ipld {
    let mut map = std::collections::BTreeMap::new();
    let entries = vec![
        ("a".to_string(), Ipld::Integer(1)),
        ("b".to_string(), Ipld::List(vec![Ipld::Bool(true), Ipld::Null])),
    ];
    if reversed {
        for (k, v) in entries.into_iter().rev() {
            map.insert(k, v);
        }
    } else {
        for (k, v) in entries {
            map.insert(k, v);
        }
    }
    Ipld::StringMap(map)
}

#[test]
fn dag_cbor_value_round_trip_any_insertion_order() {
    let first = DagCborCodec.encode(&sample_ipld(false)).unwrap();
    let second = DagCborCodec.encode(&sample_ipld(true)).unwrap();
    assert_eq!(first, SAMPLE.to_vec());
    assert_eq!(first, second);
    let prepared = prepare_encoded_cleartext(&second, None);
    let encoded = decode_encoded_cleartext(&prepared, None).unwrap();
    let back: Ipld = DagCborCodec.decode(&encoded).unwrap();
    assert_eq!(back, sample_ipld(false));
}

#[test]
fn dag_cbor_nested_values_round_trip() {
    let mut inner = std::collections::BTreeMap::new();
    inner.insert("name".to_string(), Ipld::String("ada".to_string()));
    inner.insert("age".to_string(), Ipld::Integer(36));
    let value = Ipld::List(vec![Ipld::StringMap(inner), Ipld::Integer(-5), Ipld::Null, Ipld::String(String::new())]);
    let encoded = DagCborCodec.encode(&value).unwrap();
    let prepared = prepare_encoded_cleartext(&encoded, Some(16));
    assert_eq!(prepared.len() % 16, 0);
    let back: Ipld = DagCborCodec.decode(&decode_encoded_cleartext(&prepared, Some(16)).unwrap()).unwrap();
    assert_eq!(back, value);
}
