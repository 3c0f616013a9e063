use group_jwe::cid::{CidError, SimpleCid, DAG_CBOR_CODE};

#[test]
fn cid_bytes_layout() {
    let cid = SimpleCid::new_v1(DAG_CBOR_CODE, vec![0xa0, 0xb1]);
    assert_eq!(cid.to_bytes(), vec![0x01, 0x71, 0x00, 0x02, 0xa0, 0xb1]);
}

#[test]
fn cid_multi_byte_varints() {
    let cid = SimpleCid::new_v1(300, vec![9u8; 200]);
    let bytes = cid.to_bytes();
    assert_eq!(&bytes[..6], &[0x01, 0xac, 0x02, 0x00, 0xc8, 0x01]);
    assert_eq!(bytes.len(), 206);
    let back = SimpleCid::from_bytes(&bytes).unwrap();
    assert_eq!(back.codec, 300);
    assert_eq!(back.digest, vec![9u8; 200]);
}

#[test]
fn cid_write_bytes_appends() {
    let cid = SimpleCid::new_v1(DAG_CBOR_CODE, vec![1, 2, 3]);
    let mut out = vec![0xff];
    let written = cid.write_bytes(&mut out);
    assert_eq!(written, 7);
    assert_eq!(out, vec![0xff, 0x01, 0x71, 0x00, 0x03, 1, 2, 3]);
}

#[test]
fn cid_round_trip_ignores_trailing_bytes() {
    let cid = SimpleCid::new_v1(DAG_CBOR_CODE, vec![5, 6]);
    let mut bytes = cid.to_bytes();
    bytes.extend_from_slice(&[0, 0, 0]);
    let back = SimpleCid::from_bytes(&bytes).unwrap();
    assert_eq!(back.codec, DAG_CBOR_CODE);
    assert_eq!(back.digest, vec![5, 6]);
}

#[test]
fn cid_rejects_other_version() {
    assert_eq!(SimpleCid::from_bytes(&[0x02, 0x71, 0x00, 0x00]).unwrap_err(), CidError::UnsupportedVersion);
}

#[test]
fn cid_rejects_non_identity_hash() {
    assert_eq!(SimpleCid::from_bytes(&[0x01, 0x71, 0x12, 0x00]).unwrap_err(), CidError::UnsupportedHash);
}

#[test]
fn cid_rejects_short_digest() {
    assert_eq!(SimpleCid::from_bytes(&[0x01, 0x71, 0x00, 0x03, 1, 2]).unwrap_err(), CidError::InvalidLength);
}

#[test]
fn cid_rejects_truncated_varint() {
    assert_eq!(SimpleCid::from_bytes(&[]).unwrap_err(), CidError::InvalidVarint);
    assert_eq!(SimpleCid::from_bytes(&[0x01, 0x80]).unwrap_err(), CidError::InvalidVarint);
}
