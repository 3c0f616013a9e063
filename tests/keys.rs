use group_jwe::keys::{convert_ed25519_to_x25519, extract_x25519_key, PrivateJwk, PublicJwk, VerificationMethod};

fn method() -> VerificationMethod {
    VerificationMethod {
        id: "did:example:alice#key-1".to_string(),
        public_key_base58: None,
        public_key_jwk: None,
        public_key_multibase: None,
    }
}

fn sample_key() -> Vec<u8> {
    (1u8..=32).collect()
}

#[test]
fn extract_from_base58() {
    let mut vm = method();
    vm.public_key_base58 = Some(bs58::encode(sample_key()).into_string());
    assert_eq!(extract_x25519_key(&vm), Some(sample_key()));
}

#[test]
fn extract_rejects_short_base58() {
    let mut vm = method();
    vm.public_key_base58 = Some(bs58::encode(&sample_key()[..31]).into_string());
    assert_eq!(extract_x25519_key(&vm), None);
}

#[test]
fn extract_rejects_invalid_base58() {
    let mut vm = method();
    vm.public_key_base58 = Some("0OIl".to_string());
    assert_eq!(extract_x25519_key(&vm), None);
}

#[test]
fn base58_takes_priority_over_jwk() {
    let mut vm = method();
    vm.public_key_base58 = Some("0OIl".to_string());
    vm.public_key_jwk = Some(PublicJwk::Okp { curve: "X25519".to_string(), public_key: sample_key() });
    assert_eq!(extract_x25519_key(&vm), None);
}

#[test]
fn extract_from_jwk() {
    let mut vm = method();
    vm.public_key_jwk = Some(PublicJwk::Okp { curve: "X25519".to_string(), public_key: sample_key() });
    assert_eq!(extract_x25519_key(&vm), Some(sample_key()));
}

#[test]
fn extract_rejects_jwk_of_other_curve() {
    let mut vm = method();
    vm.public_key_jwk = Some(PublicJwk::Okp { curve: "Ed25519".to_string(), public_key: sample_key() });
    assert_eq!(extract_x25519_key(&vm), None);
    vm.public_key_jwk = Some(PublicJwk::Other);
    assert_eq!(extract_x25519_key(&vm), None);
}

#[test]
fn extract_from_multibase_with_codec_prefix() {
    let mut bytes = vec![0xec, 0x01];
    bytes.extend(sample_key());
    let mut vm = method();
    vm.public_key_multibase = Some(multibase::encode(multibase::Base::Base58Btc, &bytes));
    assert_eq!(extract_x25519_key(&vm), Some(sample_key()));
}

#[test]
fn extract_from_multibase_raw() {
    let mut vm = method();
    vm.public_key_multibase = Some(multibase::encode(multibase::Base::Base58Btc, sample_key()));
    assert_eq!(extract_x25519_key(&vm), Some(sample_key()));
}

#[test]
fn extract_rejects_multibase_with_other_prefix() {
    let mut bytes = vec![0xed, 0x01];
    bytes.extend(sample_key());
    let mut vm = method();
    vm.public_key_multibase = Some(multibase::encode(multibase::Base::Base58Btc, &bytes));
    assert_eq!(extract_x25519_key(&vm), None);
    vm.public_key_multibase = Some("not multibase".to_string());
    assert_eq!(extract_x25519_key(&vm), None);
}

#[test]
fn extract_without_key_material() {
    assert_eq!(extract_x25519_key(&method()), None);
}

#[test]
fn convert_private_key() {
    let sk = [7u8; 32];
    let expected = ed25519_dalek::SigningKey::from_bytes(&sk).to_scalar_bytes().to_vec();
    let jwk = PrivateJwk::Okp { private_key: Some(sk.to_vec()) };
    let secret = convert_ed25519_to_x25519(&jwk).unwrap();
    assert_eq!(secret, expected);
    assert_ne!(secret, sk.to_vec());
}

#[test]
fn convert_rejects_unusable_keys() {
    assert_eq!(convert_ed25519_to_x25519(&PrivateJwk::Okp { private_key: None }), None);
    assert_eq!(convert_ed25519_to_x25519(&PrivateJwk::Okp { private_key: Some(vec![1; 31]) }), None);
    assert_eq!(convert_ed25519_to_x25519(&PrivateJwk::Other), None);
}
