use base64::engine::general_purpose::URL_SAFE_NO_PAD;
use base64::Engine as _;
use group_jwe::jwe::{EncryptionRandomness, JweError, JWE};
use group_jwe::keys::{PrivateJwk, VerificationMethod};

fn x25519_public_for(ed_secret: [u8; 32]) -> Vec<u8> {
    let scalar = ed25519_dalek::SigningKey::from_bytes(&ed_secret).to_scalar_bytes();
    let secret = x25519_dalek::StaticSecret::from(scalar);
    x25519_dalek::PublicKey::from(&secret).as_bytes().to_vec()
}

fn recipient(id: &str, ed_secret: [u8; 32]) -> VerificationMethod {
    VerificationMethod {
        id: id.to_string(),
        public_key_base58: Some(bs58::encode(x25519_public_for(ed_secret)).into_string()),
        public_key_jwk: None,
        public_key_multibase: None,
    }
}

fn broken(id: &str) -> VerificationMethod {
    VerificationMethod {
        id: id.to_string(),
        public_key_base58: Some("tooshort".to_string()),
        public_key_jwk: None,
        public_key_multibase: None,
    }
}

fn private(ed_secret: [u8; 32]) -> PrivateJwk {
    PrivateJwk::Okp { private_key: Some(ed_secret.to_vec()) }
}

fn flip(text: &str, index: usize) -> String {
    let mut bytes = URL_SAFE_NO_PAD.decode(text).unwrap();
    bytes[index] ^= 1;
    URL_SAFE_NO_PAD.encode(bytes)
}

const ALICE: [u8; 32] = [1u8; 32];
const BOB: [u8; 32] = [2u8; 32];
const MALLORY: [u8; 32] = [3u8; 32];

#[test]
fn hello_to_two_recipients() {
    let recipients = vec![recipient("did:example:alice#x", ALICE), recipient("did:example:bob#x", BOB)];
    let jwe = JWE::encrypt(b"hello", &recipients).unwrap();
    assert_eq!(jwe.recipients.len(), 2);
    assert_eq!(jwe.decrypt(&[private(ALICE)]), Some(b"hello".to_vec()));
    assert_eq!(jwe.decrypt(&[private(BOB)]), Some(b"hello".to_vec()));
    assert_eq!(jwe.decrypt(&[private(MALLORY)]), None);
}

#[test]
fn envelope_fields() {
    let recipients = vec![recipient("did:example:alice#x", ALICE)];
    let jwe = JWE::encrypt(b"hello", &recipients).unwrap();
    assert_eq!(jwe.protected_header, URL_SAFE_NO_PAD.encode("{\"enc\":\"XC20P\"}"));
    assert_eq!(URL_SAFE_NO_PAD.decode(&jwe.iv).unwrap().len(), 24);
    assert_eq!(URL_SAFE_NO_PAD.decode(&jwe.tag).unwrap().len(), 16);
    assert_eq!(URL_SAFE_NO_PAD.decode(&jwe.ciphertext).unwrap().len(), 5);
    let entry = &jwe.recipients[0];
    assert_eq!(entry.header.alg, "ECDH-ES+XC20PKW");
    assert_eq!(entry.header.kid, "did:example:alice#x");
    assert_eq!(entry.header.epk.kty, "OKP");
    assert_eq!(entry.header.epk.crv, "X25519");
    assert_eq!(URL_SAFE_NO_PAD.decode(&entry.header.epk.x).unwrap().len(), 32);
    assert_eq!(URL_SAFE_NO_PAD.decode(&entry.header.iv).unwrap().len(), 24);
    assert_eq!(URL_SAFE_NO_PAD.decode(&entry.header.tag).unwrap().len(), 16);
    assert_eq!(URL_SAFE_NO_PAD.decode(&entry.encrypted_key).unwrap().len(), 32);
}

#[test]
fn round_trip_many_sizes() {
    let recipients = vec![recipient("a", ALICE), broken("b"), recipient("c", BOB)];
    for len in [0usize, 1, 15, 16, 17, 64, 1000] {
        let content: Vec<u8> = (0..len).map(|i| i as u8).collect();
        let jwe = JWE::encrypt(&content, &recipients).unwrap();
        assert_eq!(jwe.recipients.len(), 2);
        assert_eq!(jwe.decrypt(&[private(BOB)]), Some(content.clone()));
        assert_eq!(jwe.decrypt(&[private(MALLORY), private(ALICE)]), Some(content));
    }
}

#[test]
fn encryptions_are_not_repeated() {
    let recipients = vec![recipient("a", ALICE)];
    let first = JWE::encrypt(b"same", &recipients).unwrap();
    let second = JWE::encrypt(b"same", &recipients).unwrap();
    assert_ne!(first.ciphertext, second.ciphertext);
    assert_ne!(first.iv, second.iv);
    assert_ne!(first.recipients[0].header.iv, second.recipients[0].header.iv);
    assert_ne!(first.recipients[0].header.epk.x, second.recipients[0].header.epk.x);
    assert_ne!(first.recipients[0].encrypted_key, second.recipients[0].encrypted_key);
}

#[test]
fn recipients_get_distinct_ephemeral_keys() {
    let recipients = vec![recipient("a", ALICE), recipient("b", ALICE)];
    let jwe = JWE::encrypt(b"x", &recipients).unwrap();
    assert_ne!(jwe.recipients[0].header.epk.x, jwe.recipients[1].header.epk.x);
}

#[test]
fn no_usable_recipient_fails() {
    assert_eq!(JWE::encrypt(b"hello", &[broken("a"), broken("b")]).unwrap_err(), JweError::NoRecipients);
    assert_eq!(JWE::encrypt(b"hello", &[]).unwrap_err(), JweError::NoRecipients);
}

#[test]
fn tampered_envelopes_do_not_open() {
    let recipients = vec![recipient("a", ALICE)];
    let jwe = JWE::encrypt(b"hello world", &recipients).unwrap();
    let key = [private(ALICE)];

    let mut t = jwe.clone();
    t.ciphertext = flip(&jwe.ciphertext, 3);
    assert_eq!(t.decrypt(&key), None);

    let mut t = jwe.clone();
    t.tag = flip(&jwe.tag, 0);
    assert_eq!(t.decrypt(&key), None);

    let mut t = jwe.clone();
    t.recipients[0].encrypted_key = flip(&jwe.recipients[0].encrypted_key, 31);
    assert_eq!(t.decrypt(&key), None);

    let mut t = jwe.clone();
    t.recipients[0].header.tag = flip(&jwe.recipients[0].header.tag, 15);
    assert_eq!(t.decrypt(&key), None);

    let mut t = jwe.clone();
    t.protected_header = URL_SAFE_NO_PAD.encode("{\"enc\":\"XC20P\" }");
    assert_eq!(t.decrypt(&key), None);
}

#[test]
fn malformed_fields_do_not_crash() {
    let recipients = vec![recipient("a", ALICE)];
    let jwe = JWE::encrypt(b"hello", &recipients).unwrap();
    let key = [private(ALICE)];

    let mut t = jwe.clone();
    t.iv = URL_SAFE_NO_PAD.encode([0u8; 12]);
    assert_eq!(t.decrypt(&key), None);

    let mut t = jwe.clone();
    t.recipients[0].header.iv = "!!".to_string();
    assert_eq!(t.decrypt(&key), None);

    let mut t = jwe.clone();
    t.recipients[0].header.epk.x = URL_SAFE_NO_PAD.encode([1u8; 31]);
    assert_eq!(t.decrypt(&key), None);

    assert_eq!(jwe.decrypt(&[]), None);
    assert_eq!(jwe.decrypt(&[PrivateJwk::Other, PrivateJwk::Okp { private_key: None }]), None);
}

#[test]
fn first_working_pair_wins_after_a_bad_entry() {
    let recipients = vec![recipient("a", ALICE), recipient("b", BOB)];
    let mut jwe = JWE::encrypt(b"payload", &recipients).unwrap();
    jwe.recipients[0].header.epk.x = "%%".to_string();
    assert_eq!(jwe.decrypt(&[private(ALICE)]), None);
    assert_eq!(jwe.decrypt(&[private(ALICE), private(BOB)]), Some(b"payload".to_vec()));
}

#[test]
fn encrypt_with_given_randomness_is_deterministic() {
    let recipients = vec![recipient("a", ALICE)];
    let rnd = EncryptionRandomness {
        cek: vec![9u8; 32],
        iv: vec![8u8; 24],
        ephemeral_secrets: vec![vec![7u8; 32]],
        recipient_ivs: vec![vec![6u8; 24]],
    };
    let a = JWE::encrypt_with(b"fixed", &recipients, &rnd).unwrap();
    let b = JWE::encrypt_with(b"fixed", &recipients, &rnd).unwrap();
    assert_eq!(a.ciphertext, b.ciphertext);
    assert_eq!(a.recipients[0].encrypted_key, b.recipients[0].encrypted_key);
    assert_eq!(a.iv, URL_SAFE_NO_PAD.encode([8u8; 24]));
    assert_eq!(a.recipients[0].header.iv, URL_SAFE_NO_PAD.encode([6u8; 24]));
    assert_eq!(a.decrypt(&[private(ALICE)]), Some(b"fixed".to_vec()));
}

#[test]
fn dag_cleartext_through_envelope() {
    let encoded = [0xa2u8, 0x61, 0x61, 0x01, 0x61, 0x62, 0x82, 0xf5, 0xf6];
    let prepared = group_jwe::cleartext::prepare_encoded_cleartext(&encoded, None);
    let recipients = vec![recipient("a", ALICE)];
    let jwe = JWE::encrypt(&prepared, &recipients).unwrap();
    assert_eq!(URL_SAFE_NO_PAD.decode(&jwe.ciphertext).unwrap().len(), 24);
    let opened = jwe.decrypt(&[private(ALICE)]).unwrap();
    assert_eq!(group_jwe::cleartext::decode_encoded_cleartext(&opened, None), Ok(encoded.to_vec()));
}
