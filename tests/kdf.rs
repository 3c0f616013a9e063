use group_jwe::kdf::concat_kdf;

fn hex(bytes: &[u8]) -> String {
    bytes.iter().map(|b| format!("{:02x}", b)).collect()
}

#[test]
fn concat_kdf_known_value() {
    let key = concat_kdf(&[0u8; 32], 256, "ECDH-ES+XC20PKW", None);
    assert_eq!(hex(&key), "f5a059c912f987ac09c1af7e167301d7c8d82aa2743054f76f11c9def8b528fe");
}

#[test]
fn concat_kdf_with_party_u_info() {
    let secret: Vec<u8> = (0u8..32).collect();
    let key = concat_kdf(&secret, 128, "ECDH-ES+XC20PKW", Some(b"Alice"));
    assert_eq!(hex(&key), "585b7ffeda9adede57cafaaaedf100179f098a19919cba40dc8600be0e66f31b");
}

#[test]
fn concat_kdf_is_deterministic_and_input_sensitive() {
    let a = concat_kdf(&[1u8; 32], 256, "ECDH-ES+XC20PKW", None);
    let b = concat_kdf(&[1u8; 32], 256, "ECDH-ES+XC20PKW", None);
    let c = concat_kdf(&[2u8; 32], 256, "ECDH-ES+XC20PKW", None);
    assert_eq!(a, b);
    assert_ne!(a, c);
    assert_eq!(a.len(), 32);
}
