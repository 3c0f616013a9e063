//! Key material: a recipient's X25519 public key read from one of the
//! encodings a verification method may use, and a candidate's X25519 secret
//! derived from its Ed25519 private key.
use vstd::prelude::*;
use crate::primitives::{
    bs58_decode, bs58_decode_of, multibase_decode, multibase_decode_of, ed25519_scalar,
    ed25519_scalar_of,
};

verus! {

/// The curve name of X25519 keys in a JWK.
pub const X25519_CURVE: &'static str = "X25519";

/// First multicodec prefix byte of an X25519 public key (`0xec 0x01`).
pub const MULTICODEC_X25519_0: u8 = 0xec;

/// Second multicodec prefix byte of an X25519 public key.
pub const MULTICODEC_X25519_1: u8 = 0x01;

/// The public part of a JWK, as far as key agreement looks at it.
#[derive(Debug, Clone)]
pub enum PublicJwk {
    /// An octet key pair: its curve name and raw public key bytes.
    Okp { curve: String, public_key: Vec<u8> },
    /// Any other key type.
    Other,
}

/// A key-agreement verification method of a recipient: its id and the
/// public-key properties it carries, each absent when not present.
#[derive(Debug, Clone)]
pub struct VerificationMethod {
    pub id: String,
    pub public_key_base58: Option<String>,
    pub public_key_jwk: Option<PublicJwk>,
    pub public_key_multibase: Option<String>,
}

/// A candidate private key for decryption.
#[derive(Debug, Clone)]
pub enum PrivateJwk {
    /// An octet key pair, with its private bytes when present.
    Okp { private_key: Option<Vec<u8>> },
    /// Any other key type.
    Other,
}

pub open spec fn exactly_32(bytes: Option<Seq<u8>>) -> Option<Seq<u8>> {
    match bytes {
        Some(b) => if b.len() == 32 {
            Some(b)
        } else {
            None
        },
        None => None,
    }
}

/// The key bytes of a decoded multibase value: 32 bytes after the X25519
/// multicodec prefix, or 32 bytes as they are.
pub open spec fn strip_multicodec(bytes: Seq<u8>) -> Option<Seq<u8>> {
    if bytes.len() == 34 && bytes[0] == MULTICODEC_X25519_0 && bytes[1] == MULTICODEC_X25519_1 {
        Some(bytes.subrange(2, 34))
    } else if bytes.len() == 32 {
        Some(bytes)
    } else {
        None
    }
}

/// The X25519 public key of a verification method. The first property
/// present decides: base58 key bytes, then a JWK, then a multibase key.
pub open spec fn x25519_key_of(vm: VerificationMethod) -> Option<Seq<u8>> {
    match vm.public_key_base58 {
        Some(text) => exactly_32(bs58_decode_of(text@)),
        None => match vm.public_key_jwk {
            Some(PublicJwk::Okp { curve, public_key }) => {
                if curve@ == X25519_CURVE@ && public_key@.len() == 32 {
                    Some(public_key@)
                } else {
                    None
                }
            },
            Some(PublicJwk::Other) => None,
            None => match vm.public_key_multibase {
                Some(text) => match multibase_decode_of(text@) {
                    Some(bytes) => strip_multicodec(bytes),
                    None => None,
                },
                None => None,
            },
        },
    }
}

/// The X25519 secret of a candidate key: the scalar bytes of its 32-byte
/// Ed25519 private key.
pub open spec fn x25519_secret_of(jwk: PrivateJwk) -> Option<Seq<u8>> {
    match jwk {
        PrivateJwk::Okp { private_key: Some(k) } => if k@.len() == 32 {
            Some(ed25519_scalar_of(k@))
        } else {
            None
        },
        _ => None,
    }
}

fn keep_32(bytes: Option<Vec<u8>>) -> (r: Option<Vec<u8>>)
    ensures
        match r {
            Some(v) => bytes matches Some(b) && b@.len() == 32 && v@ == b@,
            None => !(bytes matches Some(b) && b@.len() == 32),
        },
{
    match bytes {
        Some(b) => if b.len() == 32 {
            Some(b)
        } else {
            None
        },
        None => None,
    }
}

/// Reads the X25519 public key of a verification method; any missing,
/// malformed or wrong-length key gives `None`.
pub fn extract_x25519_key(vm: &VerificationMethod) -> (r: Option<Vec<u8>>)
    ensures
        match r {
            Some(k) => x25519_key_of(*vm) == Some(k@),
            None => x25519_key_of(*vm) is None,
        },
{
    if let Some(text) = &vm.public_key_base58 {
        keep_32(bs58_decode(text.as_str()))
    } else if let Some(jwk) = &vm.public_key_jwk {
        match jwk {
            PublicJwk::Okp { curve, public_key } => {
                let x25519 = X25519_CURVE.to_owned();
                if *curve == x25519 && public_key.len() == 32 {
                    Some(public_key.clone())
                } else {
                    None
                }
            },
            PublicJwk::Other => None,
        }
    } else if let Some(text) = &vm.public_key_multibase {
        match multibase_decode(text.as_str()) {
            Some(bytes) => {
                if bytes.len() == 34 && bytes[0] == MULTICODEC_X25519_0 && bytes[1]
                    == MULTICODEC_X25519_1 {
                    Some(vstd::slice::slice_to_vec(vstd::slice::slice_subrange(bytes.as_slice(), 2, 34)))
                } else if bytes.len() == 32 {
                    Some(bytes)
                } else {
                    None
                }
            },
            None => None,
        }
    } else {
        None
    }
}

/// Converts a candidate key to its X25519 secret; `None` for a key that is
/// not an octet key pair with 32 private bytes.
pub fn convert_ed25519_to_x25519(jwk: &PrivateJwk) -> (r: Option<Vec<u8>>)
    ensures
        match r {
            Some(s) => x25519_secret_of(*jwk) == Some(s@),
            None => x25519_secret_of(*jwk) is None,
        },
        r matches Some(s) ==> s@.len() == 32,
{
    match jwk {
        PrivateJwk::Okp { private_key: Some(k) } => {
            if k.len() == 32 {
                Some(ed25519_scalar(k.as_slice()))
            } else {
                None
            }
        },
        _ => None,
    }
}

} // verus!
