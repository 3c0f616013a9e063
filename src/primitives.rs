//! The cryptographic and text-encoding primitives that the envelope is built
//! from. Each is a call into an outside crate; what the library relies on is
//! stated in the contract of its wrapper.
use vstd::prelude::*;
use base64::Engine as _;
use chacha20poly1305::aead::Aead as _;
use chacha20poly1305::KeyInit as _;
use rand_chacha::rand_core::{RngCore as _, SeedableRng as _};

verus! {

/// Unpadded URL-safe base64 text of some bytes.
pub uninterp spec fn b64url_of(bytes: Seq<u8>) -> Seq<char>;

/// The bytes that unpadded URL-safe base64 text stands for, if it is well formed.
pub uninterp spec fn b64url_decode_of(text: Seq<char>) -> Option<Seq<u8>>;

/// The bytes that base58 (Bitcoin alphabet) text stands for, if it is well formed.
pub uninterp spec fn bs58_decode_of(text: Seq<char>) -> Option<Seq<u8>>;

/// The bytes that multibase text stands for, if its base prefix and body are well formed.
pub uninterp spec fn multibase_decode_of(text: Seq<char>) -> Option<Seq<u8>>;

/// SHA-256 digest.
pub uninterp spec fn sha256_of(data: Seq<u8>) -> Seq<u8>;

/// X25519 public key of a 32-byte secret.
pub uninterp spec fn x25519_public_of(secret: Seq<u8>) -> Seq<u8>;

/// X25519 shared secret of a 32-byte secret and a 32-byte public key.
pub uninterp spec fn x25519_shared_of(secret: Seq<u8>, public: Seq<u8>) -> Seq<u8>;

/// The X25519 secret scalar bytes that belong to a 32-byte Ed25519 secret key.
pub uninterp spec fn ed25519_scalar_of(secret: Seq<u8>) -> Seq<u8>;

/// XChaCha20-Poly1305 ciphertext followed by its 16-byte tag.
pub uninterp spec fn aead_seal_of(key: Seq<u8>, nonce: Seq<u8>, aad: Seq<u8>, msg: Seq<u8>) -> Seq<u8>;

/// XChaCha20-Poly1305 decryption of a ciphertext with its tag, if it authenticates.
pub uninterp spec fn aead_open_of(key: Seq<u8>, nonce: Seq<u8>, aad: Seq<u8>, sealed: Seq<u8>) -> Option<Seq<u8>>;

/// Relies on base64's `URL_SAFE_NO_PAD` engine (`Engine::encode`), whose
/// output the same engine decodes back to the input.
#[verifier::external_body]
pub(crate) fn b64url_encode(bytes: &[u8]) -> (r: String)
    ensures
        r@ == b64url_of(bytes@),
        b64url_decode_of(r@) == Some(bytes@),
{
    base64::engine::general_purpose::URL_SAFE_NO_PAD.encode(bytes)
}

/// Relies on base64's `URL_SAFE_NO_PAD` engine (`Engine::decode`).
#[verifier::external_body]
pub(crate) fn b64url_decode(text: &str) -> (r: Option<Vec<u8>>)
    ensures
        match r {
            Some(v) => b64url_decode_of(text@) == Some(v@),
            None => b64url_decode_of(text@) is None,
        },
{
    base64::engine::general_purpose::URL_SAFE_NO_PAD.decode(text).ok()
}

/// Relies on `bs58::decode(..).into_vec()`.
#[verifier::external_body]
pub(crate) fn bs58_decode(text: &str) -> (r: Option<Vec<u8>>)
    ensures
        match r {
            Some(v) => bs58_decode_of(text@) == Some(v@),
            None => bs58_decode_of(text@) is None,
        },
{
    bs58::decode(text).into_vec().ok()
}

/// Relies on `multibase::decode`; the base it reports is not needed.
#[verifier::external_body]
pub(crate) fn multibase_decode(text: &str) -> (r: Option<Vec<u8>>)
    ensures
        match r {
            Some(v) => multibase_decode_of(text@) == Some(v@),
            None => multibase_decode_of(text@) is None,
        },
{
    multibase::decode(text).ok().map(|(_, bytes)| bytes)
}

/// Relies on `sha2::Sha256::digest`, a 32-byte digest.
#[verifier::external_body]
pub(crate) fn sha256(data: &[u8]) -> (r: Vec<u8>)
    ensures
        r@ == sha256_of(data@),
        r@.len() == 32,
{
    <sha2::Sha256 as sha2::Digest>::digest(data).to_vec()
}

/// Relies on x25519_dalek: `PublicKey::from(&StaticSecret::from(secret))`.
#[verifier::external_body]
pub(crate) fn x25519_public(secret: &[u8]) -> (r: Vec<u8>)
    requires
        secret@.len() == 32,
    ensures
        r@ == x25519_public_of(secret@),
        r@.len() == 32,
{
    let bytes: [u8; 32] = secret.try_into().unwrap();
    let secret = x25519_dalek::StaticSecret::from(bytes);
    x25519_dalek::PublicKey::from(&secret).as_bytes().to_vec()
}

/// Relies on x25519_dalek's `StaticSecret::diffie_hellman`. Both sides of an
/// exchange compute the same secret: the result for (`secret`, public key of
/// `b`) is the result for (`b`, public key of `secret`).
#[verifier::external_body]
pub(crate) fn x25519_shared(secret: &[u8], public: &[u8]) -> (r: Vec<u8>)
    requires
        secret@.len() == 32,
        public@.len() == 32,
    ensures
        r@ == x25519_shared_of(secret@, public@),
        r@.len() == 32,
        forall|b: Seq<u8>|
            b.len() == 32 && public@ == #[trigger] x25519_public_of(b) ==> r@ == x25519_shared_of(
                b,
                x25519_public_of(secret@),
            ),
{
    let secret: [u8; 32] = secret.try_into().unwrap();
    let public: [u8; 32] = public.try_into().unwrap();
    let secret = x25519_dalek::StaticSecret::from(secret);
    secret.diffie_hellman(&x25519_dalek::PublicKey::from(public)).as_bytes().to_vec()
}

/// Relies on ed25519_dalek's `SigningKey::to_scalar_bytes`.
#[verifier::external_body]
pub(crate) fn ed25519_scalar(secret: &[u8]) -> (r: Vec<u8>)
    requires
        secret@.len() == 32,
    ensures
        r@ == ed25519_scalar_of(secret@),
        r@.len() == 32,
{
    let bytes: [u8; 32] = secret.try_into().unwrap();
    ed25519_dalek::SigningKey::from_bytes(&bytes).to_scalar_bytes().to_vec()
}

/// Relies on chacha20poly1305's `XChaCha20Poly1305` (`Aead::encrypt`): the
/// ciphertext has the message's length and is followed by a 16-byte tag;
/// the same key, nonce and associated data open it again. Encryption fails
/// only on messages of nearly 2^38 bytes (2^32 - 1 blocks of 64) or more.
#[verifier::external_body]
pub(crate) fn aead_seal(key: &[u8], nonce: &[u8], aad: &[u8], msg: &[u8]) -> (r: Option<Vec<u8>>)
    requires
        key@.len() == 32,
        nonce@.len() == 24,
    ensures
        r matches Some(c) ==> c@ == aead_seal_of(key@, nonce@, aad@, msg@),
        r matches Some(c) ==> c@.len() == msg@.len() + 16,
        r matches Some(c) ==> aead_open_of(key@, nonce@, aad@, c@) == Some(msg@),
        msg@.len() <= u32::MAX ==> r is Some,
{
    let cipher = chacha20poly1305::XChaCha20Poly1305::new_from_slice(key).ok()?;
    let nonce = chacha20poly1305::XNonce::from_slice(nonce);
    cipher.encrypt(nonce, chacha20poly1305::aead::Payload { msg, aad }).ok()
}

/// Relies on chacha20poly1305's `XChaCha20Poly1305` (`Aead::decrypt`); a key
/// that is not 32 bytes long is refused by `KeyInit::new_from_slice`.
#[verifier::external_body]
pub(crate) fn aead_open(key: &[u8], nonce: &[u8], aad: &[u8], sealed: &[u8]) -> (r: Option<Vec<u8>>)
    requires
        nonce@.len() == 24,
    ensures
        match r {
            Some(m) => aead_open_of(key@, nonce@, aad@, sealed@) == Some(m@),
            None => aead_open_of(key@, nonce@, aad@, sealed@) is None,
        },
        key@.len() != 32 ==> r is None,
{
    let cipher = chacha20poly1305::XChaCha20Poly1305::new_from_slice(key).ok()?;
    let nonce = chacha20poly1305::XNonce::from_slice(nonce);
    cipher.decrypt(nonce, chacha20poly1305::aead::Payload { msg: sealed, aad }).ok()
}

/// Relies on rand_chacha's `ChaCha20Rng`, seeded from the operating system
/// (`from_entropy`), and `RngCore::fill_bytes`: `len` unpredictable bytes.
#[verifier::external_body]
pub(crate) fn random_bytes(len: usize) -> (r: Vec<u8>)
    ensures
        r@.len() == len,
{
    let mut rng = rand_chacha::ChaCha20Rng::from_entropy();
    let mut bytes = vec![0u8; len];
    rng.fill_bytes(&mut bytes);
    bytes
}

} // verus!
