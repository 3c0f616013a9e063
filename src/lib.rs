//! Multi-recipient encrypted envelopes ("group JWE") and the padded
//! cleartext container that travels inside them.
//!
//! - `padding`: reversible block padding (a `0x80` marker, then zeros).
//! - `varint`, `cid`: identity content identifiers that frame encoded bytes.
//! - `cleartext`: DAG-CBOR bytes framed in an identifier and padded.
//! - `kdf`: the Concat KDF that turns a shared secret into a key-wrapping key.
//! - `keys`: X25519 keys read from verification methods and private JWKs.
//! - `primitives`: the outside cryptography and encodings, with what is
//!   relied on stated in each contract.
//! - `jwe`: encryption to every recipient and first-success decryption.

pub mod padding;
pub mod primitives;
pub mod kdf;
pub mod keys;
pub mod jwe;
pub mod varint;
pub mod cid;
pub mod cleartext;
