//! Single-round Concat KDF (NIST SP 800-56A) over SHA-256, as JWA uses it
//! for ECDH-ES.
use vstd::prelude::*;
use crate::primitives::{sha256, sha256_of};
use vstd::string::StringSliceAdditionalSpecFns;
use vstd::arithmetic::div_mod::{lemma_fundamental_div_mod, lemma_hoist_over_denominator, lemma_mod_multiples_vanish};

verus! {

/// Big-endian bytes of a 32-bit value.
pub open spec fn be32(n: nat) -> Seq<u8> {
    seq![
        ((n / 0x100_0000) % 0x100) as u8,
        ((n / 0x1_0000) % 0x100) as u8,
        ((n / 0x100) % 0x100) as u8,
        (n % 0x100) as u8,
    ]
}

/// A length-prefixed field: four big-endian length bytes, then the data.
pub open spec fn length_prefixed(data: Seq<u8>) -> Seq<u8> {
    be32(data.len()) + data
}

/// The buffer that is hashed: round counter 1, the shared secret, the
/// algorithm id, PartyUInfo (empty when absent), an empty PartyVInfo, and
/// the requested key length in bits.
pub open spec fn kdf_input(
    shared_secret: Seq<u8>,
    key_bits: nat,
    algorithm: Seq<u8>,
    apu: Option<Seq<u8>>,
) -> Seq<u8> {
    let apu = match apu {
        Some(a) => a,
        None => Seq::empty(),
    };
    be32(1) + shared_secret + length_prefixed(algorithm) + length_prefixed(apu) + be32(0) + be32(
        key_bits,
    )
}

/// The derived key: the whole SHA-256 digest of the buffer.
pub open spec fn concat_kdf_spec(
    shared_secret: Seq<u8>,
    key_bits: nat,
    algorithm: Seq<u8>,
    apu: Option<Seq<u8>>,
) -> Seq<u8> {
    sha256_of(kdf_input(shared_secret, key_bits, algorithm, apu))
}

/// A byte of `n` at or below bit 24 is the same byte of `n`'s low 32 bits.
proof fn lemma_byte_of_low_bits(n: nat, d: nat, k: nat)
    requires
        d > 0,
        d * (256 * k) == 0x1_0000_0000,
    ensures
        ((n % 0x1_0000_0000) / d) % 256 == (n / d) % 256,
{
    let q = (n / 0x1_0000_0000) as int;
    let m = (n % 0x1_0000_0000) as int;
    lemma_fundamental_div_mod(n as int, 0x1_0000_0000);
    assert(n == m + (q * 256 * k) * d) by (nonlinear_arith)
        requires n == 0x1_0000_0000 * q + m, d * (256 * k) == 0x1_0000_0000;
    lemma_hoist_over_denominator(m, q * 256 * k, d);
    assert(n as int / d as int == m / d as int + q * 256 * k);
    assert(m / d as int + q * 256 * k == 256 * (q * k) + m / d as int) by (nonlinear_arith);
    lemma_mod_multiples_vanish(q * k, m / d as int, 256);
}

/// Only the low 32 bits of a length reach its big-endian bytes.
proof fn lemma_be32_low_bits(n: nat)
    ensures
        be32(n) == be32(n % 0x1_0000_0000),
{
    lemma_byte_of_low_bits(n, 0x100_0000, 1);
    lemma_byte_of_low_bits(n, 0x1_0000, 0x100);
    lemma_byte_of_low_bits(n, 0x100, 0x1_0000);
    lemma_byte_of_low_bits(n, 1, 0x100_0000);
    assert(n / 1 == n);
    assert((n % 0x1_0000_0000) / 1 == n % 0x1_0000_0000);
}

fn write_u32_be(buf: &mut Vec<u8>, n: u32)
    ensures
        final(buf)@ == old(buf)@ + be32(n as nat),
{
    buf.push((n / 0x100_0000) as u8);
    buf.push(((n / 0x1_0000) % 0x100) as u8);
    buf.push(((n / 0x100) % 0x100) as u8);
    buf.push((n % 0x100) as u8);
    assert(final(buf)@ =~= old(buf)@ + be32(n as nat));
}

/// Derives a key of `key_data_len` bits (at most 256, the digest size) from
/// a shared secret, an algorithm identifier and optional PartyUInfo.
pub fn concat_kdf(
    shared_secret: &[u8],
    key_data_len: usize,
    algorithm: &str,
    apu: Option<&[u8]>,
) -> (r: Vec<u8>)
    requires
        key_data_len <= 256,
    ensures
        r@ == concat_kdf_spec(
            shared_secret@,
            key_data_len as nat,
            algorithm.spec_bytes(),
            match apu {
                Some(a) => Some(a@),
                None => None,
            },
        ),
        r@.len() == 32,
{
    let ghost apu_seq = match apu {
        Some(a) => a@,
        None => Seq::<u8>::empty(),
    };
    let alg = algorithm.as_bytes();
    let mut round_bytes: Vec<u8> = Vec::new();
    write_u32_be(&mut round_bytes, 1);
    round_bytes.extend_from_slice(shared_secret);
    proof {
        lemma_be32_low_bits(alg@.len());
    }
    write_u32_be(&mut round_bytes, (alg.len() as u64 % 0x1_0000_0000) as u32);
    round_bytes.extend_from_slice(alg);
    assert(round_bytes@ =~= be32(1) + shared_secret@ + length_prefixed(alg@));
    match apu {
        Some(apu_data) => {
            proof {
                lemma_be32_low_bits(apu_data@.len());
            }
            write_u32_be(&mut round_bytes, (apu_data.len() as u64 % 0x1_0000_0000) as u32);
            round_bytes.extend_from_slice(apu_data);
        },
        None => {
            write_u32_be(&mut round_bytes, 0);
        },
    }
    assert(round_bytes@ =~= be32(1) + shared_secret@ + length_prefixed(alg@) + length_prefixed(
        apu_seq,
    ));
    write_u32_be(&mut round_bytes, 0);
    write_u32_be(&mut round_bytes, key_data_len as u32);
    let ghost a = match apu {
        Some(a) => Some(a@),
        None => None::<Seq<u8>>,
    };
    assert(round_bytes@ =~= kdf_input(shared_secret@, key_data_len as nat, alg@, a));
    sha256(round_bytes.as_slice())
}

} // verus!
