//! Reversible block padding (ISO/IEC 7816-4 style): a single `0x80` marker
//! byte followed by zero bytes up to the next multiple of the block size.
//! At least one byte is always added, so every padded string is unambiguous.
use vstd::prelude::*;

verus! {

/// Block size used when the caller does not choose one.
pub const ENC_BLOCK_SIZE: usize = 24;

/// The byte that marks where padding begins.
pub const PAD_MARKER: u8 = 0x80;

pub open spec fn effective_block_size(block_size: Option<usize>) -> nat {
    match block_size {
        Some(b) => b as nat,
        None => ENC_BLOCK_SIZE as nat,
    }
}

/// Number of bytes that padding appends to a string of `len` bytes: between 1 and `b`.
pub open spec fn pad_count(len: nat, b: nat) -> nat
    recommends
        b > 0,
{
    (b - len % b) as nat
}

/// `bytes`, then the marker, then zeros up to the next multiple of `b`.
pub open spec fn pad_spec(bytes: Seq<u8>, b: nat) -> Seq<u8>
    recommends
        b > 0,
{
    bytes + seq![PAD_MARKER] + Seq::new((pad_count(bytes.len(), b) - 1) as nat, |i: int| 0u8)
}

/// The unpadded string, when `padded` is the padding of some string.
pub open spec fn unpad_spec(padded: Seq<u8>, b: nat) -> Option<Seq<u8>> {
    if exists|m: Seq<u8>| pad_spec(m, b) == padded {
        Some(choose|m: Seq<u8>| pad_spec(m, b) == padded)
    } else {
        None
    }
}

/// Why a padded string was rejected.
#[derive(Debug, Clone, Copy, PartialEq, Eq, Structural)]
pub enum PaddingError {
    /// The length is zero or not a multiple of the block size.
    BadLength,
    /// No marker byte within the last block, or a non-zero byte after it.
    BadPadding,
}

proof fn lemma_pad_count_bounds(len: nat, b: nat)
    requires
        b > 0,
    ensures
        1 <= pad_count(len, b) <= b,
        (len + pad_count(len, b)) % b == 0,
{
    let r = len % b;
    assert(len == b * (len / b) + r) by (nonlinear_arith)
        requires r == len % b, b > 0;
    assert(0 <= r < b) by (nonlinear_arith)
        requires r == len % b, b > 0;
    let q = (len / b) as int;
    assert(len + pad_count(len, b) == b * (q + 1)) by (nonlinear_arith)
        requires len == b * q + r, pad_count(len, b) == b - r;
    vstd::arithmetic::div_mod::lemma_mod_multiples_basic(q + 1, b as int);
}

proof fn lemma_pad_length(bytes: Seq<u8>, b: nat)
    requires
        b > 0,
    ensures
        pad_spec(bytes, b).len() % b == 0,
        bytes.len() < pad_spec(bytes, b).len() <= bytes.len() + b,
{
    lemma_pad_count_bounds(bytes.len(), b);
}

/// Two strings with the same padding are the same string.
pub proof fn lemma_pad_injective(m1: Seq<u8>, m2: Seq<u8>, b: nat)
    requires
        b > 0,
        pad_spec(m1, b) == pad_spec(m2, b),
    ensures
        m1 == m2,
{
    lemma_pad_count_bounds(m1.len(), b);
    lemma_pad_count_bounds(m2.len(), b);
    let p = pad_spec(m1, b);
    let p2 = pad_spec(m2, b);
    let n1 = m1.len() as int;
    let n2 = m2.len() as int;
    let z1 = Seq::new((pad_count(m1.len(), b) - 1) as nat, |i: int| 0u8);
    let z2 = Seq::new((pad_count(m2.len(), b) - 1) as nat, |i: int| 0u8);
    assert(p.len() == n1 + 1 + z1.len());
    assert(p2.len() == n2 + 1 + z2.len());
    if n1 < n2 {
        assert(p2[n2] == PAD_MARKER);
        assert(p[n2] == z1[n2 - n1 - 1]);
    } else if n2 < n1 {
        assert(p[n1] == PAD_MARKER);
        assert(p2[n1] == z2[n1 - n2 - 1]);
    }
    assert(m1 =~= p.subrange(0, m1.len() as int));
    assert(m2 =~= p.subrange(0, m2.len() as int));
}

/// Padding round trip: for every string and every block size, unpadding
/// the padded string gives the string back, and the padded length is a
/// multiple of the block size, longer than the string by at least one byte
/// and at most one block.
pub proof fn lemma_pad_round_trip(bytes: Seq<u8>, b: nat)
    requires
        b > 0,
    ensures
        unpad_spec(pad_spec(bytes, b), b) == Some(bytes),
        pad_spec(bytes, b).len() % b == 0,
        bytes.len() < pad_spec(bytes, b).len() <= bytes.len() + b,
{
    lemma_pad_length(bytes, b);
    let p = pad_spec(bytes, b);
    assert(pad_spec(bytes, b) == p);
    let m = choose|m: Seq<u8>| pad_spec(m, b) == p;
    lemma_pad_injective(m, bytes, b);
}

proof fn lemma_pad_count_of_total(x: nat, c: nat, b: nat)
    requires
        b > 0,
        1 <= c <= b,
        (x + c) % b == 0,
    ensures
        pad_count(x, b) == c,
{
    let r = x % b;
    let q = x / b;
    assert(x == b * q + r && 0 <= r < b) by (nonlinear_arith)
        requires r == x % b, q == x / b, b > 0;
    let t = ((x + c) / b) as int;
    assert(x + c == b * t) by (nonlinear_arith)
        requires (x + c) % b == 0, t == (x + c) / b, b > 0;
    // b * t == b * q + r + c with 0 <= r < b and 1 <= c <= b, so t == q + 1
    assert(t == q + 1) by (nonlinear_arith)
        requires b * t == b * q + r + c, 0 <= r < b, 1 <= c <= b, b > 0;
    assert(r + c == b) by (nonlinear_arith)
        requires b * t == b * q + r + c, t == q + 1;
}

proof fn lemma_pad_shape(m: Seq<u8>, b: nat)
    requires
        b > 0,
    ensures
        pad_spec(m, b).len() == m.len() + pad_count(m.len(), b),
        pad_spec(m, b)[m.len() as int] == PAD_MARKER,
        forall|k: int| m.len() < k < pad_spec(m, b).len() ==> pad_spec(m, b)[k] == 0u8,
        forall|k: int| 0 <= k < m.len() ==> pad_spec(m, b)[k] == m[k],
        pad_spec(m, b).len() % b == 0,
        1 <= pad_count(m.len(), b) <= b,
{
    lemma_pad_count_bounds(m.len(), b);
}

/// Removes the padding that `pad` added with the same block size, checking
/// the length, the marker and every zero byte after it.
pub fn unpad(bytes: &[u8], block_size: Option<usize>) -> (r: Result<Vec<u8>, PaddingError>)
    requires
        block_size != Some(0usize),
    ensures
        match r {
            Ok(m) => unpad_spec(bytes@, effective_block_size(block_size)) == Some(m@),
            Err(_) => unpad_spec(bytes@, effective_block_size(block_size)) is None,
        },
{
    let block_size: usize = match block_size {
        Some(b) => b,
        None => ENC_BLOCK_SIZE,
    };
    let ghost b = block_size as nat;
    let n: usize = bytes.len();
    if n == 0 || n % block_size != 0 {
        proof {
            assert forall|m: Seq<u8>| pad_spec(m, b) != bytes@ by {
                if pad_spec(m, b) == bytes@ {
                    lemma_pad_shape(m, b);
                }
            }
        }
        return Err(PaddingError::BadLength);
    }
    let mut i: usize = n;
    while i > 0 && bytes[i - 1] == 0u8
        invariant
            i <= n,
            n == bytes@.len(),
            forall|k: int| i <= k < n ==> bytes@[k] == 0u8,
        decreases i,
    {
        i = i - 1;
    }
    if i == 0 || bytes[i - 1] != PAD_MARKER || n - i >= block_size {
        proof {
            assert forall|m: Seq<u8>| pad_spec(m, b) != bytes@ by {
                if pad_spec(m, b) == bytes@ {
                    lemma_pad_shape(m, b);
                    let z = m.len() as int;
                    if i as int - 1 > z {
                        assert(bytes@[i - 1] == 0u8);
                    }
                    assert(bytes@[z] != 0u8);
                }
            }
        }
        return Err(PaddingError::BadPadding);
    }
    let m: Vec<u8> = vstd::slice::slice_to_vec(vstd::slice::slice_subrange(bytes, 0, i - 1));
    proof {
        let c = (n - i + 1) as nat;
        lemma_pad_count_of_total((i - 1) as nat, c, b);
        lemma_pad_shape(m@, b);
        assert(pad_spec(m@, b) =~= bytes@);
        let w = choose|w: Seq<u8>| pad_spec(w, b) == bytes@;
        lemma_pad_injective(w, m@, b);
    }
    Ok(m)
}

/// Appends the marker and zero bytes so that the length becomes a multiple
/// of the block size (24 when none is given).
pub fn pad(bytes: &[u8], block_size: Option<usize>) -> (r: Vec<u8>)
    requires
        block_size != Some(0usize),
        bytes@.len() + effective_block_size(block_size) <= usize::MAX,
    ensures
        r@ == pad_spec(bytes@, effective_block_size(block_size)),
{
    let block_size: usize = match block_size {
        Some(b) => b,
        None => ENC_BLOCK_SIZE,
    };
    let pad_len: usize = block_size - bytes.len() % block_size;
    let mut padded: Vec<u8> = Vec::with_capacity(bytes.len() + pad_len);
    padded.extend_from_slice(bytes);
    padded.push(PAD_MARKER);
    let mut i: usize = 1;
    while i < pad_len
        invariant
            1 <= i <= pad_len,
            pad_len == pad_count(bytes@.len(), block_size as nat),
            padded@ == bytes@ + seq![PAD_MARKER] + Seq::new((i - 1) as nat, |k: int| 0u8),
        decreases pad_len - i,
    {
        padded.push(0u8);
        i = i + 1;
        assert(padded@ =~= bytes@ + seq![PAD_MARKER] + Seq::new((i - 1) as nat, |k: int| 0u8));
    }
    padded
}

} // verus!
