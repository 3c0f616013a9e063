//! Unsigned LEB128 varints, the integer encoding of content identifiers.
use vstd::prelude::*;

verus! {

/// The varint bytes of `n`: seven bits per byte, least significant group
/// first, the high bit set on every byte but the last.
pub open spec fn varint_spec(n: nat) -> Seq<u8>
    decreases n,
{
    if n < 128 {
        seq![n as u8]
    } else {
        seq![(n % 128 + 128) as u8] + varint_spec(n / 128)
    }
}

spec fn pow128(k: nat) -> nat
    decreases k,
{
    if k == 0 {
        1
    } else {
        128 * pow128((k - 1) as nat)
    }
}

/// A varint of a 64-bit value takes at most ten bytes.
pub proof fn lemma_varint_len(n: nat)
    requires
        n <= u64::MAX,
    ensures
        1 <= varint_spec(n).len() <= 10,
{
    reveal_with_fuel(pow128, 11);
    assert(pow128(10) == 0x40_0000_0000_0000_0000);
    lemma_varint_len_below(n, 10);
}

proof fn lemma_varint_len_below(n: nat, k: nat)
    requires
        k >= 1,
        n < pow128(k),
    ensures
        1 <= varint_spec(n).len() <= k,
    decreases k,
{
    if n >= 128 {
        let p = pow128((k - 1) as nat);
        if k == 1 {
            assert(pow128(0) == 1);
            assert(false);
        }
        assert(n / 128 < p) by (nonlinear_arith)
            requires n < 128 * p;
        lemma_varint_len_below(n / 128, (k - 1) as nat);
    }
}

/// Varints are prefix-free: two of them at the front of the same bytes are
/// the same varint.
pub proof fn lemma_varint_prefix_free(a: nat, b: nat, s: Seq<u8>)
    requires
        varint_spec(a).is_prefix_of(s),
        varint_spec(b).is_prefix_of(s),
    ensures
        a == b,
    decreases a,
{
    let va = varint_spec(a);
    let vb = varint_spec(b);
    assert(va[0] == s[0]);
    assert(vb[0] == s[0]);
    if a < 128 {
        if b >= 128 {
            assert(vb[0] == (b % 128 + 128) as u8);
        }
    } else {
        assert(va[0] == (a % 128 + 128) as u8);
        if b < 128 {
            assert(false);
        }
        assert(vb[0] == (b % 128 + 128) as u8);
        let ta = varint_spec(a / 128);
        let tb = varint_spec(b / 128);
        assert(ta =~= va.skip(1));
        assert(tb =~= vb.skip(1));
        assert(ta.is_prefix_of(s.skip(1)));
        assert(tb.is_prefix_of(s.skip(1)));
        lemma_varint_prefix_free(a / 128, b / 128, s.skip(1));
    }
}

/// Relies on unsigned_varint::encode::u64, which writes exactly these bytes.
#[verifier::external_body]
pub(crate) fn encode_varint(n: u64) -> (r: Vec<u8>)
    ensures
        r@ == varint_spec(n as nat),
{
    let mut buf = unsigned_varint::encode::u64_buffer();
    unsigned_varint::encode::u64(n, &mut buf).to_vec()
}

/// Relies on unsigned_varint::decode::u64: a varint written by the encoder at
/// the front of `buf` is read back, and the rest of `buf` is handed back.
#[verifier::external_body]
pub(crate) fn decode_varint(buf: &[u8]) -> (r: Option<(u64, &[u8])>)
    ensures
        forall|n: u64| #[trigger] varint_spec(n as nat).is_prefix_of(buf@) ==> r is Some && r.unwrap().0 == n
            && r.unwrap().1@ == buf@.skip(varint_spec(n as nat).len() as int),
        r matches Some((v, rest)) ==> rest@.len() < buf@.len() && rest@ == buf@.skip(
            buf@.len() - rest@.len(),
        ),
{
    unsigned_varint::decode::u64(buf).ok()
}

} // verus!
