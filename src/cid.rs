//! A minimal content identifier (CIDv1) with the identity digest: the
//! "digest" is the encoded payload itself, so the identifier is a typed,
//! self-describing container for those bytes.
use vstd::prelude::*;
use crate::varint::{varint_spec, encode_varint, decode_varint, lemma_varint_prefix_free};

verus! {

pub const VERSION_1: u64 = 0x01;

/// Multihash code of the identity function.
pub const IDENTITY_CODE: u64 = 0x00;

/// Multicodec code of DAG-CBOR.
pub const DAG_CBOR_CODE: u64 = 0x71;

/// `[version][codec][digest function][digest length]`, each a varint.
pub open spec fn cid_header(version: u64, codec: u64, hash_code: u64, len: nat) -> Seq<u8> {
    varint_spec(version as nat) + varint_spec(codec as nat) + varint_spec(hash_code as nat)
        + varint_spec(len)
}

/// The bytes of a version 1 identifier with the identity digest `digest`.
pub open spec fn cid_bytes(codec: u64, digest: Seq<u8>) -> Seq<u8> {
    cid_header(VERSION_1, codec, IDENTITY_CODE, digest.len()) + digest
}

/// Why bytes could not be read as an identifier.
#[derive(Debug, Clone, Copy, PartialEq, Eq, Structural)]
pub enum CidError {
    /// A header field is not a well-formed varint.
    InvalidVarint,
    /// The version is not 1.
    UnsupportedVersion,
    /// The digest function is not the identity.
    UnsupportedHash,
    /// Fewer bytes follow the header than its length field announces.
    InvalidLength,
}

#[derive(Debug)]
pub struct SimpleCid {
    pub codec: u64,
    pub digest: Vec<u8>,
}

proof fn lemma_prefix_split(a: Seq<u8>, b: Seq<u8>, s: Seq<u8>)
    requires
        (a + b).is_prefix_of(s),
    ensures
        a.is_prefix_of(s),
        b.is_prefix_of(s.skip(a.len() as int)),
{
    assert(a =~= (a + b).subrange(0, a.len() as int));
    assert(b =~= (a + b).subrange(a.len() as int, (a + b).len() as int));
    assert(a =~= s.subrange(0, a.len() as int));
    assert(b =~= s.skip(a.len() as int).subrange(0, b.len() as int));
}

/// Splits a prefix made of five consecutive parts into one prefix per part.
proof fn lemma_split5(
    a1: Seq<u8>,
    a2: Seq<u8>,
    a3: Seq<u8>,
    a4: Seq<u8>,
    d: Seq<u8>,
    s: Seq<u8>,
)
    requires
        (a1 + a2 + a3 + a4 + d).is_prefix_of(s),
    ensures
        a1.is_prefix_of(s),
        a2.is_prefix_of(s.skip(a1.len() as int)),
        a3.is_prefix_of(s.skip(a1.len() as int).skip(a2.len() as int)),
        a4.is_prefix_of(s.skip(a1.len() as int).skip(a2.len() as int).skip(a3.len() as int)),
        d.is_prefix_of(
            s.skip(a1.len() as int).skip(a2.len() as int).skip(a3.len() as int).skip(
                a4.len() as int,
            ),
        ),
{
    lemma_prefix_split(a1 + a2 + a3 + a4, d, s);
    lemma_prefix_split(a1 + a2 + a3, a4, s);
    lemma_prefix_split(a1 + a2, a3, s);
    lemma_prefix_split(a1, a2, s);
    let l1 = a1.len() as int;
    let l2 = a2.len() as int;
    let l3 = a3.len() as int;
    let l4 = a4.len() as int;
    assert(s.skip(l1 + l2) =~= s.skip(l1).skip(l2));
    assert(s.skip(l1 + l2 + l3) =~= s.skip(l1).skip(l2).skip(l3));
    assert(s.skip(l1 + l2 + l3 + l4) =~= s.skip(l1).skip(l2).skip(l3).skip(l4));
    assert((a1 + a2 + a3 + a4).len() == l1 + l2 + l3 + l4);
}

spec fn header_parts(codec: u64, h: u64, len: nat, d: Seq<u8>, s: Seq<u8>) -> bool {
    let s1 = s.skip(varint_spec(VERSION_1 as nat).len() as int);
    let s2 = s1.skip(varint_spec(codec as nat).len() as int);
    let s3 = s2.skip(varint_spec(h as nat).len() as int);
    let s4 = s3.skip(varint_spec(len).len() as int);
    &&& varint_spec(VERSION_1 as nat).is_prefix_of(s)
    &&& varint_spec(codec as nat).is_prefix_of(s1)
    &&& varint_spec(h as nat).is_prefix_of(s2)
    &&& varint_spec(len).is_prefix_of(s3)
    &&& d.is_prefix_of(s4)
}

spec fn three_parts(codec: u64, h: u64, s: Seq<u8>) -> bool {
    let s1 = s.skip(varint_spec(VERSION_1 as nat).len() as int);
    let s2 = s1.skip(varint_spec(codec as nat).len() as int);
    &&& varint_spec(VERSION_1 as nat).is_prefix_of(s)
    &&& varint_spec(codec as nat).is_prefix_of(s1)
    &&& varint_spec(h as nat).is_prefix_of(s2)
}

/// The facts about a byte string that start with a full identifier header
/// (or its first three fields, with `a4` empty).
proof fn lemma_header_parts(codec: u64, h: u64, len: nat, d: Seq<u8>, s: Seq<u8>)
    requires
        (cid_header(VERSION_1, codec, h, len) + d).is_prefix_of(s),
    ensures
        header_parts(codec, h, len, d, s),
{
    lemma_split5(
        varint_spec(VERSION_1 as nat),
        varint_spec(codec as nat),
        varint_spec(h as nat),
        varint_spec(len),
        d,
        s,
    );
}

proof fn lemma_three_parts(codec: u64, h: u64, s: Seq<u8>)
    requires
        (varint_spec(VERSION_1 as nat) + varint_spec(codec as nat) + varint_spec(h as nat)).is_prefix_of(s),
    ensures
        three_parts(codec, h, s),
{
    let e = Seq::<u8>::empty();
    let x = varint_spec(VERSION_1 as nat) + varint_spec(codec as nat) + varint_spec(h as nat);
    assert(x + e + e =~= x);
    lemma_split5(
        varint_spec(VERSION_1 as nat),
        varint_spec(codec as nat),
        varint_spec(h as nat),
        e,
        e,
        s,
    );
}

/// Identifiers of one codec with different digests have different bytes.
pub proof fn lemma_cid_bytes_injective(codec: u64, d1: Seq<u8>, d2: Seq<u8>)
    requires
        cid_bytes(codec, d1) == cid_bytes(codec, d2),
    ensures
        d1 == d2,
{
    let s = cid_bytes(codec, d1);
    assert(s.is_prefix_of(s));
    lemma_header_parts(codec, IDENTITY_CODE, d1.len(), d1, s);
    lemma_header_parts(codec, IDENTITY_CODE, d2.len(), d2, s);
    let s3 = s.skip(varint_spec(VERSION_1 as nat).len() as int).skip(
        varint_spec(codec as nat).len() as int,
    ).skip(varint_spec(IDENTITY_CODE as nat).len() as int);
    lemma_varint_prefix_free(d1.len(), d2.len(), s3);
    assert(d1 =~= s.skip(s.len() - d1.len()));
    assert(d2 =~= s.skip(s.len() - d2.len()));
}

impl SimpleCid {
    pub fn new_v1(codec: u64, digest: Vec<u8>) -> (r: Self)
        ensures
            r.codec == codec,
            r.digest@ == digest@,
    {
        SimpleCid { codec, digest }
    }

    /// Appends the identifier's bytes to `w` and returns how many were written.
    pub fn write_bytes(&self, w: &mut Vec<u8>) -> (written: usize)
        ensures
            final(w)@ == old(w)@ + cid_bytes(self.codec, self.digest@),
            written == cid_bytes(self.codec, self.digest@).len(),
    {
        let start: usize = w.len();
        let version = encode_varint(VERSION_1);
        let codec = encode_varint(self.codec);
        let hash_code = encode_varint(IDENTITY_CODE);
        let size = encode_varint(self.digest.len() as u64);
        w.extend_from_slice(version.as_slice());
        w.extend_from_slice(codec.as_slice());
        w.extend_from_slice(hash_code.as_slice());
        w.extend_from_slice(size.as_slice());
        w.extend_from_slice(self.digest.as_slice());
        assert(w@ =~= old(w)@ + cid_bytes(self.codec, self.digest@));
        w.len() - start
    }

    pub fn to_bytes(&self) -> (r: Vec<u8>)
        ensures
            r@ == cid_bytes(self.codec, self.digest@),
    {
        let mut bytes: Vec<u8> = Vec::new();
        self.write_bytes(&mut bytes);
        assert(bytes@ =~= cid_bytes(self.codec, self.digest@));
        bytes
    }

    /// Reads an identifier from the front of `bytes`; bytes after the digest are ignored.
    pub fn from_bytes(bytes: &[u8]) -> (r: Result<SimpleCid, CidError>)
        ensures
            forall|codec: u64, digest: Seq<u8>| #[trigger]
                cid_bytes(codec, digest).is_prefix_of(bytes@) ==> (r matches Ok(c) && c.codec
                    == codec && c.digest@ == digest),
            forall|v: u64| #[trigger]
                varint_spec(v as nat).is_prefix_of(bytes@) && v != VERSION_1 ==> r == Err::<
                    SimpleCid,
                    CidError,
                >(CidError::UnsupportedVersion),
            forall|codec: u64, h: u64| #[trigger]
                (varint_spec(VERSION_1 as nat) + varint_spec(codec as nat) + varint_spec(
                    h as nat,
                )).is_prefix_of(bytes@) && h != IDENTITY_CODE ==> r == Err::<SimpleCid, CidError>(
                    CidError::UnsupportedHash,
                ),
            forall|codec: u64, len: u64| #[trigger]
                cid_header(VERSION_1, codec, IDENTITY_CODE, len as nat).is_prefix_of(bytes@)
                    && bytes@.len() < cid_header(VERSION_1, codec, IDENTITY_CODE, len as nat).len()
                    + len ==> r == Err::<SimpleCid, CidError>(CidError::InvalidLength),
    {
        let n: usize = bytes.len();
        proof {
            assert forall|codec: u64, digest: Seq<u8>| #[trigger]
                cid_bytes(codec, digest).is_prefix_of(bytes@) implies header_parts(
                codec,
                IDENTITY_CODE,
                digest.len(),
                digest,
                bytes@,
            ) by {
                lemma_header_parts(codec, IDENTITY_CODE, digest.len(), digest, bytes@);
                assert(cid_bytes(codec, digest).len() == cid_header(
                    VERSION_1,
                    codec,
                    IDENTITY_CODE,
                    digest.len(),
                ).len() + digest.len());
                assert(digest.len() <= n);
                assert((digest.len() as u64) as nat == digest.len());
            }
            assert forall|codec: u64, len: u64| #[trigger]
                cid_header(VERSION_1, codec, IDENTITY_CODE, len as nat).is_prefix_of(
                    bytes@,
                ) implies header_parts(codec, IDENTITY_CODE, len as nat, Seq::empty(), bytes@) by {
                assert(cid_header(VERSION_1, codec, IDENTITY_CODE, len as nat) + Seq::<u8>::empty()
                    =~= cid_header(VERSION_1, codec, IDENTITY_CODE, len as nat));
                lemma_header_parts(codec, IDENTITY_CODE, len as nat, Seq::empty(), bytes@);
            }
            assert forall|codec: u64, h: u64| #[trigger]
                (varint_spec(VERSION_1 as nat) + varint_spec(codec as nat) + varint_spec(
                    h as nat,
                )).is_prefix_of(bytes@) implies three_parts(codec, h, bytes@) by {
                lemma_three_parts(codec, h, bytes@);
            }
        }
        let (version, rest) = match decode_varint(bytes) {
            Some(x) => x,
            None => return Err(CidError::InvalidVarint),
        };
        if version != VERSION_1 {
            return Err(CidError::UnsupportedVersion);
        }
        let (codec, rest) = match decode_varint(rest) {
            Some(x) => x,
            None => return Err(CidError::InvalidVarint),
        };
        let (hash_code, rest) = match decode_varint(rest) {
            Some(x) => x,
            None => return Err(CidError::InvalidVarint),
        };
        if hash_code != IDENTITY_CODE {
            return Err(CidError::UnsupportedHash);
        }
        let (hash_len, rest) = match decode_varint(rest) {
            Some(x) => x,
            None => return Err(CidError::InvalidVarint),
        };
        if (rest.len() as u64) < hash_len {
            return Err(CidError::InvalidLength);
        }
        let digest = vstd::slice::slice_to_vec(vstd::slice::slice_subrange(rest, 0, hash_len as usize));
        Ok(SimpleCid::new_v1(codec, digest))
    }
}

} // verus!
