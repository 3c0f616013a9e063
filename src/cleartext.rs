//! The cleartext container: an encoded value is wrapped in an identity
//! content identifier tagged with its codec, then padded to a block
//! boundary so that the envelope does not reveal its exact length.
use vstd::prelude::*;
use crate::cid::{
    SimpleCid, CidError, cid_bytes, DAG_CBOR_CODE, VERSION_1, IDENTITY_CODE, lemma_cid_bytes_injective,
};
use crate::padding::{pad, unpad, pad_spec, unpad_spec, effective_block_size, PaddingError, lemma_pad_round_trip};
use crate::varint::lemma_varint_len;

verus! {

/// Why padded bytes could not be turned back into an encoded value.
#[derive(Debug, Clone, Copy, PartialEq, Eq, Structural)]
pub enum CleartextError {
    Padding(PaddingError),
    Cid(CidError),
    /// The identifier names a codec other than DAG-CBOR.
    UnsupportedCodec,
}

/// The padded container of DAG-CBOR bytes `encoded`.
pub open spec fn prepared_spec(encoded: Seq<u8>, b: nat) -> Seq<u8> {
    pad_spec(cid_bytes(DAG_CBOR_CODE, encoded), b)
}

/// The DAG-CBOR bytes held by padded cleartext: defined when unpadding
/// gives exactly an identifier of the DAG-CBOR codec.
pub open spec fn payload_of(bytes: Seq<u8>, b: nat) -> Option<Seq<u8>> {
    match unpad_spec(bytes, b) {
        Some(m) => if exists|e: Seq<u8>| m == cid_bytes(DAG_CBOR_CODE, e) {
            Some(choose|e: Seq<u8>| m == cid_bytes(DAG_CBOR_CODE, e))
        } else {
            None
        },
        None => None,
    }
}

proof fn lemma_cid_len(codec: u64, digest: Seq<u8>)
    requires
        digest.len() <= u64::MAX,
    ensures
        cid_bytes(codec, digest).len() <= digest.len() + 40,
{
    lemma_varint_len(VERSION_1 as nat);
    lemma_varint_len(codec as nat);
    lemma_varint_len(IDENTITY_CODE as nat);
    lemma_varint_len(digest.len());
}

/// Wraps DAG-CBOR bytes in an identity identifier and pads the result to
/// the block size (24 when none is given).
pub fn prepare_encoded_cleartext(encoded: &[u8], block_size: Option<usize>) -> (r: Vec<u8>)
    requires
        block_size != Some(0usize),
        encoded@.len() + 40 + effective_block_size(block_size) <= usize::MAX,
    ensures
        r@ == prepared_spec(encoded@, effective_block_size(block_size)),
{
    let digest: Vec<u8> = vstd::slice::slice_to_vec(encoded);
    let cid = SimpleCid::new_v1(DAG_CBOR_CODE, digest);
    let bytes = cid.to_bytes();
    proof {
        lemma_cid_len(DAG_CBOR_CODE, encoded@);
    }
    pad(bytes.as_slice(), block_size)
}

/// Strips and checks the padding, reads the identifier, and hands back the
/// DAG-CBOR bytes it holds.
pub fn decode_encoded_cleartext(bytes: &[u8], block_size: Option<usize>) -> (r: Result<
    Vec<u8>,
    CleartextError,
>)
    requires
        block_size != Some(0usize),
    ensures
        unpad_spec(bytes@, effective_block_size(block_size)) is None ==> r matches Err(
            CleartextError::Padding(_),
        ),
        payload_of(bytes@, effective_block_size(block_size)) matches Some(e) ==> (r matches Ok(v)
            && v@ == e),
        forall|codec: u64, digest: Seq<u8>|
            codec != DAG_CBOR_CODE && unpad_spec(bytes@, effective_block_size(block_size)) == Some(
                #[trigger] cid_bytes(codec, digest),
            ) ==> r == Err::<Vec<u8>, CleartextError>(CleartextError::UnsupportedCodec),
        r is Ok ==> unpad_spec(bytes@, effective_block_size(block_size)) is Some,
{
    let unpadded = match unpad(bytes, block_size) {
        Ok(u) => u,
        Err(e) => return Err(CleartextError::Padding(e)),
    };
    proof {
        assert forall|codec: u64, digest: Seq<u8>|
            unpadded@ == #[trigger] cid_bytes(codec, digest) implies cid_bytes(
            codec,
            digest,
        ).is_prefix_of(unpadded@) by {
            assert(cid_bytes(codec, digest) =~= unpadded@.subrange(0, unpadded@.len() as int));
        }
    }
    let cid = match SimpleCid::from_bytes(unpadded.as_slice()) {
        Ok(c) => c,
        Err(e) => return Err(CleartextError::Cid(e)),
    };
    if cid.codec != DAG_CBOR_CODE {
        return Err(CleartextError::UnsupportedCodec);
    }
    Ok(cid.digest)
}

/// Cleartext round trip: for every block size, the DAG-CBOR bytes held by
/// the prepared container of `encoded` are `encoded`.
pub proof fn lemma_cleartext_round_trip(encoded: Seq<u8>, b: nat)
    requires
        b > 0,
    ensures
        payload_of(prepared_spec(encoded, b), b) == Some(encoded),
{
    lemma_pad_round_trip(cid_bytes(DAG_CBOR_CODE, encoded), b);
    let m = cid_bytes(DAG_CBOR_CODE, encoded);
    let e = choose|e: Seq<u8>| m == cid_bytes(DAG_CBOR_CODE, e);
    lemma_cid_bytes_injective(DAG_CBOR_CODE, e, encoded);
}

} // verus!
