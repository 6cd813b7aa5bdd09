use vstd::prelude::*;

use crate::curve::{be_val, curve_order, scalar_reduce, CurveScalar};
use sha2::Digest;

verus! {

/// The SHA-256 digest of `data`.
pub uninterp spec fn sha256_of(data: Seq<u8>) -> Seq<u8>;

/// Tag of the hash that yields the shared secret `d`.
pub const TAG_SHARED_SECRET: u8 = 1;

/// Tag of the hash that yields a kfrag's share index.
pub const TAG_POLYNOMIAL_ARG: u8 = 2;

/// Tag of the hash that yields the re-encryption proof challenge.
pub const TAG_CFRAG_CHALLENGE: u8 = 3;

/// Tag of the hash that binds the points of a capsule.
pub const TAG_CAPSULE_POINTS: u8 = 4;

/// Tag of the digest that kfrag signatures cover.
pub const TAG_CFRAG_SIGNATURE: u8 = 5;

/// Relies on `sha2::Sha256::digest`: a 32-byte digest.
#[verifier::external_body]
pub(crate) fn sha256(data: &Vec<u8>) -> (r: Vec<u8>)
    ensures
        r@ == sha256_of(data@),
        r@.len() == 32,
{
    sha2::Sha256::digest(data).to_vec()
}

/// The tagged digest `SHA-256(tag ‖ data)`.
pub open spec fn tagged_digest(tag: u8, data: Seq<u8>) -> Seq<u8> {
    sha256_of(seq![tag] + data)
}

/// The scalar that the tagged digest of `data` reduces to.
pub open spec fn tagged_scalar(tag: u8, data: Seq<u8>) -> int {
    be_val(tagged_digest(tag, data)) % curve_order()
}

/// Appends `src` to `dst`.
pub fn append_bytes(dst: &mut Vec<u8>, src: &[u8])
    ensures
        final(dst)@ == old(dst)@ + src@,
{
    let mut i: usize = 0;
    while i < src.len()
        invariant
            i <= src@.len(),
            dst@ == old(dst)@ + src@.subrange(0, i as int),
        decreases src@.len() - i,
    {
        dst.push(src[i]);
        i = i + 1;
        assert(dst@ == old(dst)@ + src@.subrange(0, i as int));
    }
    assert(src@.subrange(0, src@.len() as int) == src@);
}

/// The SHA-256 digest of `tag ‖ data`.
pub fn digest_tagged(tag: u8, data: &Vec<u8>) -> (r: Vec<u8>)
    ensures
        r@ == tagged_digest(tag, data@),
        r@.len() == 32,
{
    let mut input: Vec<u8> = Vec::new();
    input.push(tag);
    append_bytes(&mut input, data.as_slice());
    assert(input@ == seq![tag] + data@);
    sha256(&input)
}

/// Hashes `tag ‖ data` to a scalar: the digest read big-endian, modulo the group order.
pub fn hash_to_scalar(tag: u8, data: &Vec<u8>) -> (r: CurveScalar)
    ensures
        r.wf(),
        r.val() == tagged_scalar(tag, data@),
{
    let d = digest_tagged(tag, data);
    scalar_reduce(&d)
}

} // verus!
