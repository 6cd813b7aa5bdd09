use vstd::prelude::*;

use crate::curve::{
    bytes_to_point, curve_generator, generator_bytes, is_compressed_point, CurvePoint,
};
use crate::hashing::{append_bytes, digest_tagged, tagged_digest};

verus! {

/// Tag of the hash that derives the parameter point `u`.
pub const TAG_PARAMETERS: u8 = 6;

/// The candidate encoding tried for `u` at attempt `i`: an even `y` and `x` from the tagged hash of `i`.
pub open spec fn u_candidate(i: u8) -> Seq<u8> {
    seq![2u8] + tagged_digest(TAG_PARAMETERS, seq![i])
}

/// The first candidate from attempt `i` on that encodes a curve point.
pub open spec fn u_search(i: int) -> Option<Seq<u8>>
    decreases 256 - i,
{
    if i < 0 || i >= 256 {
        None
    } else if is_compressed_point(u_candidate(i as u8)) {
        Some(u_candidate(i as u8))
    } else {
        u_search(i + 1)
    }
}

/// The encoding of the standard parameter point `u`; the generator in the (negligible) case
/// that no candidate encodes a point.
pub open spec fn standard_u() -> Seq<u8> {
    match u_search(0) {
        Some(p) => p,
        None => generator_bytes(),
    }
}

/// Scheme parameters: the commitment base `u`.
#[derive(Clone, Debug, PartialEq, Eq)]
pub struct Parameters {
    pub u: CurvePoint,
}

impl Parameters {
    pub open spec fn wf(&self) -> bool {
        is_compressed_point(self.u.bytes@) && self.u.wf()
    }

    /// The standard parameters, derived by hashing to the curve (try-and-increment).
    pub fn new() -> (r: Parameters)
        ensures
            r.wf(),
            r.u.bytes@ == standard_u(),
            exists|c: int| 0 < c < crate::curve::curve_order() && standard_u() == #[trigger] crate::curve::gen_times(c),
    {
        let mut i: u16 = 0;
        while i < 256
            invariant
                i <= 256,
                u_search(0) == u_search(i as int),
            decreases 256 - i,
        {
            let mut label: Vec<u8> = Vec::new();
            label.push(i as u8);
            let digest = digest_tagged(TAG_PARAMETERS, &label);
            let mut candidate: Vec<u8> = Vec::new();
            candidate.push(2u8);
            append_bytes(&mut candidate, digest.as_slice());
            assert(label@ == seq![i as u8]);
            assert(candidate@ == u_candidate(i as u8));
            match bytes_to_point(candidate.as_slice()) {
                Some(p) => {
                    return Parameters { u: p };
                },
                None => {},
            }
            i = i + 1;
        }
        let g = curve_generator();
        assert(u_search(256) is None);
        assert(standard_u() == crate::curve::gen_times(1));
        Parameters { u: g }
    }

    /// The 33-byte encoding of the parameters.
    pub fn to_bytes(&self) -> (r: Vec<u8>)
        ensures
            r@ == self.u.bytes@,
    {
        crate::curve::point_to_bytes(&self.u)
    }

    /// Reads parameters from their 33-byte encoding.
    pub fn from_bytes(bytes: &[u8]) -> (r: Option<Parameters>)
        ensures
            r is Some <==> is_compressed_point(bytes@),
            r matches Some(p) ==> p.wf() && p.u.bytes@ == bytes@,
    {
        match bytes_to_point(bytes) {
            Some(u) => Some(Parameters { u }),
            None => None,
        }
    }

    /// Whether two parameter sets are the same.
    pub fn equals(&self, other: &Parameters) -> (r: bool)
        ensures
            r == (self.u.bytes@ == other.u.bytes@),
    {
        crate::curve::bytes_equal(self.u.bytes.as_slice(), other.u.bytes.as_slice())
    }

    /// A copy of the parameters.
    pub fn duplicate(&self) -> (r: Parameters)
        ensures
            r.u.bytes@ == self.u.bytes@,
    {
        Parameters { u: self.u.duplicate() }
    }
}

impl Default for Parameters {
    /// The standard parameters.
    fn default() -> (r: Parameters)
        ensures
            r.wf(),
            r.u.bytes@ == standard_u(),
    {
        Parameters::new()
    }
}

} // verus!
