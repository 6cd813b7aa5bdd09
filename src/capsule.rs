use vstd::prelude::*;

use crate::curve::{
    bytes_equal, bytes_to_point, bytes_to_scalar, be_val, curve_generator, curve_order,
    gen_times, is_compressed_point, point_add, point_mul, point_sum, point_times, CurvePoint,
    CurveScalar,
};
use crate::hashing::{append_bytes, hash_to_scalar, tagged_scalar, TAG_CAPSULE_POINTS};

verus! {

/// Length of a serialized capsule.
pub const CAPSULE_SIZE: usize = 98;

/// The binder `H_capsule(E, V)`.
pub open spec fn capsule_hash(e: Seq<u8>, v: Seq<u8>) -> int {
    tagged_scalar(TAG_CAPSULE_POINTS, e + v)
}

/// Whether `b` is the encoding of a capsule: two compressed points and a canonical scalar.
pub open spec fn capsule_decodes(b: Seq<u8>) -> bool {
    b.len() == CAPSULE_SIZE && is_compressed_point(b.subrange(0, 33)) && is_compressed_point(
        b.subrange(33, 66),
    ) && be_val(b.subrange(66, 98)) < curve_order()
}

/// The KEM part of a ciphertext: points `E`, `V` and scalar `s`.
#[derive(Clone, Debug, PartialEq, Eq)]
pub struct Capsule {
    pub e: CurvePoint,
    pub v: CurvePoint,
    pub s: CurveScalar,
}

impl Capsule {
    pub open spec fn wf(&self) -> bool {
        self.e.wf() && self.v.wf() && self.s.wf()
    }

    /// Whether both points are compressed points other than the identity, so that the
    /// capsule has its fixed-size encoding.
    pub open spec fn encodable(&self) -> bool {
        self.wf() && is_compressed_point(self.e.bytes@) && is_compressed_point(self.v.bytes@)
    }

    /// The self-consistency equation `s·G == V + H_capsule(E, V)·E`.
    pub open spec fn is_consistent(&self) -> bool {
        gen_times(self.s.val()) == point_sum(
            self.v.bytes@,
            point_times(self.e.bytes@, capsule_hash(self.e.bytes@, self.v.bytes@)),
        )
    }

    /// The encoding `E ‖ V ‖ s`.
    pub open spec fn serialized(&self) -> Seq<u8> {
        self.e.bytes@ + self.v.bytes@ + self.s.bytes@
    }

    /// The encoding `E ‖ V ‖ s`.
    pub fn to_bytes(&self) -> (r: Vec<u8>)
        ensures
            r@ == self.serialized(),
    {
        let mut out: Vec<u8> = Vec::new();
        append_bytes(&mut out, self.e.bytes.as_slice());
        append_bytes(&mut out, self.v.bytes.as_slice());
        append_bytes(&mut out, self.s.bytes.as_slice());
        out
    }

    /// Reads a capsule from its 98-byte encoding.
    pub fn from_bytes(bytes: &[u8]) -> (r: Option<Capsule>)
        ensures
            r is Some <==> capsule_decodes(bytes@),
            r matches Some(c) ==> c.encodable() && c.serialized() == bytes@,
    {
        if bytes.len() != CAPSULE_SIZE {
            return None;
        }
        let e = bytes_to_point(crate::dem::copy_range(bytes, 0, 33).as_slice());
        let v = bytes_to_point(crate::dem::copy_range(bytes, 33, 66).as_slice());
        let s = bytes_to_scalar(crate::dem::copy_range(bytes, 66, 98).as_slice());
        match (e, v, s) {
            (Some(e), Some(v), Some(s)) => {
                let c = Capsule { e, v, s };
                assert(c.serialized() =~= bytes@);
                Some(c)
            },
            _ => None,
        }
    }

    /// The binder `H_capsule(E, V)` of this capsule.
    pub fn hash(&self) -> (r: CurveScalar)
        ensures
            r.wf(),
            r.val() == capsule_hash(self.e.bytes@, self.v.bytes@),
    {
        let mut data: Vec<u8> = Vec::new();
        append_bytes(&mut data, self.e.bytes.as_slice());
        append_bytes(&mut data, self.v.bytes.as_slice());
        hash_to_scalar(TAG_CAPSULE_POINTS, &data)
    }

    /// Checks `s·G == V + H_capsule(E, V)·E`.
    pub fn verify(&self) -> (r: bool)
        requires
            self.wf(),
        ensures
            r == self.is_consistent(),
            forall|a: int, b: int|
                0 <= a < curve_order() && 0 <= b < curve_order() && self.e.bytes@ == #[trigger] gen_times(a)
                    && self.v.bytes@ == #[trigger] gen_times(b) && self.s.val() == (b + (a
                    * capsule_hash(self.e.bytes@, self.v.bytes@)) % curve_order()) % curve_order() ==> r,
    {
        let g = curve_generator();
        let lhs = point_mul(&g, &self.s);
        let h = self.hash();
        let he = point_mul(&self.e, &h);
        let rhs = point_add(&self.v, &he);
        proof {
            assert((1 * self.s.val()) % curve_order() == self.s.val());
            assert(lhs.bytes@ == gen_times(self.s.val()));
        }
        bytes_equal(lhs.bytes.as_slice(), rhs.bytes.as_slice())
    }
}

/// Encoding round trip: a capsule with compressed points encodes to 98 bytes that decode
/// back to its own fields.
pub proof fn capsule_round_trip(c: Capsule)
    requires
        c.encodable(),
    ensures
        c.serialized().len() == CAPSULE_SIZE,
        capsule_decodes(c.serialized()),
        c.serialized().subrange(0, 33) == c.e.bytes@,
        c.serialized().subrange(33, 66) == c.v.bytes@,
        c.serialized().subrange(66, 98) == c.s.bytes@,
{
    assert(c.serialized().subrange(0, 33) =~= c.e.bytes@);
    assert(c.serialized().subrange(33, 66) =~= c.v.bytes@);
    assert(c.serialized().subrange(66, 98) =~= c.s.bytes@);
}

/// An encoding one byte too short or too long never decodes.
pub proof fn capsule_length_mismatch(b: Seq<u8>)
    requires
        b.len() == CAPSULE_SIZE + 1 || b.len() + 1 == CAPSULE_SIZE,
    ensures
        !capsule_decodes(b),
{
}

} // verus!
