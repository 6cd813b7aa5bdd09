use vstd::prelude::*;

use k256::elliptic_curve::ff::PrimeField;
use k256::elliptic_curve::ops::Reduce;
use k256::elliptic_curve::sec1::{FromEncodedPoint, ToEncodedPoint};
use rand_core::{OsRng, RngCore};

verus! {

/// The order `n` of the secp256k1 group.
pub open spec fn curve_order() -> int {
    0xFFFFFFFFFFFFFFFFFFFFFFFFFFFFFFFEBAAEDCE6AF48A03BBFD25E8CD0364141int
}

/// The integer that a byte string denotes, read big-endian.
pub open spec fn be_val(b: Seq<u8>) -> int
    decreases b.len(),
{
    if b.len() == 0 {
        0
    } else {
        be_val(b.drop_last()) * 256 + b.last()
    }
}

/// A big-endian integer is never negative.
pub proof fn lemma_be_val_nonneg(b: Seq<u8>)
    ensures
        be_val(b) >= 0,
    decreases b.len(),
{
    if b.len() > 0 {
        lemma_be_val_nonneg(b.drop_last());
    }
}

/// The SEC1 compressed encoding of the group generator `G`.
pub open spec fn generator_bytes() -> Seq<u8> {
    seq![
        0x02u8, 0x79, 0xBE, 0x66, 0x7E, 0xF9, 0xDC, 0xBB, 0xAC, 0x55, 0xA0, 0x62, 0x95, 0xCE, 0x87,
        0x0B, 0x07, 0x02, 0x9B, 0xFC, 0xDB, 0x2D, 0xCE, 0x28, 0xD9, 0x59, 0xF2, 0x81, 0x5B, 0x16,
        0xF8, 0x17, 0x98,
    ]
}

/// The encoding of the point `k·G`.
pub open spec fn gen_times(k: int) -> Seq<u8> {
    point_times(generator_bytes(), k)
}

/// Encoding of the product of the point encoded by `p` with the scalar `k`.
pub uninterp spec fn point_times(p: Seq<u8>, k: int) -> Seq<u8>;

/// Encoding of the sum of the points encoded by `a` and `b`.
pub uninterp spec fn point_sum(a: Seq<u8>, b: Seq<u8>) -> Seq<u8>;

/// Whether `b` parses as a SEC1 encoded point that decodes to a point of the curve
/// (the identity, encoded as the single byte `0x00`, included).
pub uninterp spec fn sec1_decodes(b: Seq<u8>) -> bool;

/// Whether a byte string is the SEC1 compressed form (tag `0x02` or `0x03`) of a point other
/// than the identity.
pub open spec fn is_compressed_point(b: Seq<u8>) -> bool {
    b.len() == 33 && (b[0] == 2 || b[0] == 3) && sec1_decodes(b)
}

/// An element of the scalar field, kept as its 32-byte big-endian encoding.
#[derive(Clone, Debug, PartialEq, Eq)]
pub struct CurveScalar {
    pub bytes: Vec<u8>,
}

impl CurveScalar {
    pub open spec fn wf(&self) -> bool {
        self.bytes@.len() == 32 && 0 <= be_val(self.bytes@) < curve_order()
    }

    pub open spec fn val(&self) -> int {
        be_val(self.bytes@)
    }
}

/// A point of the curve, kept as its SEC1 compressed encoding (a single zero byte for the identity).
#[derive(Clone, Debug, PartialEq, Eq)]
pub struct CurvePoint {
    pub bytes: Vec<u8>,
}

impl CurvePoint {
    pub open spec fn wf(&self) -> bool {
        is_compressed_point(self.bytes@) || (sec1_decodes(self.bytes@) && self.bytes@ == seq![0u8])
    }
}

/// Relies on `k256::Scalar::add`: addition modulo the group order.
#[verifier::external_body]
pub(crate) fn scalar_add(a: &CurveScalar, b: &CurveScalar) -> (r: CurveScalar)
    requires
        a.wf(),
        b.wf(),
    ensures
        r.wf(),
        r.val() == (a.val() + b.val()) % curve_order(),
{
    let x = <k256::Scalar as Reduce<k256::U256>>::reduce_bytes(k256::FieldBytes::from_slice(&a.bytes));
    let y = <k256::Scalar as Reduce<k256::U256>>::reduce_bytes(k256::FieldBytes::from_slice(&b.bytes));
    CurveScalar { bytes: (x + y).to_bytes().to_vec() }
}

/// Relies on `k256::Scalar::mul`: multiplication modulo the group order.
#[verifier::external_body]
pub(crate) fn scalar_mul(a: &CurveScalar, b: &CurveScalar) -> (r: CurveScalar)
    requires
        a.wf(),
        b.wf(),
    ensures
        r.wf(),
        r.val() == (a.val() * b.val()) % curve_order(),
{
    let x = <k256::Scalar as Reduce<k256::U256>>::reduce_bytes(k256::FieldBytes::from_slice(&a.bytes));
    let y = <k256::Scalar as Reduce<k256::U256>>::reduce_bytes(k256::FieldBytes::from_slice(&b.bytes));
    CurveScalar { bytes: (x * y).to_bytes().to_vec() }
}

/// Relies on `k256::Scalar::sub`: subtraction modulo the group order.
#[verifier::external_body]
pub(crate) fn scalar_sub(a: &CurveScalar, b: &CurveScalar) -> (r: CurveScalar)
    requires
        a.wf(),
        b.wf(),
    ensures
        r.wf(),
        r.val() == (a.val() - b.val()) % curve_order(),
{
    let x = <k256::Scalar as Reduce<k256::U256>>::reduce_bytes(k256::FieldBytes::from_slice(&a.bytes));
    let y = <k256::Scalar as Reduce<k256::U256>>::reduce_bytes(k256::FieldBytes::from_slice(&b.bytes));
    CurveScalar { bytes: (x - y).to_bytes().to_vec() }
}

/// The inverse of `a` modulo the group order: the `r` in `[0, n)` with `a·r ≡ 1 (mod n)`,
/// unique since `n` is prime.
pub open spec fn scalar_inverse_of(a: int) -> int {
    choose|r: int| 0 <= r < curve_order() && #[trigger] ((a * r) % curve_order()) == 1
}

/// Relies on `k256::Scalar::invert`: the inverse modulo the (prime) group order,
/// which exists for every nonzero scalar.
#[verifier::external_body]
pub(crate) fn scalar_invert(a: &CurveScalar) -> (r: CurveScalar)
    requires
        a.wf(),
        a.val() != 0,
    ensures
        r.wf(),
        (a.val() * r.val()) % curve_order() == 1,
        r.val() == scalar_inverse_of(a.val()),
{
    let x = <k256::Scalar as Reduce<k256::U256>>::reduce_bytes(k256::FieldBytes::from_slice(&a.bytes));
    CurveScalar { bytes: Option::<k256::Scalar>::from(x.invert()).unwrap().to_bytes().to_vec() }
}

/// Relies on `Reduce::<U256>::reduce_bytes` of `k256::Scalar`: the big-endian integer
/// of 32 bytes taken modulo the group order.
#[verifier::external_body]
pub(crate) fn scalar_reduce(b: &Vec<u8>) -> (r: CurveScalar)
    requires
        b@.len() == 32,
    ensures
        r.wf(),
        r.val() == be_val(b@) % curve_order(),
{
    let x = <k256::Scalar as Reduce<k256::U256>>::reduce_bytes(k256::FieldBytes::from_slice(b));
    CurveScalar { bytes: x.to_bytes().to_vec() }
}

/// Relies on `NonZeroScalar::random` over the operating system's generator:
/// a uniform scalar in `[1, n-1]`.
#[verifier::external_body]
pub(crate) fn random_nonzero_scalar() -> (r: CurveScalar)
    ensures
        r.wf(),
        r.val() != 0,
{
    let x = k256::NonZeroScalar::random(&mut OsRng);
    CurveScalar { bytes: x.to_bytes().to_vec() }
}

/// A uniformly random nonzero scalar.
pub fn random_scalar() -> (r: CurveScalar)
    ensures
        r.wf(),
        r.val() != 0,
{
    random_nonzero_scalar()
}

/// Relies on `RngCore::fill_bytes` of `OsRng`: `len` random bytes.
#[verifier::external_body]
pub(crate) fn random_bytes(len: usize) -> (r: Vec<u8>)
    ensures
        r@.len() == len,
{
    let mut bytes = vec![0u8; len];
    OsRng.fill_bytes(&mut bytes);
    bytes
}

/// Relies on `k256::ProjectivePoint` multiplication by a scalar, re-encoded in compressed
/// SEC1 form. In a group of prime order `n`, multiplying `a·G` by `k` gives `(a·k mod n)·G`.
#[verifier::external_body]
pub(crate) fn point_mul(p: &CurvePoint, k: &CurveScalar) -> (r: CurvePoint)
    requires
        p.wf(),
        k.wf(),
    ensures
        r.wf(),
        r.bytes@ == point_times(p.bytes@, k.val()),
        is_compressed_point(p.bytes@) && k.val() != 0 ==> is_compressed_point(r.bytes@),
        forall|a: int|
            0 <= a < curve_order() && p.bytes@ == #[trigger] gen_times(a) ==> r.bytes@ == gen_times(
                (a * k.val()) % curve_order(),
            ),
{
    let pp = k256::ProjectivePoint::from_encoded_point(&k256::EncodedPoint::from_bytes(&p.bytes).unwrap()).unwrap();
    let x = <k256::Scalar as Reduce<k256::U256>>::reduce_bytes(k256::FieldBytes::from_slice(&k.bytes));
    CurvePoint { bytes: (pp * x).to_affine().to_encoded_point(true).as_bytes().to_vec() }
}

/// Relies on `k256::ProjectivePoint` addition, re-encoded in compressed SEC1 form.
/// In a cyclic group, `a·G + b·G` is `(a + b mod n)·G`.
#[verifier::external_body]
pub(crate) fn point_add(p: &CurvePoint, q: &CurvePoint) -> (r: CurvePoint)
    requires
        p.wf(),
        q.wf(),
    ensures
        r.wf(),
        r.bytes@ == point_sum(p.bytes@, q.bytes@),
        forall|a: int, b: int|
            0 <= a < curve_order() && 0 <= b < curve_order() && p.bytes@ == #[trigger] gen_times(a)
                && q.bytes@ == #[trigger] gen_times(b) ==> r.bytes@ == gen_times(
                (a + b) % curve_order(),
            ),
{
    let pp = k256::ProjectivePoint::from_encoded_point(&k256::EncodedPoint::from_bytes(&p.bytes).unwrap()).unwrap();
    let qq = k256::ProjectivePoint::from_encoded_point(&k256::EncodedPoint::from_bytes(&q.bytes).unwrap()).unwrap();
    CurvePoint { bytes: (pp + qq).to_affine().to_encoded_point(true).as_bytes().to_vec() }
}

/// Relies on `k256::PublicKey::from_sec1_bytes` on a 33-byte compressed encoding: accepts
/// exactly the encodings of points other than the identity. secp256k1 has cofactor 1, so each
/// such point is `a·G` for some `a` in `[1, n-1]`, whose compressed encoding is `b`.
#[verifier::external_body]
fn decode_nonidentity(b: &[u8]) -> (r: bool)
    requires
        b@.len() == 33,
        b@[0] == 2 || b@[0] == 3,
    ensures
        r == (sec1_decodes(b@) && b@ != seq![0u8]),
        r ==> exists|a: int| 0 < a < curve_order() && b@ == #[trigger] gen_times(a),
{
    k256::PublicKey::from_sec1_bytes(b).is_ok()
}

/// Relies on `k256::ProjectivePoint::GENERATOR`, whose compressed SEC1 form is the
/// constant of the secp256k1 standard.
#[verifier::external_body]
pub(crate) fn curve_generator() -> (r: CurvePoint)
    ensures
        r.wf(),
        is_compressed_point(r.bytes@),
        r.bytes@ == generator_bytes(),
        r.bytes@ == gen_times(1),
{
    CurvePoint { bytes: k256::ProjectivePoint::GENERATOR.to_affine().to_encoded_point(true).as_bytes().to_vec() }
}

/// A fresh vector holding the bytes of `v`.
pub fn copy_bytes(v: &[u8]) -> (r: Vec<u8>)
    ensures
        r@ == v@,
{
    let mut r: Vec<u8> = Vec::with_capacity(v.len());
    let mut i: usize = 0;
    while i < v.len()
        invariant
            i <= v@.len(),
            r@ == v@.subrange(0, i as int),
        decreases v@.len() - i,
    {
        r.push(v[i]);
        i = i + 1;
        assert(r@ == v@.subrange(0, i as int));
    }
    assert(r@ == v@);
    r
}

impl CurveScalar {
    /// A copy of the scalar.
    pub fn duplicate(&self) -> (r: CurveScalar)
        ensures
            r.bytes@ == self.bytes@,
    {
        CurveScalar { bytes: copy_bytes(self.bytes.as_slice()) }
    }
}

impl CurvePoint {
    /// A copy of the point.
    pub fn duplicate(&self) -> (r: CurvePoint)
        ensures
            r.bytes@ == self.bytes@,
    {
        CurvePoint { bytes: copy_bytes(self.bytes.as_slice()) }
    }
}

/// The compressed encoding of a point.
pub fn point_to_bytes(p: &CurvePoint) -> (r: Vec<u8>)
    ensures
        r@ == p.bytes@,
{
    copy_bytes(p.bytes.as_slice())
}

/// The 32-byte big-endian encoding of a scalar.
pub fn scalar_to_bytes(s: &CurveScalar) -> (r: Vec<u8>)
    ensures
        r@ == s.bytes@,
{
    copy_bytes(s.bytes.as_slice())
}

/// Reads a point other than the identity from its 33-byte compressed encoding.
pub fn bytes_to_point(bytes: &[u8]) -> (r: Option<CurvePoint>)
    ensures
        r is Some <==> is_compressed_point(bytes@),
        r matches Some(p) ==> p.wf() && p.bytes@ == bytes@ && exists|a: int|
            0 < a < curve_order() && bytes@ == #[trigger] gen_times(a),
{
    if bytes.len() != 33 {
        return None;
    }
    if bytes[0] != 2 && bytes[0] != 3 {
        return None;
    }
    if decode_nonidentity(bytes) {
        Some(CurvePoint { bytes: copy_bytes(bytes) })
    } else {
        None
    }
}

} // verus!

verus! {

/// Whether two byte strings are equal; every byte is compared, whatever the earlier ones held.
pub fn bytes_equal(a: &[u8], b: &[u8]) -> (r: bool)
    ensures
        r == (a@ == b@),
{
    if a.len() != b.len() {
        return false;
    }
    let mut same: bool = true;
    let mut i: usize = 0;
    assert(a@.subrange(0, 0) =~= b@.subrange(0, 0));
    while i < a.len()
        invariant
            i <= a@.len(),
            a@.len() == b@.len(),
            same == (a@.subrange(0, i as int) == b@.subrange(0, i as int)),
        decreases a@.len() - i,
    {
        let eq = a[i] == b[i];
        proof {
            assert(a@.subrange(0, i + 1) == a@.subrange(0, i as int).push(a@[i as int]));
            assert(b@.subrange(0, i + 1) == b@.subrange(0, i as int).push(b@[i as int]));
            if same && eq {
                assert(a@.subrange(0, i + 1) =~= b@.subrange(0, i + 1));
            }
            if !eq {
                assert(a@.subrange(0, i + 1)[i as int] != b@.subrange(0, i + 1)[i as int]);
            }
            if !same {
                assert(a@.subrange(0, i as int) =~= a@.subrange(0, i + 1).subrange(0, i as int));
                assert(b@.subrange(0, i as int) =~= b@.subrange(0, i + 1).subrange(0, i as int));
            }
        }
        same = same && eq;
        i = i + 1;
    }
    assert(a@.subrange(0, a@.len() as int) == a@);
    assert(b@.subrange(0, b@.len() as int) == b@);
    same
}

} // verus!

verus! {

/// Relies on `PrimeField::from_repr` of `k256::Scalar`: accepts exactly the 32-byte big-endian
/// integers below the group order.
#[verifier::external_body]
fn scalar_repr_ok(b: &[u8]) -> (r: bool)
    requires
        b@.len() == 32,
    ensures
        r == (be_val(b@) < curve_order()),
{
    bool::from(k256::Scalar::from_repr(*k256::FieldBytes::from_slice(b)).is_some())
}

/// Reads a scalar from its 32-byte big-endian encoding; values not below the group order are refused.
pub fn bytes_to_scalar(bytes: &[u8]) -> (r: Option<CurveScalar>)
    ensures
        r is Some <==> (bytes@.len() == 32 && be_val(bytes@) < curve_order()),
        r matches Some(s) ==> s.wf() && s.bytes@ == bytes@,
{
    if bytes.len() != 32 {
        return None;
    }
    if scalar_repr_ok(bytes) {
        proof {
            lemma_be_val_nonneg(bytes@);
        }
        Some(CurveScalar { bytes: copy_bytes(bytes) })
    } else {
        None
    }
}

} // verus!

verus! {

/// A big-endian integer is zero exactly when all its bytes are.
pub proof fn lemma_be_val_zero(b: Seq<u8>)
    ensures
        (be_val(b) == 0) == (forall|i: int| 0 <= i < b.len() ==> b[i] == 0),
    decreases b.len(),
{
    if b.len() > 0 {
        lemma_be_val_zero(b.drop_last());
        lemma_be_val_nonneg(b.drop_last());
        if be_val(b) == 0 {
            assert forall|i: int| 0 <= i < b.len() implies b[i] == 0 by {
                if i < b.len() - 1 {
                    assert(b[i] == b.drop_last()[i]);
                }
            }
        }
        if forall|i: int| 0 <= i < b.len() ==> b[i] == 0 {
            assert forall|i: int| 0 <= i < b.drop_last().len() implies b.drop_last()[i] == 0 by {
                assert(b[i] == b.drop_last()[i]);
            }
        }
    }
}

impl CurveScalar {
    /// Whether the scalar is nonzero; every byte is examined.
    pub fn bytes_nonzero(&self) -> (r: bool)
        ensures
            r == (self.val() != 0),
    {
        let mut acc: bool = false;
        let mut i: usize = 0;
        while i < self.bytes.len()
            invariant
                i <= self.bytes@.len(),
                acc == (exists|j: int| 0 <= j < i && self.bytes@[j] != 0),
            decreases self.bytes@.len() - i,
        {
            let nz = self.bytes[i] != 0;
            acc = acc || nz;
            i = i + 1;
        }
        proof {
            lemma_be_val_zero(self.bytes@);
        }
        acc
    }
}

} // verus!

verus! {

/// The scalar `1`.
pub fn scalar_one() -> (r: CurveScalar)
    ensures
        r.wf(),
        r.val() == 1,
{
    let mut b: Vec<u8> = Vec::new();
    let mut i: usize = 0;
    while i < 31
        invariant
            i <= 31,
            b@.len() == i,
            forall|j: int| 0 <= j < i ==> b@[j] == 0,
        decreases 31 - i,
    {
        b.push(0u8);
        i = i + 1;
    }
    let ghost prefix = b@;
    proof {
        lemma_be_val_zero(prefix);
    }
    b.push(1u8);
    assert(b@.drop_last() =~= prefix);
    CurveScalar { bytes: b }
}

} // verus!

verus! {

/// The conjunction of two flags, computed without short-circuiting.
pub fn ct_and(a: bool, b: bool) -> (r: bool)
    ensures
        r == (a && b),
{
    let x: u8 = if a { 1 } else { 0 };
    let y: u8 = if b { 1 } else { 0 };
    let z: u8 = x & y;
    assert(z == 1 <==> (x == 1 && y == 1)) by (bit_vector)
        requires
            x == 0 || x == 1,
            y == 0 || y == 1,
            z == x & y,
    ;
    z == 1
}

} // verus!
