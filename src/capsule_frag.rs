use vstd::prelude::*;

use vstd::arithmetic::div_mod::{lemma_add_mod_noop, lemma_mul_mod_noop_left, lemma_mul_mod_noop_right};

use crate::capsule::Capsule;
use crate::curve::{
    be_val, bytes_equal, ct_and, gen_times, bytes_to_point, bytes_to_scalar, curve_order, is_compressed_point,
    point_add, point_mul, point_sum, point_times, random_scalar, scalar_add, scalar_mul,
    CurvePoint, CurveScalar,
};
use crate::dem::copy_range;
use crate::hashing::{append_bytes, hash_to_scalar, tagged_scalar, TAG_CFRAG_CHALLENGE};
use crate::key_frag::{cfrag_signature_digest, commitment_exponent, kfrag_signed, hash_to_cfrag_signature, KeyFrag, KeyFragID};
use crate::keys::{ecdsa_signature_of, ecdsa_accepts, ecdsa_signature_parses, verify, PublicKey, SecretKey, Signature};
use crate::params::{standard_u, Parameters};

verus! {

/// Length of a serialized cfrag proof.
pub const CFRAG_PROOF_SIZE: usize = 228;

/// Length of a serialized cfrag.
pub const CFRAG_SIZE: usize = 359;

/// Optional metadata as a presence byte, followed by the bytes when present.
pub open spec fn opt_metadata_bytes(m: Option<Seq<u8>>) -> Seq<u8> {
    match m {
        Some(b) => seq![1u8] + b,
        None => seq![0u8],
    }
}

/// The metadata of a cfrag proof as bytes.
pub open spec fn metadata_view(m: Option<Vec<u8>>) -> Option<Seq<u8>> {
    match m {
        Some(b) => Some(b@),
        None => None,
    }
}

/// The challenge `H_cfrag(E, V, E₁, V₁, E₂, V₂, commitment, U₁, precursor, kfrag_id, metadata)`.
pub open spec fn cfrag_challenge(
    e: Seq<u8>,
    v: Seq<u8>,
    e1: Seq<u8>,
    v1: Seq<u8>,
    e2: Seq<u8>,
    v2: Seq<u8>,
    commitment: Seq<u8>,
    u1: Seq<u8>,
    precursor: Seq<u8>,
    id: Seq<u8>,
    metadata: Option<Seq<u8>>,
) -> int {
    tagged_scalar(
        TAG_CFRAG_CHALLENGE,
        e + v + e1 + v1 + e2 + v2 + commitment + u1 + precursor + id + opt_metadata_bytes(metadata),
    )
}

/// The cfrag's points are those that re-encryption with key `k` and nonce `t` gives for a capsule
/// with `E = a·G`, `V = b·G`, under parameters `u = c·G`.
pub open spec fn cfrag_exponents(cf: CapsuleFrag, a: int, b: int, c: int, k: int, t: int) -> bool {
    let n = curve_order();
    &&& cf.point_e1.bytes@ == gen_times((a * k) % n)
    &&& cf.point_v1.bytes@ == gen_times((b * k) % n)
    &&& cf.proof.point_e2.bytes@ == gen_times((a * t) % n)
    &&& cf.proof.point_v2.bytes@ == gen_times((b * t) % n)
    &&& cf.proof.point_u1.bytes@ == gen_times((c * t) % n)
    &&& cf.proof.kfrag_commitment.bytes@ == gen_times((c * k) % n)
}

/// The Schnorr response `z = t + h·k` checks against `a·G`: `z·(a·G) = t·(a·G) + h·(k·(a·G))`,
/// in exponents modulo `n`.
pub proof fn lemma_schnorr_exponent(a: int, t: int, k: int, h: int)
    requires
        0 <= a < curve_order(),
        0 <= t < curve_order(),
        0 <= k < curve_order(),
        0 <= h < curve_order(),
    ensures
        (a * ((t + (h * k) % curve_order()) % curve_order())) % curve_order() == ((a * t)
            % curve_order() + (((a * k) % curve_order()) * h) % curve_order()) % curve_order(),
{
    let n = curve_order();
    lemma_mul_mod_noop_right(a, t + (h * k) % n, n);
    assert(a * (t + (h * k) % n) == a * t + a * ((h * k) % n)) by (nonlinear_arith);
    lemma_add_mod_noop(a * t, a * ((h * k) % n), n);
    lemma_mul_mod_noop_right(a, h * k, n);
    lemma_mul_mod_noop_left(a * k, h, n);
    assert((a * k) * h == a * (h * k)) by (nonlinear_arith);
}

/// `cf` is a re-encryption of `capsule` with `kfrag`: it carries the kfrag's identifier,
/// precursor, commitment and signature for Bob, and its proof was made with some nonce `t`,
/// so that for `E = a·G`, `V = b·G`, `u = c·G` and commitment `(c·key)·G` its points have the
/// exponents of `cfrag_exponents`.
pub open spec fn reencrypt_outcome(cf: CapsuleFrag, capsule: Capsule, kfrag: KeyFrag) -> bool {
    let k = kfrag.key.val();
    &&& cf.kfrag_id.bytes@ == kfrag.id.bytes@
    &&& cf.precursor.bytes@ == kfrag.precursor.bytes@
    &&& cf.proof.kfrag_commitment.bytes@ == kfrag.proof.commitment.bytes@
    &&& cf.proof.kfrag_signature.bytes@ == kfrag.proof.signature_for_bob.bytes@
    &&& exists|t: int|
        0 < t < curve_order() && cf.proof.point_e2.bytes@ == point_times(capsule.e.bytes@, t)
            && cf.proof.point_v2.bytes@ == point_times(capsule.v.bytes@, t)
            && cf.proof.point_u1.bytes@ == point_times(kfrag.params.u.bytes@, t)
            && cf.proof.z3.val() == (t + (cf.challenge(capsule) * k) % curve_order())
            % curve_order() && forall|a: int, b: int, c: int|
            0 <= a < curve_order() && 0 <= b < curve_order() && 0 <= c < curve_order()
                && capsule.e.bytes@ == #[trigger] gen_times(a) && capsule.v.bytes@
                == #[trigger] gen_times(b) && kfrag.params.u.bytes@ == #[trigger] gen_times(c)
                && kfrag.proof.commitment.bytes@ == gen_times((c * k) % curve_order())
                ==> cfrag_exponents(cf, a, b, c, k, t)
}

/// The proof that a cfrag was computed with the key of its kfrag.
#[derive(Clone, Debug, PartialEq, Eq)]
pub struct CapsuleFragProof {
    pub point_e2: CurvePoint,
    pub point_v2: CurvePoint,
    pub point_u1: CurvePoint,
    pub kfrag_commitment: CurvePoint,
    pub z3: CurveScalar,
    pub kfrag_signature: Signature,
    /// Mixed into the challenge only. It is not part of the fixed-size encoding: a cfrag read
    /// back from bytes carries none, so one made with metadata verifies only before transport,
    /// or after the receiver sets the metadata it was made with.
    pub metadata: Option<Vec<u8>>,
}

/// A proxy's re-encryption of a capsule with one kfrag.
#[derive(Clone, Debug, PartialEq, Eq)]
pub struct CapsuleFrag {
    pub point_e1: CurvePoint,
    pub point_v1: CurvePoint,
    pub kfrag_id: KeyFragID,
    pub precursor: CurvePoint,
    pub proof: CapsuleFragProof,
}

/// Whether `b` encodes a cfrag proof: four compressed points, a scalar and a signature.
pub open spec fn cfrag_proof_decodes(b: Seq<u8>) -> bool {
    b.len() == CFRAG_PROOF_SIZE && is_compressed_point(b.subrange(0, 33)) && is_compressed_point(
        b.subrange(33, 66),
    ) && is_compressed_point(b.subrange(66, 99)) && is_compressed_point(b.subrange(99, 132))
        && be_val(b.subrange(132, 164)) < curve_order() && ecdsa_signature_parses(
        b.subrange(164, 228),
    )
}

/// Whether `b` encodes a cfrag.
pub open spec fn cfrag_decodes(b: Seq<u8>) -> bool {
    b.len() == CFRAG_SIZE && is_compressed_point(b.subrange(0, 33)) && is_compressed_point(
        b.subrange(33, 66),
    ) && is_compressed_point(b.subrange(98, 131)) && cfrag_proof_decodes(b.subrange(131, 359))
}

impl CapsuleFragProof {
    pub open spec fn wf(&self) -> bool {
        self.point_e2.wf() && self.point_v2.wf() && self.point_u1.wf() && self.kfrag_commitment.wf()
            && self.z3.wf()
    }

    pub open spec fn encodable(&self) -> bool {
        self.wf() && is_compressed_point(self.point_e2.bytes@) && is_compressed_point(
            self.point_v2.bytes@,
        ) && is_compressed_point(self.point_u1.bytes@) && is_compressed_point(
            self.kfrag_commitment.bytes@,
        ) && self.kfrag_signature.bytes@.len() == 64 && ecdsa_signature_parses(
            self.kfrag_signature.bytes@,
        )
    }

    /// `E₂ ‖ V₂ ‖ U₁ ‖ commitment ‖ z₃ ‖ kfrag_signature`.
    pub open spec fn serialized(&self) -> Seq<u8> {
        self.point_e2.bytes@ + self.point_v2.bytes@ + self.point_u1.bytes@
            + self.kfrag_commitment.bytes@ + self.z3.bytes@ + self.kfrag_signature.bytes@
    }
}

impl CapsuleFrag {
    pub open spec fn wf(&self) -> bool {
        self.point_e1.wf() && self.point_v1.wf() && self.precursor.wf() && self.proof.wf()
    }

    pub open spec fn encodable(&self) -> bool {
        self.wf() && is_compressed_point(self.point_e1.bytes@) && is_compressed_point(
            self.point_v1.bytes@,
        ) && self.kfrag_id.wf() && is_compressed_point(self.precursor.bytes@)
            && self.proof.encodable()
    }

    /// `E₁ ‖ V₁ ‖ kfrag_id ‖ precursor ‖ proof`.
    pub open spec fn serialized(&self) -> Seq<u8> {
        self.point_e1.bytes@ + self.point_v1.bytes@ + self.kfrag_id.bytes@ + self.precursor.bytes@
            + self.proof.serialized()
    }

    /// The challenge of this cfrag's proof for `capsule`.
    pub open spec fn challenge(&self, capsule: Capsule) -> int {
        cfrag_challenge(
            capsule.e.bytes@,
            capsule.v.bytes@,
            self.point_e1.bytes@,
            self.point_v1.bytes@,
            self.proof.point_e2.bytes@,
            self.proof.point_v2.bytes@,
            self.proof.kfrag_commitment.bytes@,
            self.proof.point_u1.bytes@,
            self.precursor.bytes@,
            self.kfrag_id.bytes@,
            metadata_view(self.proof.metadata),
        )
    }

    /// What `verify` decides: the three proof equations under the standard parameters, and the
    /// kfrag signature over both public keys.
    pub open spec fn verifies(&self, capsule: Capsule, signing_pk: Seq<u8>, dpk: Seq<u8>, rpk: Seq<u8>) -> bool {
        let h = self.challenge(capsule);
        &&& point_times(capsule.e.bytes@, self.proof.z3.val()) == point_sum(
            self.proof.point_e2.bytes@,
            point_times(self.point_e1.bytes@, h),
        )
        &&& point_times(capsule.v.bytes@, self.proof.z3.val()) == point_sum(
            self.proof.point_v2.bytes@,
            point_times(self.point_v1.bytes@, h),
        )
        &&& point_times(standard_u(), self.proof.z3.val()) == point_sum(
            self.proof.point_u1.bytes@,
            point_times(self.proof.kfrag_commitment.bytes@, h),
        )
        &&& ecdsa_accepts(
            signing_pk,
            cfrag_signature_digest(
                self.kfrag_id.bytes@,
                self.proof.kfrag_commitment.bytes@,
                self.precursor.bytes@,
                Some(dpk),
                Some(rpk),
            ),
            self.proof.kfrag_signature.bytes@,
        )
    }
}

fn append_opt_metadata(out: &mut Vec<u8>, m: Option<&[u8]>)
    ensures
        final(out)@ == old(out)@ + opt_metadata_bytes(
            match m {
                Some(b) => Some(b@),
                None => None,
            },
        ),
{
    match m {
        Some(b) => {
            out.push(1u8);
            append_bytes(out, b);
            assert(final(out)@ =~= old(out)@ + opt_metadata_bytes(Some(b@)));
        },
        None => {
            out.push(0u8);
            assert(final(out)@ =~= old(out)@ + opt_metadata_bytes(None));
        },
    }
}

/// Computes the challenge scalar of a cfrag proof.
pub fn hash_to_cfrag_challenge(
    capsule: &Capsule,
    e1: &CurvePoint,
    v1: &CurvePoint,
    e2: &CurvePoint,
    v2: &CurvePoint,
    commitment: &CurvePoint,
    u1: &CurvePoint,
    precursor: &CurvePoint,
    kfrag_id: &KeyFragID,
    metadata: Option<&[u8]>,
) -> (r: CurveScalar)
    ensures
        r.wf(),
        r.val() == cfrag_challenge(
            capsule.e.bytes@,
            capsule.v.bytes@,
            e1.bytes@,
            v1.bytes@,
            e2.bytes@,
            v2.bytes@,
            commitment.bytes@,
            u1.bytes@,
            precursor.bytes@,
            kfrag_id.bytes@,
            match metadata {
                Some(b) => Some(b@),
                None => None,
            },
        ),
{
    let mut data: Vec<u8> = Vec::new();
    append_bytes(&mut data, capsule.e.bytes.as_slice());
    append_bytes(&mut data, capsule.v.bytes.as_slice());
    append_bytes(&mut data, e1.bytes.as_slice());
    append_bytes(&mut data, v1.bytes.as_slice());
    append_bytes(&mut data, e2.bytes.as_slice());
    append_bytes(&mut data, v2.bytes.as_slice());
    append_bytes(&mut data, commitment.bytes.as_slice());
    append_bytes(&mut data, u1.bytes.as_slice());
    append_bytes(&mut data, precursor.bytes.as_slice());
    append_bytes(&mut data, kfrag_id.bytes.as_slice());
    append_opt_metadata(&mut data, metadata);
    hash_to_scalar(TAG_CFRAG_CHALLENGE, &data)
}

} // verus!

verus! {

/// Re-encrypts a capsule with a kfrag: `E₁ = key·E`, `V₁ = key·V`, and a proof with a fresh
/// nonce `t`: `E₂ = t·E`, `V₂ = t·V`, `U₁ = t·u`, `z₃ = t + h·key`, where `h` is the challenge.
/// The kfrag must carry the standard parameters, against which `CapsuleFrag::verify` checks.
pub fn reencrypt(capsule: &Capsule, kfrag: &KeyFrag, metadata: Option<&[u8]>) -> (r: CapsuleFrag)
    requires
        capsule.wf(),
        kfrag.wf(),
        kfrag.proof.commitment.wf(),
        kfrag.params.u.bytes@ == standard_u(),
    ensures
        r.wf(),
        r.point_e1.bytes@ == point_times(capsule.e.bytes@, kfrag.key.val()),
        r.point_v1.bytes@ == point_times(capsule.v.bytes@, kfrag.key.val()),
        r.kfrag_id.bytes@ == kfrag.id.bytes@,
        r.precursor.bytes@ == kfrag.precursor.bytes@,
        r.proof.kfrag_commitment.bytes@ == kfrag.proof.commitment.bytes@,
        r.proof.kfrag_signature.bytes@ == kfrag.proof.signature_for_bob.bytes@,
        capsule.encodable() && kfrag.encodable() && kfrag.key.val() != 0 ==> r.encodable(),
        metadata_view(r.proof.metadata) == match metadata {
            Some(b) => Some(b@),
            None => None,
        },
        reencrypt_outcome(r, *capsule, *kfrag),
{
    let e1 = point_mul(&capsule.e, &kfrag.key);
    let v1 = point_mul(&capsule.v, &kfrag.key);
    let t = random_scalar();
    let e2 = point_mul(&capsule.e, &t);
    let v2 = point_mul(&capsule.v, &t);
    let u1 = point_mul(&kfrag.params.u, &t);
    let h = hash_to_cfrag_challenge(
        capsule,
        &e1,
        &v1,
        &e2,
        &v2,
        &kfrag.proof.commitment,
        &u1,
        &kfrag.precursor,
        &kfrag.id,
        metadata,
    );
    let hk = scalar_mul(&h, &kfrag.key);
    let z3 = scalar_add(&t, &hk);
    let stored = match metadata {
        Some(b) => Some(crate::curve::copy_bytes(b)),
        None => None,
    };
    let r = CapsuleFrag {
        point_e1: e1,
        point_v1: v1,
        kfrag_id: kfrag.id.duplicate(),
        precursor: kfrag.precursor.duplicate(),
        proof: CapsuleFragProof {
            point_e2: e2,
            point_v2: v2,
            point_u1: u1,
            kfrag_commitment: kfrag.proof.commitment.duplicate(),
            z3,
            kfrag_signature: kfrag.proof.signature_for_bob(),
            metadata: stored,
        },
    };
    assert(r.challenge(*capsule) == h.val());
    r
}

/// Whether the verdict `r` is true for every cfrag whose points have the exponents of an honest
/// re-encryption (`cfrag_exponents`, with `u = c·G` the standard parameter point) and whose
/// kfrag signature the secret key of `spk` made over both public keys.
pub open spec fn accepts_honest_exponents(
    cf: CapsuleFrag,
    capsule: Capsule,
    spk: Seq<u8>,
    dpk: Seq<u8>,
    rpk: Seq<u8>,
    r: bool,
) -> bool {
    forall|a: int, b: int, c: int, k: int, t: int, signing_sk: SecretKey|
        0 <= a < curve_order() && 0 <= b < curve_order() && 0 <= c < curve_order() && 0
            <= k < curve_order() && 0 <= t < curve_order() && capsule.e.bytes@
            == gen_times(a) && capsule.v.bytes@ == gen_times(b) && standard_u()
            == gen_times(c) && #[trigger] cfrag_exponents(cf, a, b, c, k, t)
            && cf.proof.z3.val() == (t + (cf.challenge(capsule) * k) % curve_order())
            % curve_order() && signing_sk.wf() && spk == gen_times(
            signing_sk.scalar.val(),
        ) && cf.proof.kfrag_signature.bytes@ == #[trigger] ecdsa_signature_of(
            signing_sk.scalar.bytes@,
            cfrag_signature_digest(
                cf.kfrag_id.bytes@,
                cf.proof.kfrag_commitment.bytes@,
                cf.precursor.bytes@,
                Some(dpk),
                Some(rpk),
            ),
        ) ==> r
}

/// Whether the verdict `r` is true when `cf` is a re-encryption of `capsule` (`E = a·G`,
/// `V = b·G`) with a kfrag under the standard parameters whose signatures the secret key of
/// `spk` made for the keys `dpk` and `rpk`.
pub open spec fn accepts_honest_reencryption(
    cf: CapsuleFrag,
    capsule: Capsule,
    spk: Seq<u8>,
    dpk: Seq<u8>,
    rpk: Seq<u8>,
    r: bool,
) -> bool {
    forall|kfrag: KeyFrag, a: int, b: int, signing_sk: SecretKey|
        0 <= a < curve_order() && 0 <= b < curve_order() && capsule.e.bytes@
            == #[trigger] gen_times(a) && capsule.v.bytes@ == #[trigger] gen_times(b)
            && kfrag.key.wf()
            && kfrag.params.u.bytes@ == standard_u() && commitment_exponent(kfrag)
            && #[trigger] reencrypt_outcome(cf, capsule, kfrag) && signing_sk.wf()
            && spk == gen_times(signing_sk.scalar.val())
            && #[trigger] kfrag_signed(
            kfrag,
            signing_sk.scalar.bytes@,
            dpk,
            rpk,
        ) ==> r
}

/// A re-encryption by an honestly made kfrag meets the premises of `accepts_honest_exponents`, so
/// a verdict that accepts those accepts it too.
pub proof fn lemma_honest_reencryption_accepted(
    cf: CapsuleFrag,
    capsule: Capsule,
    spk: Seq<u8>,
    dpk: Seq<u8>,
    rpk: Seq<u8>,
    r: bool,
)
    requires
        accepts_honest_exponents(cf, capsule, spk, dpk, rpk, r),
        exists|c: int| 0 < c < curve_order() && standard_u() == #[trigger] gen_times(c),
    ensures
        accepts_honest_reencryption(cf, capsule, spk, dpk, rpk, r),
{
    let c = choose|c: int| 0 < c < curve_order() && standard_u() == #[trigger] gen_times(c);
    assert forall|kfrag: KeyFrag, a: int, b: int, signing_sk: SecretKey|
        0 <= a < curve_order() && 0 <= b < curve_order() && capsule.e.bytes@
            == #[trigger] gen_times(a) && capsule.v.bytes@ == #[trigger] gen_times(b)
            && kfrag.key.wf() && kfrag.params.u.bytes@ == standard_u() && commitment_exponent(kfrag)
            && #[trigger] reencrypt_outcome(cf, capsule, kfrag) && signing_sk.wf() && spk
            == gen_times(signing_sk.scalar.val()) && #[trigger] kfrag_signed(
            kfrag,
            signing_sk.scalar.bytes@,
            dpk,
            rpk,
        ) implies r by {
        let k = kfrag.key.val();
        let t = choose|t: int|
            0 < t < curve_order() && cf.proof.point_e2.bytes@ == point_times(capsule.e.bytes@, t)
                && cf.proof.point_v2.bytes@ == point_times(capsule.v.bytes@, t)
                && cf.proof.point_u1.bytes@ == point_times(kfrag.params.u.bytes@, t)
                && cf.proof.z3.val() == (t + (cf.challenge(capsule) * k) % curve_order())
                % curve_order() && forall|a: int, b: int, c: int|
                0 <= a < curve_order() && 0 <= b < curve_order() && 0 <= c < curve_order()
                    && capsule.e.bytes@ == #[trigger] gen_times(a) && capsule.v.bytes@
                    == #[trigger] gen_times(b) && kfrag.params.u.bytes@ == #[trigger] gen_times(c)
                    && kfrag.proof.commitment.bytes@ == gen_times((c * k) % curve_order())
                    ==> cfrag_exponents(cf, a, b, c, k, t);
        assert(kfrag.params.u.bytes@ == gen_times(c));
        assert(kfrag.proof.commitment.bytes@ == gen_times((c * k) % curve_order()));
        assert(cfrag_exponents(cf, a, b, c, k, t));
        assert(cf.proof.kfrag_signature.bytes@ == ecdsa_signature_of(
            signing_sk.scalar.bytes@,
            cfrag_signature_digest(
                cf.kfrag_id.bytes@,
                cf.proof.kfrag_commitment.bytes@,
                cf.precursor.bytes@,
                Some(dpk),
                Some(rpk),
            ),
        ));
    }
}

impl CapsuleFrag {
    /// Verifies the cfrag against the capsule it re-encrypts, the signing key, and the
    /// delegating and receiving keys: the three proof equations and the kfrag signature.
    pub fn verify(
        &self,
        capsule: &Capsule,
        signing_pk: &PublicKey,
        delegating_pk: &PublicKey,
        receiving_pk: &PublicKey,
    ) -> (r: bool)
        requires
            self.wf(),
            capsule.wf(),
        ensures
            r == self.verifies(
                *capsule,
                signing_pk.point.bytes@,
                delegating_pk.point.bytes@,
                receiving_pk.point.bytes@,
            ),
            accepts_honest_exponents(
                *self,
                *capsule,
                signing_pk.point.bytes@,
                delegating_pk.point.bytes@,
                receiving_pk.point.bytes@,
                r,
            ),
            accepts_honest_reencryption(
                *self,
                *capsule,
                signing_pk.point.bytes@,
                delegating_pk.point.bytes@,
                receiving_pk.point.bytes@,
                r,
            ),
    {
        let params = Parameters::new();
        let metadata = match &self.proof.metadata {
            Some(m) => Some(m.as_slice()),
            None => None,
        };
        let h = hash_to_cfrag_challenge(
            capsule,
            &self.point_e1,
            &self.point_v1,
            &self.proof.point_e2,
            &self.proof.point_v2,
            &self.proof.kfrag_commitment,
            &self.proof.point_u1,
            &self.precursor,
            &self.kfrag_id,
            metadata,
        );
        let lhs_e = point_mul(&capsule.e, &self.proof.z3);
        let he1 = point_mul(&self.point_e1, &h);
        let rhs_e = point_add(&self.proof.point_e2, &he1);
        let lhs_v = point_mul(&capsule.v, &self.proof.z3);
        let hv1 = point_mul(&self.point_v1, &h);
        let rhs_v = point_add(&self.proof.point_v2, &hv1);
        let lhs_u = point_mul(&params.u, &self.proof.z3);
        let hc = point_mul(&self.proof.kfrag_commitment, &h);
        let rhs_u = point_add(&self.proof.point_u1, &hc);
        let digest = hash_to_cfrag_signature(
            &self.kfrag_id,
            &self.proof.kfrag_commitment,
            &self.precursor,
            Some(delegating_pk),
            Some(receiving_pk),
        );
        let ok_e = bytes_equal(lhs_e.bytes.as_slice(), rhs_e.bytes.as_slice());
        let ok_v = bytes_equal(lhs_v.bytes.as_slice(), rhs_v.bytes.as_slice());
        let ok_u = bytes_equal(lhs_u.bytes.as_slice(), rhs_u.bytes.as_slice());
        let ok_sig = verify(signing_pk, &digest, &self.proof.kfrag_signature);
        assert(h.val() == self.challenge(*capsule));
        let r = ct_and(ct_and(ok_e, ok_v), ct_and(ok_u, ok_sig));
        proof {
            let n = curve_order();
            let hv = h.val();
            let z = self.proof.z3.val();
            assert forall|a: int, b: int, c: int, k: int, t: int, signing_sk: SecretKey|
                0 <= a < curve_order() && 0 <= b < curve_order() && 0 <= c < curve_order() && 0
                    <= k < curve_order() && 0 <= t < curve_order() && capsule.e.bytes@
                    == gen_times(a) && capsule.v.bytes@ == gen_times(b) && standard_u()
                    == gen_times(c) && #[trigger] cfrag_exponents(*self, a, b, c, k, t)
                    && self.proof.z3.val() == (t + (self.challenge(*capsule) * k) % curve_order())
                    % curve_order() && signing_sk.wf() && signing_pk.point.bytes@ == gen_times(
                    signing_sk.scalar.val(),
                ) && self.proof.kfrag_signature.bytes@ == #[trigger] ecdsa_signature_of(
                    signing_sk.scalar.bytes@,
                    cfrag_signature_digest(
                        self.kfrag_id.bytes@,
                        self.proof.kfrag_commitment.bytes@,
                        self.precursor.bytes@,
                        Some(delegating_pk.point.bytes@),
                        Some(receiving_pk.point.bytes@),
                    ),
                ) implies r by {
                lemma_schnorr_exponent(a, t, k, hv);
                lemma_schnorr_exponent(b, t, k, hv);
                lemma_schnorr_exponent(c, t, k, hv);
                assert(lhs_e.bytes@ == gen_times((a * z) % n));
                assert(he1.bytes@ == gen_times((((a * k) % n) * hv) % n));
                assert(rhs_e.bytes@ == gen_times(((a * t) % n + (((a * k) % n) * hv) % n) % n));
                assert(lhs_v.bytes@ == gen_times((b * z) % n));
                assert(hv1.bytes@ == gen_times((((b * k) % n) * hv) % n));
                assert(rhs_v.bytes@ == gen_times(((b * t) % n + (((b * k) % n) * hv) % n) % n));
                assert(lhs_u.bytes@ == gen_times((c * z) % n));
                assert(hc.bytes@ == gen_times((((c * k) % n) * hv) % n));
                assert(rhs_u.bytes@ == gen_times(((c * t) % n + (((c * k) % n) * hv) % n) % n));
                assert(digest@ == cfrag_signature_digest(
                    self.kfrag_id.bytes@,
                    self.proof.kfrag_commitment.bytes@,
                    self.precursor.bytes@,
                    Some(delegating_pk.point.bytes@),
                    Some(receiving_pk.point.bytes@),
                ));
                assert(ok_sig);
            }
            lemma_honest_reencryption_accepted(
                *self,
                *capsule,
                signing_pk.point.bytes@,
                delegating_pk.point.bytes@,
                receiving_pk.point.bytes@,
                r,
            );
        }
        r
    }

    /// The 359-byte encoding of the cfrag.
    pub fn to_bytes(&self) -> (r: Vec<u8>)
        ensures
            r@ == self.serialized(),
            self.encodable() ==> r@.len() == CFRAG_SIZE,
    {
        let mut out: Vec<u8> = Vec::new();
        append_bytes(&mut out, self.point_e1.bytes.as_slice());
        append_bytes(&mut out, self.point_v1.bytes.as_slice());
        append_bytes(&mut out, self.kfrag_id.bytes.as_slice());
        append_bytes(&mut out, self.precursor.bytes.as_slice());
        append_bytes(&mut out, self.proof.point_e2.bytes.as_slice());
        append_bytes(&mut out, self.proof.point_v2.bytes.as_slice());
        append_bytes(&mut out, self.proof.point_u1.bytes.as_slice());
        append_bytes(&mut out, self.proof.kfrag_commitment.bytes.as_slice());
        append_bytes(&mut out, self.proof.z3.bytes.as_slice());
        append_bytes(&mut out, self.proof.kfrag_signature.bytes.as_slice());
        assert(out@ =~= self.serialized());
        out
    }

    /// Reads a cfrag from its 359-byte encoding. The encoding holds no metadata, so the result
    /// carries none; a receiver that knows the metadata sets `proof.metadata` before verifying.
    pub fn from_bytes(bytes: &[u8]) -> (r: Option<CapsuleFrag>)
        ensures
            r is Some <==> cfrag_decodes(bytes@),
            r matches Some(c) ==> c.encodable() && c.serialized() == bytes@ && c.proof.metadata is None,
    {
        if bytes.len() != CFRAG_SIZE {
            return None;
        }
        let e1 = bytes_to_point(copy_range(bytes, 0, 33).as_slice());
        let v1 = bytes_to_point(copy_range(bytes, 33, 66).as_slice());
        let id = KeyFragID::from_array(copy_range(bytes, 66, 98).as_slice());
        let precursor = bytes_to_point(copy_range(bytes, 98, 131).as_slice());
        let e2 = bytes_to_point(copy_range(bytes, 131, 164).as_slice());
        let v2 = bytes_to_point(copy_range(bytes, 164, 197).as_slice());
        let u1 = bytes_to_point(copy_range(bytes, 197, 230).as_slice());
        let commitment = bytes_to_point(copy_range(bytes, 230, 263).as_slice());
        let z3 = bytes_to_scalar(copy_range(bytes, 263, 295).as_slice());
        let sig = Signature::from_bytes(copy_range(bytes, 295, 359).as_slice());
        proof {
            let p = bytes@.subrange(131, 359);
            assert(p.subrange(0, 33) =~= bytes@.subrange(131, 164));
            assert(p.subrange(33, 66) =~= bytes@.subrange(164, 197));
            assert(p.subrange(66, 99) =~= bytes@.subrange(197, 230));
            assert(p.subrange(99, 132) =~= bytes@.subrange(230, 263));
            assert(p.subrange(132, 164) =~= bytes@.subrange(263, 295));
            assert(p.subrange(164, 228) =~= bytes@.subrange(295, 359));
        }
        match (e1, v1, id, precursor) {
            (Some(e1), Some(v1), Some(id), Some(precursor)) => match (e2, v2, u1, commitment, z3, sig) {
                (Some(e2), Some(v2), Some(u1), Some(commitment), Some(z3), Some(sig)) => {
                    let c = CapsuleFrag {
                        point_e1: e1,
                        point_v1: v1,
                        kfrag_id: id,
                        precursor,
                        proof: CapsuleFragProof {
                            point_e2: e2,
                            point_v2: v2,
                            point_u1: u1,
                            kfrag_commitment: commitment,
                            z3,
                            kfrag_signature: sig,
                            metadata: None,
                        },
                    };
                    assert(c.serialized() =~= bytes@);
                    Some(c)
                },
                _ => None,
            },
            _ => None,
        }
    }
}

/// Encoding round trip: an encodable cfrag encodes to 359 bytes that decode back to its fields.
pub proof fn cfrag_round_trip(c: CapsuleFrag)
    requires
        c.encodable(),
    ensures
        c.serialized().len() == CFRAG_SIZE,
        cfrag_decodes(c.serialized()),
        c.serialized().subrange(0, 33) == c.point_e1.bytes@,
        c.serialized().subrange(33, 66) == c.point_v1.bytes@,
        c.serialized().subrange(66, 98) == c.kfrag_id.bytes@,
        c.serialized().subrange(98, 131) == c.precursor.bytes@,
        c.serialized().subrange(131, 359) == c.proof.serialized(),
{
    let s = c.serialized();
    let p = c.proof.serialized();
    assert(s.subrange(0, 33) =~= c.point_e1.bytes@);
    assert(s.subrange(33, 66) =~= c.point_v1.bytes@);
    assert(s.subrange(66, 98) =~= c.kfrag_id.bytes@);
    assert(s.subrange(98, 131) =~= c.precursor.bytes@);
    assert(s.subrange(131, 359) =~= p);
    assert(p.subrange(0, 33) =~= c.proof.point_e2.bytes@);
    assert(p.subrange(33, 66) =~= c.proof.point_v2.bytes@);
    assert(p.subrange(66, 99) =~= c.proof.point_u1.bytes@);
    assert(p.subrange(99, 132) =~= c.proof.kfrag_commitment.bytes@);
    assert(p.subrange(132, 164) =~= c.proof.z3.bytes@);
    assert(p.subrange(164, 228) =~= c.proof.kfrag_signature.bytes@);
}

/// An encoding one byte too short or too long never decodes.
pub proof fn cfrag_length_mismatch(b: Seq<u8>)
    requires
        b.len() == CFRAG_SIZE + 1 || b.len() + 1 == CFRAG_SIZE,
    ensures
        !cfrag_decodes(b),
{
}

} // verus!
