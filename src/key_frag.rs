use vstd::prelude::*;

use vstd::arithmetic::div_mod::{lemma_add_mod_noop_right, lemma_small_mod};

use crate::curve::{
    be_val, bytes_equal, ct_and, bytes_to_point, bytes_to_scalar, copy_bytes, curve_generator,
    curve_order, gen_times, is_compressed_point, point_mul, point_times, random_bytes,
    random_scalar, scalar_add, scalar_invert, scalar_mul, CurvePoint, CurveScalar,
};
use crate::dem::copy_range;
use crate::hashing::{
    append_bytes, digest_tagged, hash_to_scalar, tagged_digest, tagged_scalar,
    TAG_CFRAG_SIGNATURE, TAG_POLYNOMIAL_ARG, TAG_SHARED_SECRET,
};
use crate::keys::{
    ecdsa_accepts, ecdsa_signature_of, ecdsa_signature_parses, sign, verify, PublicKey, SecretKey,
    Signature,
};
use crate::params::Parameters;

verus! {

/// Length of a kfrag identifier.
pub const KFRAG_ID_SIZE: usize = 32;

/// Length of a serialized kfrag proof.
pub const KFRAG_PROOF_SIZE: usize = 163;

/// Length of a serialized kfrag.
pub const KFRAG_SIZE: usize = 293;

/// Most attempts at drawing a precursor whose shared secret is nonzero.
pub const MAX_PRECURSOR_ATTEMPTS: u32 = 255;

// ---------------------------------------------------------------------------------------------
// Domain-separated hashes of the key-fragment protocol.

/// A present key as a presence byte `1` and its encoding; an absent key as the byte `0`.
pub open spec fn opt_key_bytes(k: Option<Seq<u8>>) -> Seq<u8> {
    match k {
        Some(b) => seq![1u8] + b,
        None => seq![0u8],
    }
}

/// The encoding of an optional public key.
pub open spec fn opt_pk_view(k: Option<&PublicKey>) -> Option<Seq<u8>> {
    match k {
        Some(p) => Some(p.point.bytes@),
        None => None,
    }
}

/// `H_cfrag_sig(kfrag_id, commitment, precursor, maybe delegating_pk, maybe receiving_pk)`.
pub open spec fn cfrag_signature_digest(
    id: Seq<u8>,
    commitment: Seq<u8>,
    precursor: Seq<u8>,
    dpk: Option<Seq<u8>>,
    rpk: Option<Seq<u8>>,
) -> Seq<u8> {
    tagged_digest(
        TAG_CFRAG_SIGNATURE,
        id + commitment + precursor + opt_key_bytes(dpk) + opt_key_bytes(rpk),
    )
}

/// `H_shared(precursor, pk_bob, dh_point)`.
pub open spec fn shared_secret_value(precursor: Seq<u8>, bob: Seq<u8>, dh: Seq<u8>) -> int {
    tagged_scalar(TAG_SHARED_SECRET, precursor + bob + dh)
}

/// `H_poly(precursor, pk_bob, dh_point, kfrag_id)`.
pub open spec fn polynomial_arg_value(precursor: Seq<u8>, bob: Seq<u8>, dh: Seq<u8>, id: Seq<u8>) -> int {
    tagged_scalar(TAG_POLYNOMIAL_ARG, precursor + bob + dh + id)
}

fn append_opt_key(out: &mut Vec<u8>, k: Option<&PublicKey>)
    ensures
        final(out)@ == old(out)@ + opt_key_bytes(opt_pk_view(k)),
{
    match k {
        Some(p) => {
            out.push(1u8);
            append_bytes(out, p.point.bytes.as_slice());
            assert(final(out)@ =~= old(out)@ + opt_key_bytes(opt_pk_view(k)));
        },
        None => {
            out.push(0u8);
            assert(final(out)@ =~= old(out)@ + opt_key_bytes(opt_pk_view(k)));
        },
    }
}

/// The digest that kfrag signatures cover.
pub fn hash_to_cfrag_signature(
    kfrag_id: &KeyFragID,
    commitment: &CurvePoint,
    precursor: &CurvePoint,
    maybe_delegating_pk: Option<&PublicKey>,
    maybe_receiving_pk: Option<&PublicKey>,
) -> (r: Vec<u8>)
    ensures
        r@.len() == 32,
        r@ == cfrag_signature_digest(
            kfrag_id.bytes@,
            commitment.bytes@,
            precursor.bytes@,
            opt_pk_view(maybe_delegating_pk),
            opt_pk_view(maybe_receiving_pk),
        ),
{
    let mut data: Vec<u8> = Vec::new();
    append_bytes(&mut data, kfrag_id.bytes.as_slice());
    append_bytes(&mut data, commitment.bytes.as_slice());
    append_bytes(&mut data, precursor.bytes.as_slice());
    append_opt_key(&mut data, maybe_delegating_pk);
    append_opt_key(&mut data, maybe_receiving_pk);
    digest_tagged(TAG_CFRAG_SIGNATURE, &data)
}

/// The shared secret `d = H_shared(precursor, pk_bob, dh_point)`.
pub fn hash_to_shared_secret(precursor: &CurvePoint, bob: &CurvePoint, dh: &CurvePoint) -> (r: CurveScalar)
    ensures
        r.wf(),
        r.val() == shared_secret_value(precursor.bytes@, bob.bytes@, dh.bytes@),
{
    let mut data: Vec<u8> = Vec::new();
    append_bytes(&mut data, precursor.bytes.as_slice());
    append_bytes(&mut data, bob.bytes.as_slice());
    append_bytes(&mut data, dh.bytes.as_slice());
    hash_to_scalar(TAG_SHARED_SECRET, &data)
}

/// The share index `x_i = H_poly(precursor, pk_bob, dh_point, kfrag_id)`.
pub fn hash_to_polynomial_arg(
    precursor: &CurvePoint,
    bob: &CurvePoint,
    dh: &CurvePoint,
    kfrag_id: &KeyFragID,
) -> (r: CurveScalar)
    ensures
        r.wf(),
        r.val() == polynomial_arg_value(precursor.bytes@, bob.bytes@, dh.bytes@, kfrag_id.bytes@),
{
    let mut data: Vec<u8> = Vec::new();
    append_bytes(&mut data, precursor.bytes.as_slice());
    append_bytes(&mut data, bob.bytes.as_slice());
    append_bytes(&mut data, dh.bytes.as_slice());
    append_bytes(&mut data, kfrag_id.bytes.as_slice());
    hash_to_scalar(TAG_POLYNOMIAL_ARG, &data)
}

// ---------------------------------------------------------------------------------------------
// Identifiers.

/// The identifier of a key fragment: 32 random bytes.
#[derive(Clone, Debug, PartialEq, Eq)]
pub struct KeyFragID {
    pub bytes: Vec<u8>,
}

impl KeyFragID {
    pub open spec fn wf(&self) -> bool {
        self.bytes@.len() == KFRAG_ID_SIZE
    }

    /// A fresh random identifier.
    pub fn random() -> (r: KeyFragID)
        ensures
            r.wf(),
    {
        KeyFragID { bytes: random_bytes(KFRAG_ID_SIZE) }
    }

    /// The bytes of the identifier.
    pub fn as_ref(&self) -> (r: &[u8])
        ensures
            r@ == self.bytes@,
    {
        self.bytes.as_slice()
    }

    /// The 32-byte encoding of the identifier.
    pub fn to_array(&self) -> (r: Vec<u8>)
        ensures
            r@ == self.bytes@,
    {
        copy_bytes(self.bytes.as_slice())
    }

    /// Reads an identifier: any 32 bytes.
    pub fn from_array(arr: &[u8]) -> (r: Option<KeyFragID>)
        ensures
            r is Some <==> arr@.len() == KFRAG_ID_SIZE,
            r matches Some(id) ==> id.bytes@ == arr@,
    {
        if arr.len() != KFRAG_ID_SIZE {
            None
        } else {
            Some(KeyFragID { bytes: copy_bytes(arr) })
        }
    }

    /// A copy of the identifier.
    pub fn duplicate(&self) -> (r: KeyFragID)
        ensures
            r.bytes@ == self.bytes@,
    {
        KeyFragID { bytes: copy_bytes(self.bytes.as_slice()) }
    }
}

/// `x` when `predicate` holds, `None` otherwise.
pub fn none_unless<T>(x: Option<T>, predicate: bool) -> (r: Option<T>)
    ensures
        r == (if predicate { x } else { None }),
{
    if predicate {
        x
    } else {
        None
    }
}

/// The byte of a flag: `0x01` for true, `0x00` for false.
pub open spec fn bool_byte(b: bool) -> u8 {
    if b { 1u8 } else { 0u8 }
}

} // verus!

verus! {

// ---------------------------------------------------------------------------------------------
// Proofs of key fragments.

/// Whether `b` encodes a kfrag proof: a compressed point, two signatures and two flag bytes.
pub open spec fn kfrag_proof_decodes(b: Seq<u8>) -> bool {
    b.len() == KFRAG_PROOF_SIZE && is_compressed_point(b.subrange(0, 33)) && ecdsa_signature_parses(
        b.subrange(33, 97),
    ) && ecdsa_signature_parses(b.subrange(97, 161)) && b[161] <= 1 && b[162] <= 1
}

/// The commitment and signatures that vouch for a key fragment.
#[derive(Clone, Debug, PartialEq, Eq)]
pub struct KeyFragProof {
    pub commitment: CurvePoint,
    pub signature_for_proxy: Signature,
    pub signature_for_bob: Signature,
    pub delegating_key_signed: bool,
    pub receiving_key_signed: bool,
}

impl KeyFragProof {
    /// Whether the proof has its fixed-size encoding.
    pub open spec fn encodable(&self) -> bool {
        is_compressed_point(self.commitment.bytes@) && self.commitment.wf()
            && self.signature_for_proxy.bytes@.len() == 64 && ecdsa_signature_parses(
            self.signature_for_proxy.bytes@,
        ) && self.signature_for_bob.bytes@.len() == 64 && ecdsa_signature_parses(
            self.signature_for_bob.bytes@,
        )
    }

    /// `commitment ‖ signature_for_proxy ‖ signature_for_bob ‖ flag ‖ flag`.
    pub open spec fn serialized(&self) -> Seq<u8> {
        self.commitment.bytes@ + self.signature_for_proxy.bytes@ + self.signature_for_bob.bytes@
            + seq![bool_byte(self.delegating_key_signed)] + seq![bool_byte(self.receiving_key_signed)]
    }

    /// Builds the proof of a share: `commitment = u·key`, the signature for Bob over both
    /// keys, and the signature for the proxy over the keys chosen by the flags.
    pub fn new(
        params: &Parameters,
        kfrag_id: &KeyFragID,
        kfrag_key: &CurveScalar,
        kfrag_precursor: &CurvePoint,
        signing_sk: &SecretKey,
        delegating_pk: &PublicKey,
        receiving_pk: &PublicKey,
        sign_delegating_key: bool,
        sign_receiving_key: bool,
    ) -> (r: KeyFragProof)
        requires
            params.wf(),
            kfrag_key.wf(),
            signing_sk.wf(),
        ensures
            r.commitment.wf(),
            r.commitment.bytes@ == point_times(params.u.bytes@, kfrag_key.val()),
            r.signature_for_bob.bytes@ == ecdsa_signature_of(
                signing_sk.scalar.bytes@,
                cfrag_signature_digest(
                    kfrag_id.bytes@,
                    r.commitment.bytes@,
                    kfrag_precursor.bytes@,
                    Some(delegating_pk.point.bytes@),
                    Some(receiving_pk.point.bytes@),
                ),
            ),
            r.signature_for_proxy.bytes@ == ecdsa_signature_of(
                signing_sk.scalar.bytes@,
                cfrag_signature_digest(
                    kfrag_id.bytes@,
                    r.commitment.bytes@,
                    kfrag_precursor.bytes@,
                    if sign_delegating_key { Some(delegating_pk.point.bytes@) } else { None },
                    if sign_receiving_key { Some(receiving_pk.point.bytes@) } else { None },
                ),
            ),
            r.signature_for_bob.bytes@.len() == 64,
            ecdsa_signature_parses(r.signature_for_bob.bytes@),
            r.signature_for_proxy.bytes@.len() == 64,
            ecdsa_signature_parses(r.signature_for_proxy.bytes@),
            r.delegating_key_signed == sign_delegating_key,
            r.receiving_key_signed == sign_receiving_key,
            kfrag_key.val() != 0 ==> r.encodable(),
            forall|c: int|
                0 <= c < curve_order() && params.u.bytes@ == #[trigger] gen_times(c)
                    ==> r.commitment.bytes@ == gen_times((c * kfrag_key.val()) % curve_order()),
    {
        let commitment = point_mul(&params.u, kfrag_key);
        let maybe_delegating_pk = Some(delegating_pk);
        let maybe_receiving_pk = Some(receiving_pk);
        let digest_bob = hash_to_cfrag_signature(
            kfrag_id,
            &commitment,
            kfrag_precursor,
            maybe_delegating_pk,
            maybe_receiving_pk,
        );
        let signature_for_bob = sign(signing_sk, &digest_bob);
        let digest_proxy = hash_to_cfrag_signature(
            kfrag_id,
            &commitment,
            kfrag_precursor,
            none_unless(maybe_delegating_pk, sign_delegating_key),
            none_unless(maybe_receiving_pk, sign_receiving_key),
        );
        let signature_for_proxy = sign(signing_sk, &digest_proxy);
        KeyFragProof {
            commitment,
            signature_for_proxy,
            signature_for_bob,
            delegating_key_signed: sign_delegating_key,
            receiving_key_signed: sign_receiving_key,
        }
    }

    /// The signature that Bob checks on capsule fragments.
    pub fn signature_for_bob(&self) -> (r: Signature)
        ensures
            r.bytes@ == self.signature_for_bob.bytes@,
    {
        self.signature_for_bob.duplicate()
    }

    /// The 163-byte encoding of the proof.
    pub fn to_array(&self) -> (r: Vec<u8>)
        ensures
            r@ == self.serialized(),
    {
        let mut out: Vec<u8> = Vec::new();
        append_bytes(&mut out, self.commitment.bytes.as_slice());
        append_bytes(&mut out, self.signature_for_proxy.bytes.as_slice());
        append_bytes(&mut out, self.signature_for_bob.bytes.as_slice());
        out.push(if self.delegating_key_signed { 1u8 } else { 0u8 });
        out.push(if self.receiving_key_signed { 1u8 } else { 0u8 });
        assert(out@ =~= self.serialized());
        out
    }

    /// Reads a proof from its 163-byte encoding; a flag byte other than `0x00`/`0x01` is refused.
    pub fn from_array(arr: &[u8]) -> (r: Option<KeyFragProof>)
        ensures
            r is Some <==> kfrag_proof_decodes(arr@),
            r matches Some(p) ==> p.encodable() && p.serialized() == arr@,
    {
        if arr.len() != KFRAG_PROOF_SIZE {
            return None;
        }
        let commitment = bytes_to_point(copy_range(arr, 0, 33).as_slice());
        let sig_proxy = Signature::from_bytes(copy_range(arr, 33, 97).as_slice());
        let sig_bob = Signature::from_bytes(copy_range(arr, 97, 161).as_slice());
        let d = arr[161];
        let r = arr[162];
        if d > 1 || r > 1 {
            return None;
        }
        match (commitment, sig_proxy, sig_bob) {
            (Some(commitment), Some(signature_for_proxy), Some(signature_for_bob)) => {
                let p = KeyFragProof {
                    commitment,
                    signature_for_proxy,
                    signature_for_bob,
                    delegating_key_signed: d == 1,
                    receiving_key_signed: r == 1,
                };
                assert(p.serialized() =~= arr@);
                Some(p)
            },
            _ => None,
        }
    }
}

} // verus!

verus! {

// ---------------------------------------------------------------------------------------------
// Key fragments.

/// Whether `b` encodes a kfrag: parameters, identifier, key, precursor and proof.
pub open spec fn kfrag_decodes(b: Seq<u8>) -> bool {
    b.len() == KFRAG_SIZE && is_compressed_point(b.subrange(0, 33)) && be_val(b.subrange(65, 97))
        < curve_order() && is_compressed_point(b.subrange(97, 130)) && kfrag_proof_decodes(
        b.subrange(130, 293),
    )
}

/// A fragment of the delegating key, held by a proxy.
#[derive(Clone, Debug, PartialEq, Eq)]
pub struct KeyFrag {
    pub params: Parameters,
    pub id: KeyFragID,
    pub key: CurveScalar,
    pub precursor: CurvePoint,
    pub proof: KeyFragProof,
}

/// The kfrag's signatures are those that the secret key encoded by `signing_sk` makes for the
/// delegating and receiving keys encoded by `dpk` and `rpk`, and its commitment is `u·key`.
pub open spec fn kfrag_signed(kfrag: KeyFrag, signing_sk: Seq<u8>, dpk: Seq<u8>, rpk: Seq<u8>) -> bool {
    &&& kfrag.proof.commitment.bytes@ == point_times(kfrag.params.u.bytes@, kfrag.key.val())
    &&& kfrag.proof.signature_for_bob.bytes@ == ecdsa_signature_of(
        signing_sk,
        cfrag_signature_digest(
            kfrag.id.bytes@,
            kfrag.proof.commitment.bytes@,
            kfrag.precursor.bytes@,
            Some(dpk),
            Some(rpk),
        ),
    )
    &&& kfrag.proof.signature_for_proxy.bytes@ == ecdsa_signature_of(
        signing_sk,
        cfrag_signature_digest(
            kfrag.id.bytes@,
            kfrag.proof.commitment.bytes@,
            kfrag.precursor.bytes@,
            if kfrag.proof.delegating_key_signed { Some(dpk) } else { None },
            if kfrag.proof.receiving_key_signed { Some(rpk) } else { None },
        ),
    )
}

/// What `KeyFrag::verify` decides: the commitment is `u·key`, every key that the flags say was
/// signed is supplied, and the proxy signature verifies over the digest of the supplied keys.
pub open spec fn kfrag_verifies(
    kfrag: KeyFrag,
    signing_pk: Seq<u8>,
    dpk: Option<Seq<u8>>,
    rpk: Option<Seq<u8>>,
) -> bool {
    &&& kfrag.proof.commitment.bytes@ == point_times(kfrag.params.u.bytes@, kfrag.key.val())
    &&& !(dpk is None && kfrag.proof.delegating_key_signed)
    &&& !(rpk is None && kfrag.proof.receiving_key_signed)
    &&& ecdsa_accepts(
        signing_pk,
        cfrag_signature_digest(
            kfrag.id.bytes@,
            kfrag.proof.commitment.bytes@,
            kfrag.precursor.bytes@,
            if kfrag.proof.delegating_key_signed { dpk } else { None },
            if kfrag.proof.receiving_key_signed { rpk } else { None },
        ),
        kfrag.proof.signature_for_proxy.bytes@,
    )
}

impl KeyFrag {
    pub open spec fn wf(&self) -> bool {
        self.params.wf() && self.id.wf() && self.key.wf() && self.precursor.wf()
    }

    /// Whether the kfrag has its fixed-size encoding.
    pub open spec fn encodable(&self) -> bool {
        self.wf() && is_compressed_point(self.precursor.bytes@) && self.proof.encodable()
    }

    /// `params ‖ id ‖ key ‖ precursor ‖ proof`.
    pub open spec fn serialized(&self) -> Seq<u8> {
        self.params.u.bytes@ + self.id.bytes@ + self.key.bytes@ + self.precursor.bytes@
            + self.proof.serialized()
    }

    /// The 293-byte encoding of the kfrag.
    pub fn to_array(&self) -> (r: Vec<u8>)
        ensures
            r@ == self.serialized(),
            self.encodable() ==> r@.len() == KFRAG_SIZE,
    {
        let mut out: Vec<u8> = Vec::new();
        append_bytes(&mut out, self.params.u.bytes.as_slice());
        append_bytes(&mut out, self.id.bytes.as_slice());
        append_bytes(&mut out, self.key.bytes.as_slice());
        append_bytes(&mut out, self.precursor.bytes.as_slice());
        let proof = self.proof.to_array();
        append_bytes(&mut out, proof.as_slice());
        out
    }

    /// Reads a kfrag from its 293-byte encoding.
    pub fn from_array(arr: &[u8]) -> (r: Option<KeyFrag>)
        ensures
            r is Some <==> kfrag_decodes(arr@),
            r matches Some(k) ==> k.encodable() && k.serialized() == arr@,
    {
        if arr.len() != KFRAG_SIZE {
            return None;
        }
        let params = Parameters::from_bytes(copy_range(arr, 0, 33).as_slice());
        let id = KeyFragID::from_array(copy_range(arr, 33, 65).as_slice());
        let key = bytes_to_scalar(copy_range(arr, 65, 97).as_slice());
        let precursor = bytes_to_point(copy_range(arr, 97, 130).as_slice());
        let proof = KeyFragProof::from_array(copy_range(arr, 130, 293).as_slice());
        match (params, id, key, precursor, proof) {
            (Some(params), Some(id), Some(key), Some(precursor), Some(proof)) => {
                let k = KeyFrag { params, id, key, precursor, proof };
                assert(k.serialized() =~= arr@);
                Some(k)
            },
            _ => None,
        }
    }

    /// Verifies the kfrag against the signing key and, optionally, the delegating and receiving
    /// keys. A key that the kfrag's flags say was signed but that is not supplied fails it.
    pub fn verify(
        &self,
        signing_pk: &PublicKey,
        maybe_delegating_pk: Option<&PublicKey>,
        maybe_receiving_pk: Option<&PublicKey>,
    ) -> (r: bool)
        requires
            self.wf(),
        ensures
            r == kfrag_verifies(
                *self,
                signing_pk.point.bytes@,
                opt_pk_view(maybe_delegating_pk),
                opt_pk_view(maybe_receiving_pk),
            ),
            forall|signing_sk: SecretKey, dpk: Seq<u8>, rpk: Seq<u8>|
                signing_sk.wf() && signing_pk.point.bytes@ == gen_times(signing_sk.scalar.val())
                    && #[trigger] kfrag_signed(*self, signing_sk.scalar.bytes@, dpk, rpk) && (
                self.proof.delegating_key_signed ==> opt_pk_view(maybe_delegating_pk) == Some(dpk))
                    && (self.proof.receiving_key_signed ==> opt_pk_view(maybe_receiving_pk) == Some(
                    rpk,
                )) ==> r,
    {
        let expected = point_mul(&self.params.u, &self.key);
        let correct_commitment = bytes_equal(
            expected.bytes.as_slice(),
            self.proof.commitment.bytes.as_slice(),
        );
        let delegating_key_provided = !(maybe_delegating_pk.is_none()
            && self.proof.delegating_key_signed);
        let receiving_key_provided = !(maybe_receiving_pk.is_none()
            && self.proof.receiving_key_signed);
        let digest = hash_to_cfrag_signature(
            &self.id,
            &self.proof.commitment,
            &self.precursor,
            none_unless(maybe_delegating_pk, self.proof.delegating_key_signed),
            none_unless(maybe_receiving_pk, self.proof.receiving_key_signed),
        );
        let signature_ok = verify(signing_pk, &digest, &self.proof.signature_for_proxy);
        let keys_provided = ct_and(delegating_key_provided, receiving_key_provided);
        let valid_kfrag_signature = ct_and(keys_provided, signature_ok);
        let r = ct_and(correct_commitment, valid_kfrag_signature);
        proof {
            assert forall|signing_sk: SecretKey, dpk: Seq<u8>, rpk: Seq<u8>|
                signing_sk.wf() && signing_pk.point.bytes@ == gen_times(signing_sk.scalar.val())
                    && #[trigger] kfrag_signed(*self, signing_sk.scalar.bytes@, dpk, rpk) && (
                self.proof.delegating_key_signed ==> opt_pk_view(maybe_delegating_pk) == Some(dpk))
                    && (self.proof.receiving_key_signed ==> opt_pk_view(maybe_receiving_pk) == Some(
                    rpk,
                )) implies r by {
                assert(digest@ == cfrag_signature_digest(
                    self.id.bytes@,
                    self.proof.commitment.bytes@,
                    self.precursor.bytes@,
                    if self.proof.delegating_key_signed { Some(dpk) } else { None },
                    if self.proof.receiving_key_signed { Some(rpk) } else { None },
                ));
                assert(self.proof.signature_for_proxy.bytes@ == ecdsa_signature_of(
                    signing_sk.scalar.bytes@,
                    digest@,
                ));
            }
        }
        r
    }
}

/// Encoding round trip: an encodable kfrag encodes to 293 bytes that decode back to its fields.
pub proof fn kfrag_round_trip(k: KeyFrag)
    requires
        k.encodable(),
    ensures
        k.serialized().len() == KFRAG_SIZE,
        kfrag_decodes(k.serialized()),
        k.serialized().subrange(0, 33) == k.params.u.bytes@,
        k.serialized().subrange(33, 65) == k.id.bytes@,
        k.serialized().subrange(65, 97) == k.key.bytes@,
        k.serialized().subrange(97, 130) == k.precursor.bytes@,
        k.serialized().subrange(130, 293) == k.proof.serialized(),
{
    let s = k.serialized();
    let p = k.proof.serialized();
    assert(s.subrange(0, 33) =~= k.params.u.bytes@);
    assert(s.subrange(33, 65) =~= k.id.bytes@);
    assert(s.subrange(65, 97) =~= k.key.bytes@);
    assert(s.subrange(97, 130) =~= k.precursor.bytes@);
    assert(s.subrange(130, 293) =~= p);
    assert(p.subrange(0, 33) =~= k.proof.commitment.bytes@);
    assert(p.subrange(33, 97) =~= k.proof.signature_for_proxy.bytes@);
    assert(p.subrange(97, 161) =~= k.proof.signature_for_bob.bytes@);
}

/// An encoding one byte too short or too long never decodes.
pub proof fn kfrag_length_mismatch(b: Seq<u8>)
    requires
        b.len() == KFRAG_SIZE + 1 || b.len() + 1 == KFRAG_SIZE,
    ensures
        !kfrag_decodes(b),
{
}

} // verus!

verus! {

// ---------------------------------------------------------------------------------------------
// Generation.

/// The value modulo `n` of the polynomial with coefficients `c` (constant term first) at `x`.
pub open spec fn poly_value(c: Seq<int>, x: int) -> int
    decreases c.len(),
{
    if c.len() == 0 {
        0
    } else {
        (c[0] + x * poly_value(c.drop_first(), x)) % curve_order()
    }
}

/// The values of a sequence of scalars.
pub open spec fn scalar_values(c: Seq<CurveScalar>) -> Seq<int> {
    c.map_values(|s: CurveScalar| s.val())
}

/// Evaluates the polynomial with coefficients `coeffs` (constant term first) at `x`, by Horner's rule.
pub fn poly_eval(coeffs: &[CurveScalar], x: &CurveScalar) -> (r: CurveScalar)
    requires
        coeffs@.len() >= 1,
        forall|i: int| 0 <= i < coeffs@.len() ==> (#[trigger] coeffs@[i]).wf(),
        x.wf(),
    ensures
        r.wf(),
        r.val() == poly_value(scalar_values(coeffs@), x.val()),
{
    let ghost vals = scalar_values(coeffs@);
    let last: usize = coeffs.len() - 1;
    let mut result = coeffs[last].duplicate();
    proof {
        let tail = vals.subrange(last as int, vals.len() as int);
        assert(tail.drop_first() =~= Seq::<int>::empty());
        assert(poly_value(tail.drop_first(), x.val()) == 0);
        assert(tail[0] == vals[last as int]);
        assert(vals[last as int] == coeffs@[last as int].val());
        assert(coeffs@[last as int].wf());
        lemma_small_mod(vals[last as int] as nat, curve_order() as nat);
        assert(x.val() * 0 == 0);
        assert(result.val() == poly_value(tail, x.val()));
    }
    let mut i: usize = last;
    while i > 0
        invariant
            i <= last,
            last + 1 == coeffs@.len(),
            vals == scalar_values(coeffs@),
            forall|j: int| 0 <= j < coeffs@.len() ==> (#[trigger] coeffs@[j]).wf(),
            x.wf(),
            result.wf(),
            result.val() == poly_value(vals.subrange(i as int, vals.len() as int), x.val()),
        decreases i,
    {
        i = i - 1;
        let t = scalar_mul(&result, x);
        result = scalar_add(&t, &coeffs[i]);
        proof {
            let s = vals.subrange(i as int, vals.len() as int);
            assert(s.drop_first() =~= vals.subrange(i + 1, vals.len() as int));
            let p = poly_value(s.drop_first(), x.val());
            lemma_add_mod_noop_right(vals[i as int], p * x.val(), curve_order());
            assert(p * x.val() == x.val() * p) by (nonlinear_arith);
        }
    }
    assert(vals.subrange(0, vals.len() as int) =~= vals);
    result
}

/// The batch state shared by all kfrags of one generation.
pub struct KeyFragFactory {
    pub signing_sk: SecretKey,
    pub precursor: CurvePoint,
    pub bob_pubkey_point: CurvePoint,
    pub dh_point: CurvePoint,
    pub params: Parameters,
    pub delegating_pk: PublicKey,
    pub receiving_pk: PublicKey,
    pub coefficients: Vec<CurveScalar>,
}

/// The DH part of a batch: `precursor = x·G` (not the identity) and `dh = x·pk_B`, which is
/// `(b·x)·G`, i.e. `b·precursor`, for the receiving key `pk_B = b·G`.
pub open spec fn dh_link(precursor: Seq<u8>, dh: Seq<u8>, bob: Seq<u8>, x: int) -> bool {
    &&& 0 < x < curve_order()
    &&& precursor == gen_times(x)
    &&& is_compressed_point(precursor)
    &&& dh == point_times(bob, x)
    &&& forall|b: int|
        0 <= b < curve_order() && bob == #[trigger] gen_times(b) ==> dh == gen_times(
            (b * x) % curve_order(),
        )
}

/// `f` is the factory that the precursor scalar `x` yields for these inputs.
pub open spec fn factory_from(
    f: KeyFragFactory,
    params: Parameters,
    delegating_sk: SecretKey,
    receiving_pk: PublicKey,
    signing_sk: SecretKey,
    threshold: usize,
    x: int,
) -> bool {
    &&& f.wf()
    &&& f.coefficients@.len() == threshold
    &&& f.params.u.bytes@ == params.u.bytes@
    &&& f.signing_sk.scalar.bytes@ == signing_sk.scalar.bytes@
    &&& f.delegating_pk.point.bytes@ == gen_times(delegating_sk.scalar.val())
    &&& f.receiving_pk.point.bytes@ == receiving_pk.point.bytes@
    &&& f.bob_pubkey_point.bytes@ == receiving_pk.point.bytes@
    &&& dh_link(f.precursor.bytes@, f.dh_point.bytes@, receiving_pk.point.bytes@, x)
    &&& shared_secret_value(f.precursor.bytes@, f.bob_pubkey_point.bytes@, f.dh_point.bytes@) != 0
    &&& (shared_secret_value(f.precursor.bytes@, f.bob_pubkey_point.bytes@, f.dh_point.bytes@)
        * f.coefficients@[0].val()) % curve_order() == delegating_sk.scalar.val()
    &&& forall|i: int| 1 <= i < threshold ==> (#[trigger] f.coefficients@[i]).val() != 0
}

impl KeyFragFactory {
    pub open spec fn wf(&self) -> bool {
        &&& self.signing_sk.wf()
        &&& self.precursor.wf()
        &&& is_compressed_point(self.precursor.bytes@)
        &&& self.bob_pubkey_point.wf()
        &&& self.dh_point.wf()
        &&& self.params.wf()
        &&& self.coefficients@.len() >= 1
        &&& forall|i: int|
            0 <= i < self.coefficients@.len() ==> (#[trigger] self.coefficients@[i]).wf()
    }

    /// The batch state for the precursor scalar `x` (drawn at random by `new`): `precursor = x·G`,
    /// `dh_point = x·pk_B`, and a sharing polynomial of degree `threshold - 1` whose constant term
    /// is `sk_A · d⁻¹`, with the other coefficients drawn at random. `None` exactly when the shared
    /// secret `d = H_shared(precursor, pk_B, dh_point)` is zero.
    pub fn from_precursor(
        params: &Parameters,
        delegating_sk: &SecretKey,
        receiving_pk: &PublicKey,
        signing_sk: &SecretKey,
        private_precursor: &CurveScalar,
        threshold: usize,
    ) -> (r: Option<KeyFragFactory>)
        requires
            params.wf(),
            delegating_sk.wf(),
            receiving_pk.wf(),
            signing_sk.wf(),
            private_precursor.wf(),
            private_precursor.val() != 0,
            threshold >= 1,
        ensures
            r is None <==> shared_secret_value(
                gen_times(private_precursor.val()),
                receiving_pk.point.bytes@,
                point_times(receiving_pk.point.bytes@, private_precursor.val()),
            ) == 0,
            r matches Some(f) ==> factory_from(
                f,
                *params,
                *delegating_sk,
                *receiving_pk,
                *signing_sk,
                threshold,
                private_precursor.val(),
            ),
    {
        let g = curve_generator();
        let delegating_pk = PublicKey::from_secret_key(delegating_sk);
        let bob_pubkey_point = receiving_pk.point.duplicate();
        let precursor = point_mul(&g, private_precursor);
        let dh_point = point_mul(&bob_pubkey_point, private_precursor);
        let d = hash_to_shared_secret(&precursor, &bob_pubkey_point, &dh_point);
        proof {
            assert((1 * private_precursor.val()) % curve_order() == private_precursor.val());
        }
        if !d.bytes_nonzero() {
            return None;
        }
        let d_inv = scalar_invert(&d);
        let coefficient0 = scalar_mul(&delegating_sk.scalar, &d_inv);
        proof {
            let n = curve_order();
            let a = delegating_sk.scalar.val();
            let di = d_inv.val();
            let dv = d.val();
            vstd::arithmetic::div_mod::lemma_mul_mod_noop_right(dv, a * di, n);
            assert(dv * (a * di) == a * (dv * di)) by (nonlinear_arith);
            vstd::arithmetic::div_mod::lemma_mul_mod_noop_right(a, dv * di, n);
            assert(dv * coefficient0.val() % n == a % n);
            lemma_small_mod(a as nat, n as nat);
            assert forall|b: int|
                0 <= b < curve_order() && receiving_pk.point.bytes@ == #[trigger] gen_times(b)
                    implies dh_point.bytes@ == gen_times((b * private_precursor.val()) % curve_order()) by {
            }
        }
        let mut coefficients: Vec<CurveScalar> = Vec::with_capacity(threshold);
        coefficients.push(coefficient0);
        let mut i: usize = 1;
        while i < threshold
            invariant
                1 <= i <= threshold,
                coefficients@.len() == i,
                coefficients@[0].val() == coefficient0.val(),
                forall|j: int| 0 <= j < i ==> (#[trigger] coefficients@[j]).wf(),
                forall|j: int| 1 <= j < i ==> (#[trigger] coefficients@[j]).val() != 0,
            decreases threshold - i,
        {
            coefficients.push(random_scalar());
            i = i + 1;
        }
        Some(
            KeyFragFactory {
                signing_sk: signing_sk.duplicate(),
                precursor,
                bob_pubkey_point,
                dh_point,
                params: params.duplicate(),
                delegating_pk,
                receiving_pk: receiving_pk.duplicate(),
                coefficients,
            },
        )
    }

    /// Draws the precursor scalar and builds the batch state with `from_precursor`, retrying a
    /// bounded number of times while the shared secret comes out zero. `None` only if every
    /// attempt gave a zero shared secret.
    pub fn new(
        params: &Parameters,
        delegating_sk: &SecretKey,
        receiving_pk: &PublicKey,
        signing_sk: &SecretKey,
        threshold: usize,
    ) -> (r: Option<KeyFragFactory>)
        requires
            params.wf(),
            delegating_sk.wf(),
            receiving_pk.wf(),
            signing_sk.wf(),
            threshold >= 1,
        ensures
            r matches Some(f) ==> exists|x: int|
                #[trigger] factory_from(
                    f,
                    *params,
                    *delegating_sk,
                    *receiving_pk,
                    *signing_sk,
                    threshold,
                    x,
                ),
    {
        let mut attempt: u32 = 0;
        while attempt < MAX_PRECURSOR_ATTEMPTS
            invariant
                params.wf(),
                delegating_sk.wf(),
                receiving_pk.wf(),
                signing_sk.wf(),
                threshold >= 1,
            decreases MAX_PRECURSOR_ATTEMPTS - attempt,
        {
            attempt = attempt + 1;
            let private_precursor = random_scalar();
            match KeyFragFactory::from_precursor(
                params,
                delegating_sk,
                receiving_pk,
                signing_sk,
                &private_precursor,
                threshold,
            ) {
                Some(f) => {
                    return Some(f);
                },
                None => {},
            }
        }
        None
    }
}

} // verus!

verus! {

/// For parameters `u = c·G`, the kfrag's commitment is `(c·key)·G`.
pub open spec fn commitment_exponent(kfrag: KeyFrag) -> bool {
    forall|c: int|
        0 <= c < curve_order() && kfrag.params.u.bytes@ == #[trigger] gen_times(c)
            ==> kfrag.proof.commitment.bytes@ == gen_times((c * kfrag.key.val()) % curve_order())
}

/// Every kfrag of the batch carries `precursor` and holds as its key the value, at its share
/// index, of the polynomial with coefficients `coeffs`.
pub open spec fn batch_shares(
    kfrags: Seq<KeyFrag>,
    coeffs: Seq<int>,
    precursor: Seq<u8>,
    bob: Seq<u8>,
    dh: Seq<u8>,
) -> bool {
    forall|i: int|
        0 <= i < kfrags.len() ==> (#[trigger] kfrags[i]).precursor.bytes@ == precursor
            && kfrags[i].key.val() == poly_value(
            coeffs,
            polynomial_arg_value(precursor, bob, dh, kfrags[i].id.bytes@),
        )
}

impl KeyFrag {
    /// Makes one kfrag of the factory's batch: a fresh identifier, the share `f(x_i)` at the
    /// index `x_i = H_poly(precursor, pk_bob, dh_point, id)`, and its proof.
    pub fn new(factory: &KeyFragFactory, sign_delegating_key: bool, sign_receiving_key: bool) -> (r: KeyFrag)
        requires
            factory.wf(),
        ensures
            r.wf(),
            r.params.u.bytes@ == factory.params.u.bytes@,
            r.precursor.bytes@ == factory.precursor.bytes@,
            r.key.val() == poly_value(
                scalar_values(factory.coefficients@),
                polynomial_arg_value(
                    factory.precursor.bytes@,
                    factory.bob_pubkey_point.bytes@,
                    factory.dh_point.bytes@,
                    r.id.bytes@,
                ),
            ),
            kfrag_signed(
                r,
                factory.signing_sk.scalar.bytes@,
                factory.delegating_pk.point.bytes@,
                factory.receiving_pk.point.bytes@,
            ),
            r.proof.delegating_key_signed == sign_delegating_key,
            r.proof.receiving_key_signed == sign_receiving_key,
            r.key.val() != 0 ==> r.encodable(),
            commitment_exponent(r),
    {
        let kfrag_id = KeyFragID::random();
        // The share index is bound to Bob's key and the DH point, so that the shares can
        // only be recombined with Bob's participation.
        let share_index = hash_to_polynomial_arg(
            &factory.precursor,
            &factory.bob_pubkey_point,
            &factory.dh_point,
            &kfrag_id,
        );
        let rk = poly_eval(factory.coefficients.as_slice(), &share_index);
        let proof = KeyFragProof::new(
            &factory.params,
            &kfrag_id,
            &rk,
            &factory.precursor,
            &factory.signing_sk,
            &factory.delegating_pk,
            &factory.receiving_pk,
            sign_delegating_key,
            sign_receiving_key,
        );
        KeyFrag {
            params: factory.params.duplicate(),
            id: kfrag_id,
            key: rk,
            precursor: factory.precursor.duplicate(),
            proof,
        }
    }
}

/// Creates `num_kfrags` fragments of `delegating_sk` for `receiving_pk`, any `threshold` of
/// which suffice, signed with `signing_sk`. The flags choose which keys the proxy signature
/// covers. `None` only in the negligible case that no precursor with nonzero shared secret
/// was drawn within the bounded attempts.
pub fn generate_kfrags(
    params: &Parameters,
    delegating_sk: &SecretKey,
    receiving_pk: &PublicKey,
    signing_sk: &SecretKey,
    threshold: usize,
    num_kfrags: usize,
    sign_delegating_key: bool,
    sign_receiving_key: bool,
) -> (r: Option<Vec<KeyFrag>>)
    requires
        params.wf(),
        delegating_sk.wf(),
        receiving_pk.wf(),
        signing_sk.wf(),
        1 <= threshold <= num_kfrags,
    ensures
        r matches Some(v) ==> {
            &&& v@.len() == num_kfrags
            &&& forall|i: int|
                0 <= i < v@.len() ==> {
                    &&& (#[trigger] v@[i]).wf()
                    &&& v@[i].params.u.bytes@ == params.u.bytes@
                    &&& kfrag_signed(
                        v@[i],
                        signing_sk.scalar.bytes@,
                        gen_times(delegating_sk.scalar.val()),
                        receiving_pk.point.bytes@,
                    )
                    &&& v@[i].proof.delegating_key_signed == sign_delegating_key
                    &&& v@[i].proof.receiving_key_signed == sign_receiving_key
                    &&& v@[i].key.val() != 0 ==> v@[i].encodable()
                    &&& commitment_exponent(v@[i])
                }
            &&& exists|coeffs: Seq<int>, precursor: Seq<u8>, dh: Seq<u8>, x: int|
                #[trigger] batch_shares(v@, coeffs, precursor, receiving_pk.point.bytes@, dh)
                    && #[trigger] dh_link(precursor, dh, receiving_pk.point.bytes@, x)
                    && coeffs.len() == threshold && shared_secret_value(
                    precursor,
                    receiving_pk.point.bytes@,
                    dh,
                ) != 0 && (shared_secret_value(precursor, receiving_pk.point.bytes@, dh)
                    * coeffs[0]) % curve_order() == delegating_sk.scalar.val()
        },
{
    let base = match KeyFragFactory::new(params, delegating_sk, receiving_pk, signing_sk, threshold) {
        Some(f) => f,
        None => {
            return None;
        },
    };
    let ghost coeffs = scalar_values(base.coefficients@);
    let ghost x = choose|x: int|
        #[trigger] factory_from(
            base,
            *params,
            *delegating_sk,
            *receiving_pk,
            *signing_sk,
            threshold,
            x,
        );
    assert(dh_link(base.precursor.bytes@, base.dh_point.bytes@, receiving_pk.point.bytes@, x));
    let mut result: Vec<KeyFrag> = Vec::new();
    let mut i: usize = 0;
    while i < num_kfrags
        invariant
            base.wf(),
            i <= num_kfrags,
            result@.len() == i,
            base.params.u.bytes@ == params.u.bytes@,
            base.signing_sk.scalar.bytes@ == signing_sk.scalar.bytes@,
            base.delegating_pk.point.bytes@ == gen_times(delegating_sk.scalar.val()),
            base.receiving_pk.point.bytes@ == receiving_pk.point.bytes@,
            base.bob_pubkey_point.bytes@ == receiving_pk.point.bytes@,
            coeffs == scalar_values(base.coefficients@),
            forall|j: int|
                0 <= j < i ==> {
                    &&& (#[trigger] result@[j]).wf()
                    &&& result@[j].params.u.bytes@ == params.u.bytes@
                    &&& kfrag_signed(
                        result@[j],
                        signing_sk.scalar.bytes@,
                        gen_times(delegating_sk.scalar.val()),
                        receiving_pk.point.bytes@,
                    )
                    &&& result@[j].proof.delegating_key_signed == sign_delegating_key
                    &&& result@[j].proof.receiving_key_signed == sign_receiving_key
                    &&& result@[j].key.val() != 0 ==> result@[j].encodable()
                    &&& commitment_exponent(result@[j])
                },
            batch_shares(
                result@,
                coeffs,
                base.precursor.bytes@,
                receiving_pk.point.bytes@,
                base.dh_point.bytes@,
            ),
        decreases num_kfrags - i,
    {
        let kfrag = KeyFrag::new(&base, sign_delegating_key, sign_receiving_key);
        result.push(kfrag);
        i = i + 1;
    }
    proof {
        assert(batch_shares(
            result@,
            coeffs,
            base.precursor.bytes@,
            receiving_pk.point.bytes@,
            base.dh_point.bytes@,
        ));
        assert(coeffs[0] == base.coefficients@[0].val());
    }
    Some(result)
}

} // verus!
