use vstd::prelude::*;

use crate::curve::{
    be_val, copy_bytes, curve_generator, curve_order, gen_times, is_compressed_point, point_mul, random_scalar,
    CurvePoint, CurveScalar,
};
use k256::ecdsa::signature::hazmat::{PrehashSigner, PrehashVerifier};

verus! {

/// The ECDSA signature that `sk` makes over the 32-byte `digest` (RFC 6979, low-s form).
pub uninterp spec fn ecdsa_signature_of(sk: Seq<u8>, digest: Seq<u8>) -> Seq<u8>;

/// Whether `b` parses as a 64-byte ECDSA signature `r ‖ s`.
pub uninterp spec fn ecdsa_signature_parses(b: Seq<u8>) -> bool;

/// Whether ECDSA verification accepts `sig` over `digest` under the public key `pk`.
pub uninterp spec fn ecdsa_accepts(pk: Seq<u8>, digest: Seq<u8>, sig: Seq<u8>) -> bool;

/// A secret key: a nonzero scalar.
#[derive(Clone, Debug, PartialEq, Eq)]
pub struct SecretKey {
    pub scalar: CurveScalar,
}

impl SecretKey {
    pub open spec fn wf(&self) -> bool {
        self.scalar.wf() && self.scalar.val() != 0
    }

    /// A fresh random secret key.
    pub fn random() -> (r: SecretKey)
        ensures
            r.wf(),
    {
        SecretKey { scalar: random_scalar() }
    }

    /// A copy of the key.
    pub fn duplicate(&self) -> (r: SecretKey)
        ensures
            r.scalar.bytes@ == self.scalar.bytes@,
    {
        SecretKey { scalar: self.scalar.duplicate() }
    }

    /// Reads a secret key from its 32-byte big-endian scalar; zero and values not below the
    /// group order are refused.
    pub fn from_bytes(bytes: &[u8]) -> (r: Option<SecretKey>)
        ensures
            r is Some <==> (bytes@.len() == 32 && be_val(bytes@) != 0 && be_val(bytes@) < curve_order()),
            r matches Some(sk) ==> sk.wf() && sk.scalar.bytes@ == bytes@,
    {
        match crate::curve::bytes_to_scalar(bytes) {
            Some(s) => {
                if s.bytes_nonzero() {
                    Some(SecretKey { scalar: s })
                } else {
                    None
                }
            },
            None => None,
        }
    }
}

/// A public key: the point `sk·G` of a secret key `sk`.
#[derive(Clone, Debug, PartialEq, Eq)]
pub struct PublicKey {
    pub point: CurvePoint,
}

impl PublicKey {
    pub open spec fn wf(&self) -> bool {
        self.point.wf()
    }

    /// The public key `sk·G` of a secret key.
    pub fn from_secret_key(sk: &SecretKey) -> (r: PublicKey)
        requires
            sk.wf(),
        ensures
            r.wf(),
            is_compressed_point(r.point.bytes@),
            r.point.bytes@ == gen_times(sk.scalar.val()),
    {
        let g = curve_generator();
        PublicKey { point: point_mul(&g, &sk.scalar) }
    }

    /// The 33-byte compressed encoding of the key.
    pub fn to_bytes(&self) -> (r: Vec<u8>)
        ensures
            r@ == self.point.bytes@,
    {
        copy_bytes(self.point.bytes.as_slice())
    }

    /// Reads a public key from its 33-byte compressed encoding; the identity is refused.
    pub fn from_bytes(bytes: &[u8]) -> (r: Option<PublicKey>)
        ensures
            r is Some <==> is_compressed_point(bytes@),
            r matches Some(pk) ==> pk.wf() && pk.point.bytes@ == bytes@,
    {
        match crate::curve::bytes_to_point(bytes) {
            Some(point) => Some(PublicKey { point }),
            None => None,
        }
    }

    /// A copy of the key.
    pub fn duplicate(&self) -> (r: PublicKey)
        ensures
            r.point.bytes@ == self.point.bytes@,
    {
        PublicKey { point: self.point.duplicate() }
    }
}

/// An ECDSA signature: `r ‖ s`, 64 bytes.
#[derive(Clone, Debug, PartialEq, Eq)]
pub struct Signature {
    pub bytes: Vec<u8>,
}

/// Relies on `k256::ecdsa::Signature::from_slice`: whether 64 bytes parse as `r ‖ s`.
#[verifier::external_body]
fn ecdsa_parse(b: &[u8]) -> (r: bool)
    ensures
        r == ecdsa_signature_parses(b@),
{
    k256::ecdsa::Signature::from_slice(b).is_ok()
}

impl Signature {
    /// The 64-byte encoding `r ‖ s`.
    pub fn to_bytes(&self) -> (r: Vec<u8>)
        ensures
            r@ == self.bytes@,
    {
        copy_bytes(self.bytes.as_slice())
    }

    /// Reads a signature from its 64-byte encoding.
    pub fn from_bytes(bytes: &[u8]) -> (r: Option<Signature>)
        ensures
            r is Some <==> (bytes@.len() == 64 && ecdsa_signature_parses(bytes@)),
            r matches Some(s) ==> s.bytes@ == bytes@,
    {
        if bytes.len() != 64 {
            return None;
        }
        if ecdsa_parse(bytes) {
            Some(Signature { bytes: copy_bytes(bytes) })
        } else {
            None
        }
    }

    /// A copy of the signature.
    pub fn duplicate(&self) -> (r: Signature)
        ensures
            r.bytes@ == self.bytes@,
    {
        Signature { bytes: copy_bytes(self.bytes.as_slice()) }
    }
}

/// Relies on `k256::ecdsa::SigningKey::sign_prehash`: deterministic ECDSA (RFC 6979) of a
/// 32-byte digest, returned as 64 bytes `r ‖ s`.
#[verifier::external_body]
fn ecdsa_sign(sk: &Vec<u8>, digest: &Vec<u8>) -> (r: Vec<u8>)
    requires
        sk@.len() == 32,
        be_val(sk@) != 0,
        be_val(sk@) < curve_order(),
        digest@.len() == 32,
    ensures
        r@ == ecdsa_signature_of(sk@, digest@),
        r@.len() == 64,
        ecdsa_signature_parses(r@),
{
    let key = k256::ecdsa::SigningKey::from_slice(sk).unwrap();
    let sig: k256::ecdsa::Signature = key.sign_prehash(digest).unwrap();
    sig.to_bytes().to_vec()
}

/// Relies on `k256::ecdsa::VerifyingKey::verify_prehash`; a key or a signature that does not
/// parse is refused. A signature that the matching secret key made is accepted.
#[verifier::external_body]
fn ecdsa_verify(pk: &Vec<u8>, digest: &Vec<u8>, sig: &Vec<u8>) -> (r: bool)
    ensures
        r == ecdsa_accepts(pk@, digest@, sig@),
        forall|sk: Seq<u8>|
            digest@.len() == 32 && sk.len() == 32 && be_val(sk) != 0 && be_val(sk) < curve_order() && pk@ == gen_times(be_val(sk))
                && sig@ == #[trigger] ecdsa_signature_of(sk, digest@) ==> r,
{
    match (k256::ecdsa::VerifyingKey::from_sec1_bytes(pk), k256::ecdsa::Signature::from_slice(sig)) {
        (Ok(key), Ok(s)) => key.verify_prehash(digest, &s).is_ok(),
        _ => false,
    }
}

/// Signs a 32-byte digest with a secret key.
pub fn sign(sk: &SecretKey, digest: &Vec<u8>) -> (r: Signature)
    requires
        sk.wf(),
        digest@.len() == 32,
    ensures
        r.bytes@ == ecdsa_signature_of(sk.scalar.bytes@, digest@),
        r.bytes@.len() == 64,
        ecdsa_signature_parses(r.bytes@),
{
    Signature { bytes: ecdsa_sign(&sk.scalar.bytes, digest) }
}

/// Checks a signature over a 32-byte digest against a public key.
pub fn verify(pk: &PublicKey, digest: &Vec<u8>, sig: &Signature) -> (r: bool)
    ensures
        r == ecdsa_accepts(pk.point.bytes@, digest@, sig.bytes@),
        forall|sk: SecretKey|
            digest@.len() == 32 && sk.wf() && pk.point.bytes@ == gen_times(sk.scalar.val()) && sig.bytes@
                == #[trigger] ecdsa_signature_of(sk.scalar.bytes@, digest@) ==> r,
{
    let r = ecdsa_verify(&pk.point.bytes, digest, &sig.bytes);
    proof {
        assert forall|sk: SecretKey|
            digest@.len() == 32 && sk.wf() && pk.point.bytes@ == gen_times(sk.scalar.val()) && sig.bytes@
                == #[trigger] ecdsa_signature_of(sk.scalar.bytes@, digest@) implies r by {
            assert(sig.bytes@ == ecdsa_signature_of(sk.scalar.bytes@, digest@));
        }
    }
    r
}

} // verus!
