use vstd::prelude::*;

use crate::capsule::{capsule_hash, Capsule};
use crate::curve::{
    curve_generator, curve_order, gen_times, point_add, point_mul, point_sum, point_times,
    random_scalar, scalar_add, scalar_mul,
};
use crate::dem::{dem_decrypt, dem_encrypt, dem_key_of, dem_open, kdf, MAX_PLAINTEXT};
use crate::keys::{PublicKey, SecretKey};
use crate::params::Parameters;

verus! {

/// Why a decryption produced no plaintext.
#[derive(Clone, Copy, Debug, PartialEq, Eq)]
pub enum DecryptionError {
    /// The capsule fails its self-consistency check.
    InvalidCapsule,
    /// The ciphertext does not authenticate under the derived key.
    DecryptionFailed,
}

/// The plaintext view of a decryption result.
pub open spec fn result_view(r: Result<Vec<u8>, DecryptionError>) -> Result<Seq<u8>, DecryptionError> {
    match r {
        Ok(m) => Ok(m@),
        Err(e) => Err(e),
    }
}

/// `(capsule, ct)` is a possible outcome of encrypting `m` to the public key encoded by `pk`:
/// `E = r·G`, `V = u·G`, `s = u + r·H_capsule(E, V)`, and `ct` is the DEM encryption of `m`
/// under the key derived from `(r + u)·pk`.
pub open spec fn encrypt_outcome(pk: Seq<u8>, m: Seq<u8>, capsule: Capsule, ct: Seq<u8>) -> bool {
    exists|r: int, u: int|
        0 < r < curve_order() && 0 < u < curve_order() && #[trigger] gen_times(r)
            == capsule.e.bytes@ && #[trigger] gen_times(u) == capsule.v.bytes@ && capsule.s.val()
            == (u + (r * capsule_hash(capsule.e.bytes@, capsule.v.bytes@)) % curve_order())
            % curve_order() && dem_open(dem_key_of(point_times(pk, (r + u) % curve_order())), ct)
            == Some(m) && forall|a: int|
            0 <= a < curve_order() && pk == #[trigger] gen_times(a) ==> point_times(
                pk,
                (r + u) % curve_order(),
            ) == gen_times((a * ((r + u) % curve_order())) % curve_order())
}

/// What `decrypt_original` returns for the secret scalar `sk`.
pub open spec fn decrypt_original_spec(sk: int, capsule: Capsule, ct: Seq<u8>) -> Result<
    Seq<u8>,
    DecryptionError,
> {
    if !capsule.is_consistent() {
        Err(DecryptionError::InvalidCapsule)
    } else {
        match dem_open(
            dem_key_of(point_times(point_sum(capsule.e.bytes@, capsule.v.bytes@), sk)),
            ct,
        ) {
            Some(m) => Ok(m),
            None => Err(DecryptionError::DecryptionFailed),
        }
    }
}

/// Encrypts `plaintext` to `delegating_pk`: a fresh capsule, and the DEM ciphertext under the
/// key derived from the capsule's shared point. `None` when the plaintext is too long for the DEM.
pub fn encrypt(params: &Parameters, delegating_pk: &PublicKey, plaintext: &[u8]) -> (r: Option<(Capsule, Vec<u8>)>)
    requires
        delegating_pk.wf(),
    ensures
        r is Some <==> plaintext@.len() <= MAX_PLAINTEXT as int,
        r matches Some((c, ct)) ==> c.encodable() && ct@.len() == plaintext@.len() + 28
            && encrypt_outcome(
            delegating_pk.point.bytes@,
            plaintext@,
            c,
            ct@,
        ),
{
    if plaintext.len() as u64 > MAX_PLAINTEXT {
        return None;
    }
    let g = curve_generator();
    let priv_r = random_scalar();
    let priv_u = random_scalar();
    let e = point_mul(&g, &priv_r);
    let v = point_mul(&g, &priv_u);
    let capsule0 = Capsule { e, v, s: priv_u.duplicate() };
    let h = capsule0.hash();
    let rh = scalar_mul(&priv_r, &h);
    let s = scalar_add(&priv_u, &rh);
    let capsule = Capsule { e: capsule0.e, v: capsule0.v, s };
    let w = scalar_add(&priv_r, &priv_u);
    let shared = point_mul(&delegating_pk.point, &w);
    let key = kdf(&shared.bytes);
    let ct = dem_encrypt(&key, plaintext);
    proof {
        let ri = priv_r.val();
        let ui = priv_u.val();
        assert(gen_times(ri) == capsule.e.bytes@);
        assert(gen_times(ui) == capsule.v.bytes@);
    }
    Some((capsule, ct))
}

/// Decrypts a ciphertext with the secret key it was encrypted to: checks the capsule, derives
/// the key from `sk·(E + V)` and opens the DEM ciphertext.
pub fn decrypt_original(delegating_sk: &SecretKey, capsule: &Capsule, ciphertext: &[u8]) -> (r: Result<Vec<u8>, DecryptionError>)
    requires
        delegating_sk.wf(),
        capsule.wf(),
    ensures
        result_view(r) == decrypt_original_spec(delegating_sk.scalar.val(), *capsule, ciphertext@),
        forall|m: Seq<u8>|
            #[trigger] encrypt_outcome(gen_times(delegating_sk.scalar.val()), m, *capsule, ciphertext@)
                ==> result_view(r) == Ok::<Seq<u8>, DecryptionError>(m),
{
    let consistent = capsule.verify();
    if !consistent {
        return Err(DecryptionError::InvalidCapsule);
    }
    let sum = point_add(&capsule.e, &capsule.v);
    let shared = point_mul(&sum, &delegating_sk.scalar);
    let key = kdf(&shared.bytes);
    let r = match dem_decrypt(&key, ciphertext) {
        Some(m) => Ok(m),
        None => Err(DecryptionError::DecryptionFailed),
    };
    proof {
        let sk = delegating_sk.scalar.val();
        assert forall|m: Seq<u8>|
            #[trigger] encrypt_outcome(gen_times(sk), m, *capsule, ciphertext@) implies result_view(r)
                == Ok::<Seq<u8>, DecryptionError>(m) by {
            let (ri, ui) = choose|ri: int, ui: int|
                0 < ri < curve_order() && 0 < ui < curve_order() && #[trigger] gen_times(ri)
                    == capsule.e.bytes@ && #[trigger] gen_times(ui) == capsule.v.bytes@
                    && capsule.s.val() == (ui + (ri * capsule_hash(capsule.e.bytes@, capsule.v.bytes@))
                    % curve_order()) % curve_order() && dem_open(
                    dem_key_of(point_times(gen_times(sk), (ri + ui) % curve_order())),
                    ciphertext@,
                ) == Some(m) && forall|a: int|
                    0 <= a < curve_order() && gen_times(sk) == #[trigger] gen_times(a)
                        ==> point_times(gen_times(sk), (ri + ui) % curve_order()) == gen_times(
                        (a * ((ri + ui) % curve_order())) % curve_order(),
                    );
            let w = (ri + ui) % curve_order();
            assert(sum.bytes@ == gen_times(w));
            assert(shared.bytes@ == gen_times((w * sk) % curve_order()));
            assert(point_times(gen_times(sk), w) == gen_times((sk * w) % curve_order()));
            assert((w * sk) == (sk * w)) by (nonlinear_arith);
        }
    }
    r
}

} // verus!
