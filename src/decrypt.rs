use vstd::prelude::*;

use vstd::arithmetic::div_mod::{lemma_mul_mod_noop_left, lemma_mul_mod_noop_right, lemma_small_mod};

use crate::capsule::Capsule;
use crate::capsule_frag::CapsuleFrag;
use crate::curve::{
    bytes_equal, curve_order, gen_times, point_add, point_mul, point_sum, point_times,
    scalar_inverse_of, scalar_invert, scalar_mul, scalar_one, scalar_sub, CurvePoint, CurveScalar,
};
use crate::dem::{dem_decrypt, dem_key_of, dem_open, kdf};
use crate::key_frag::{
    hash_to_polynomial_arg, hash_to_shared_secret, polynomial_arg_value, scalar_values,
    shared_secret_value,
};
use crate::keys::{PublicKey, SecretKey};

verus! {

/// `∏_{j < k, j ≠ i} x_j` modulo `n`.
pub open spec fn prod_num(xs: Seq<int>, i: int, k: int) -> int
    decreases k,
{
    if k <= 0 {
        1
    } else if k - 1 == i {
        prod_num(xs, i, k - 1)
    } else {
        (prod_num(xs, i, k - 1) * xs[k - 1]) % curve_order()
    }
}

/// `∏_{j < k, j ≠ i} (x_j − x_i)` modulo `n`.
pub open spec fn prod_den(xs: Seq<int>, i: int, k: int) -> int
    decreases k,
{
    if k <= 0 {
        1
    } else if k - 1 == i {
        prod_den(xs, i, k - 1)
    } else {
        (prod_den(xs, i, k - 1) * ((xs[k - 1] - xs[i]) % curve_order())) % curve_order()
    }
}

/// Every denominator of the Lagrange coefficients at zero is nonzero (the indices are distinct).
pub open spec fn denominators_nonzero(xs: Seq<int>) -> bool {
    forall|i: int| 0 <= i < xs.len() ==> #[trigger] prod_den(xs, i, xs.len() as int) != 0
}

/// `ls` are the Lagrange coefficients at zero of the indices `xs`:
/// `λ_i · ∏_{j≠i}(x_j − x_i) ≡ ∏_{j≠i} x_j (mod n)`.
pub open spec fn lagrange_coeffs(xs: Seq<int>, ls: Seq<int>) -> bool {
    &&& ls.len() == xs.len()
    &&& forall|i: int|
        0 <= i < xs.len() ==> 0 <= #[trigger] ls[i] < curve_order() && (ls[i] * prod_den(
            xs,
            i,
            xs.len() as int,
        )) % curve_order() == prod_num(xs, i, xs.len() as int)
}

/// The Lagrange coefficient at zero of index `i`: `∏_{j≠i} x_j · (∏_{j≠i}(x_j − x_i))⁻¹` modulo `n`.
pub open spec fn lagrange_coeff(xs: Seq<int>, i: int) -> int {
    (prod_num(xs, i, xs.len() as int) * scalar_inverse_of(prod_den(xs, i, xs.len() as int)))
        % curve_order()
}

/// The Lagrange coefficients at zero of all indices.
pub open spec fn lagrange_seq(xs: Seq<int>) -> Seq<int> {
    Seq::new(xs.len(), |i: int| lagrange_coeff(xs, i))
}

/// `Σ_{i < k} λ_i · P_i`, summed from the first term on.
pub open spec fn combine(ps: Seq<Seq<u8>>, ls: Seq<int>, k: int) -> Seq<u8>
    decreases k,
{
    if k <= 1 {
        point_times(ps[0], ls[0])
    } else {
        point_sum(combine(ps, ls, k - 1), point_times(ps[k - 1], ls[k - 1]))
    }
}

/// `Σ_{i < k} λ_i · e_i` modulo `n`, summed from the first term on.
pub open spec fn weighted_sum(es: Seq<int>, ls: Seq<int>, k: int) -> int
    decreases k,
{
    if k <= 1 {
        (es[0] * ls[0]) % curve_order()
    } else {
        (weighted_sum(es, ls, k - 1) + (es[k - 1] * ls[k - 1]) % curve_order()) % curve_order()
    }
}

/// The encodings of a sequence of points.
pub open spec fn point_bytes(ps: Seq<CurvePoint>) -> Seq<Seq<u8>> {
    ps.map_values(|p: CurvePoint| p.bytes@)
}

/// Each point of `ps` is `e_i·G`, with `e_i` reduced.
pub open spec fn exponents_of(ps: Seq<Seq<u8>>, es: Seq<int>) -> bool {
    es.len() == ps.len() && forall|i: int|
        0 <= i < es.len() ==> 0 <= #[trigger] es[i] < curve_order() && ps[i] == gen_times(es[i])
}

/// The share indices of the cfrags, with the batch precursor, Bob's key and the DH point.
pub open spec fn cfrag_indices(cfrags: Seq<CapsuleFrag>, precursor: Seq<u8>, bob: Seq<u8>, dh: Seq<u8>) -> Seq<int> {
    cfrags.map_values(|c: CapsuleFrag| polynomial_arg_value(precursor, bob, dh, c.kfrag_id.bytes@))
}

pub open spec fn e1_points(cfrags: Seq<CapsuleFrag>) -> Seq<Seq<u8>> {
    cfrags.map_values(|c: CapsuleFrag| c.point_e1.bytes@)
}

pub open spec fn v1_points(cfrags: Seq<CapsuleFrag>) -> Seq<Seq<u8>> {
    cfrags.map_values(|c: CapsuleFrag| c.point_v1.bytes@)
}

/// All cfrags carry the precursor of the first.
pub open spec fn same_precursor(cfrags: Seq<CapsuleFrag>) -> bool {
    forall|i: int| 0 <= i < cfrags.len() ==> (#[trigger] cfrags[i]).precursor.bytes@ == cfrags[0].precursor.bytes@
}

/// The DEM key point that Bob (secret scalar `sk`) recombines from the cfrags with coefficients `ls`:
/// `d · (Σ λ_i·E₁_i + Σ λ_i·V₁_i)`.
pub open spec fn recombined_point(cfrags: Seq<CapsuleFrag>, sk: int, ls: Seq<int>) -> Seq<u8> {
    let precursor = cfrags[0].precursor.bytes@;
    let bob = gen_times(sk);
    let dh = point_times(precursor, sk);
    point_times(
        point_sum(
            combine(e1_points(cfrags), ls, cfrags.len() as int),
            combine(v1_points(cfrags), ls, cfrags.len() as int),
        ),
        shared_secret_value(precursor, bob, dh),
    )
}

/// The Lagrange coefficients at zero of the indices `xs`; `None` if a denominator is zero.
fn lagrange_at_zero(xs: &Vec<CurveScalar>) -> (r: Option<Vec<CurveScalar>>)
    requires
        forall|i: int| 0 <= i < xs@.len() ==> (#[trigger] xs@[i]).wf(),
    ensures
        r is Some <==> denominators_nonzero(scalar_values(xs@)),
        r matches Some(ls) ==> (forall|i: int| 0 <= i < ls@.len() ==> (#[trigger] ls@[i]).wf())
            && lagrange_coeffs(scalar_values(xs@), scalar_values(ls@)) && scalar_values(ls@)
            == lagrange_seq(scalar_values(xs@)),
{
    let ghost xv = scalar_values(xs@);
    let m = xs.len();
    let mut ls: Vec<CurveScalar> = Vec::new();
    let mut i: usize = 0;
    while i < m
        invariant
            m == xs@.len(),
            xv == scalar_values(xs@),
            i <= m,
            ls@.len() == i,
            forall|k: int| 0 <= k < xs@.len() ==> (#[trigger] xs@[k]).wf(),
            forall|k: int| 0 <= k < i ==> (#[trigger] ls@[k]).wf(),
            forall|k: int| 0 <= k < i ==> #[trigger] prod_den(xv, k, m as int) != 0,
            forall|k: int| 0 <= k < i ==> (#[trigger] ls@[k]).val() == lagrange_coeff(xv, k),
            forall|k: int|
                0 <= k < i ==> (#[trigger] ls@[k].val() * prod_den(xv, k, m as int)) % curve_order()
                    == prod_num(xv, k, m as int),
        decreases m - i,
    {
        let mut num = scalar_one();
        let mut den = scalar_one();
        let mut j: usize = 0;
        while j < m
            invariant
                m == xs@.len(),
                xv == scalar_values(xs@),
                i < m,
                j <= m,
                forall|k: int| 0 <= k < xs@.len() ==> (#[trigger] xs@[k]).wf(),
                num.wf(),
                den.wf(),
                num.val() == prod_num(xv, i as int, j as int),
                den.val() == prod_den(xv, i as int, j as int),
            decreases m - j,
        {
            if j != i {
                num = scalar_mul(&num, &xs[j]);
                let diff = scalar_sub(&xs[j], &xs[i]);
                den = scalar_mul(&den, &diff);
            }
            j = j + 1;
        }
        if !den.bytes_nonzero() {
            proof {
                assert(xv.len() == m);
                assert(prod_den(xv, i as int, xv.len() as int) == 0);
                assert(!denominators_nonzero(xv));
            }
            return None;
        }
        let inv = scalar_invert(&den);
        let l = scalar_mul(&num, &inv);
        proof {
            let n = curve_order();
            let a = num.val();
            let b = inv.val();
            let c = den.val();
            lemma_mul_mod_noop_left(a * b, c, n);
            assert((a * b) * c == a * (c * b)) by (nonlinear_arith);
            lemma_mul_mod_noop_right(a, c * b, n);
            assert(c * b == b * c) by (nonlinear_arith);
            assert(a * 1 == a);
            lemma_small_mod(a as nat, n as nat);
            assert((l.val() * c) % n == a);
        }
        ls.push(l);
        i = i + 1;
    }
    proof {
        let lv = scalar_values(ls@);
        assert forall|k: int| 0 <= k < xv.len() implies 0 <= #[trigger] lv[k] < curve_order() && (
        lv[k] * prod_den(xv, k, xv.len() as int)) % curve_order() == prod_num(
            xv,
            k,
            xv.len() as int,
        ) by {
            assert(ls@[k].wf());
        }
        assert(lv =~= lagrange_seq(xv));
    }
    Some(ls)
}

/// `Σ λ_i · P_i` over the points `ps` and coefficients `ls`.
fn linear_combination(ps: &Vec<CurvePoint>, ls: &Vec<CurveScalar>) -> (r: CurvePoint)
    requires
        ps@.len() >= 1,
        ls@.len() == ps@.len(),
        forall|i: int| 0 <= i < ps@.len() ==> (#[trigger] ps@[i]).wf(),
        forall|i: int| 0 <= i < ls@.len() ==> (#[trigger] ls@[i]).wf(),
    ensures
        r.wf(),
        r.bytes@ == combine(
            point_bytes(ps@),
            scalar_values(ls@),
            ps@.len() as int,
        ),
        forall|es: Seq<int>|
            #[trigger] exponents_of(point_bytes(ps@), es) ==> r.bytes@
                == gen_times(weighted_sum(es, scalar_values(ls@), ps@.len() as int)),
{
    let ghost pv = point_bytes(ps@);
    let ghost lv = scalar_values(ls@);
    let mut acc = point_mul(&ps[0], &ls[0]);
    proof {
        assert forall|es: Seq<int>| #[trigger] exponents_of(pv, es) implies acc.bytes@ == gen_times(
            weighted_sum(es, lv, 1),
        ) by {
            assert(0 <= es[0] < curve_order() && pv[0] == gen_times(es[0]));
        }
    }
    let mut i: usize = 1;
    while i < ps.len()
        invariant
            1 <= i <= ps@.len(),
            ls@.len() == ps@.len(),
            pv == point_bytes(ps@),
            lv == scalar_values(ls@),
            forall|k: int| 0 <= k < ps@.len() ==> (#[trigger] ps@[k]).wf(),
            forall|k: int| 0 <= k < ls@.len() ==> (#[trigger] ls@[k]).wf(),
            acc.wf(),
            acc.bytes@ == combine(pv, lv, i as int),
            forall|es: Seq<int>| #[trigger] exponents_of(pv, es) ==> acc.bytes@ == gen_times(
                weighted_sum(es, lv, i as int),
            ),
        decreases ps@.len() - i,
    {
        let term = point_mul(&ps[i], &ls[i]);
        let next = point_add(&acc, &term);
        proof {
            assert forall|es: Seq<int>| #[trigger] exponents_of(pv, es) implies next.bytes@
                == gen_times(weighted_sum(es, lv, i + 1)) by {
                assert(0 <= es[i as int] < curve_order() && pv[i as int] == gen_times(es[i as int]));
                let w = weighted_sum(es, lv, i as int);
                assert(acc.bytes@ == gen_times(w));
                assert(term.bytes@ == gen_times((es[i as int] * lv[i as int]) % curve_order()));
            }
        }
        acc = next;
        i = i + 1;
    }
    acc
}

} // verus!

verus! {

/// The reduced products `a·k_i`.
pub open spec fn scaled(ks: Seq<int>, a: int) -> Seq<int> {
    ks.map_values(|k: int| (a * k) % curve_order())
}

/// The cfrags hold `E₁_i = (a·k_i)·G` and `V₁_i = (b·k_i)·G`: re-encryptions with keys `k_i`
/// of a capsule with `E = a·G` and `V = b·G`.
pub open spec fn cfrag_key_exponents(cfrags: Seq<CapsuleFrag>, a: int, b: int, ks: Seq<int>) -> bool {
    &&& ks.len() == cfrags.len()
    &&& forall|i: int|
        0 <= i < ks.len() ==> 0 <= #[trigger] ks[i] < curve_order() && cfrags[i].point_e1.bytes@
            == gen_times((a * ks[i]) % curve_order()) && cfrags[i].point_v1.bytes@ == gen_times(
            (b * ks[i]) % curve_order(),
        )
}

/// The exponent of the recombined key point: `d · (Σλ_i·a·k_i + Σλ_i·b·k_i)` modulo `n`.
pub open spec fn recombined_exponent(a: int, b: int, ks: Seq<int>, ls: Seq<int>, d: int) -> int {
    let m = ks.len() as int;
    (((weighted_sum(scaled(ks, a), ls, m) + weighted_sum(scaled(ks, b), ls, m)) % curve_order())
        * d) % curve_order()
}

/// The plaintext view of an optional result.
pub open spec fn opt_view(r: Option<Vec<u8>>) -> Option<Seq<u8>> {
    match r {
        Some(m) => Some(m@),
        None => None,
    }
}

/// What `decrypt_reencrypted` returns for Bob's secret scalar `sk`: a function of its inputs alone.
pub open spec fn decrypt_reencrypted_spec(sk: int, cfrags: Seq<CapsuleFrag>, ct: Seq<u8>) -> Option<Seq<u8>> {
    if cfrags.len() == 0 || !same_precursor(cfrags) {
        None
    } else {
        let precursor = cfrags[0].precursor.bytes@;
        let xs = cfrag_indices(cfrags, precursor, gen_times(sk), point_times(precursor, sk));
        if !denominators_nonzero(xs) {
            None
        } else {
            dem_open(dem_key_of(recombined_point(cfrags, sk, lagrange_seq(xs))), ct)
        }
    }
}

/// Decrypts with cfrags: recombines the key point `d·(Σλ_i·E₁_i + Σλ_i·V₁_i)` and opens the DEM
/// ciphertext. `None` when no cfrag is given, when the cfrags carry different precursors, when
/// two share indices coincide, or when the ciphertext does not authenticate (which is also what
/// too few cfrags lead to).
pub fn decrypt_reencrypted(
    receiving_sk: &SecretKey,
    delegating_pk: &PublicKey,
    capsule: &Capsule,
    cfrags: &[CapsuleFrag],
    ciphertext: &[u8],
) -> (r: Option<Vec<u8>>)
    requires
        receiving_sk.wf(),
        capsule.wf(),
        forall|i: int| 0 <= i < cfrags@.len() ==> (#[trigger] cfrags@[i]).wf(),
    ensures
        opt_view(r) == decrypt_reencrypted_spec(receiving_sk.scalar.val(), cfrags@, ciphertext@),
        r is Some ==> cfrags@.len() > 0 && same_precursor(cfrags@),
        cfrags@.len() > 0 && same_precursor(cfrags@) ==> {
            let precursor = cfrags@[0].precursor.bytes@;
            let sk = receiving_sk.scalar.val();
            let xs = cfrag_indices(
                cfrags@,
                precursor,
                gen_times(sk),
                point_times(precursor, sk),
            );
            &&& forall|x: int|
                0 <= x < curve_order() && precursor == #[trigger] gen_times(x) ==> point_times(
                    precursor,
                    sk,
                ) == gen_times((x * sk) % curve_order())
            &&& r is Some ==> denominators_nonzero(xs)
            &&& denominators_nonzero(xs) ==> {
                let ls = lagrange_seq(xs);
                lagrange_coeffs(xs, ls) && opt_view(r) == dem_open(
                    dem_key_of(recombined_point(cfrags@, sk, ls)),
                    ciphertext@,
                ) && forall|a: int, b: int, ks: Seq<int>|
                    0 <= a < curve_order() && 0 <= b < curve_order() && #[trigger] cfrag_key_exponents(
                        cfrags@,
                        a,
                        b,
                        ks,
                    ) ==> recombined_point(cfrags@, sk, ls) == gen_times(
                        recombined_exponent(
                            a,
                            b,
                            ks,
                            ls,
                            shared_secret_value(precursor, gen_times(sk), point_times(precursor, sk)),
                        ),
                    )
            }
        },
{
    let m = cfrags.len();
    if m == 0 {
        return None;
    }
    let mut i: usize = 1;
    while i < m
        invariant
            m == cfrags@.len(),
            1 <= i <= m,
            forall|k: int| 0 <= k < i ==> (#[trigger] cfrags@[k]).precursor.bytes@ == cfrags@[0].precursor.bytes@,
        decreases m - i,
    {
        if !bytes_equal(cfrags[i].precursor.bytes.as_slice(), cfrags[0].precursor.bytes.as_slice()) {
            return None;
        }
        i = i + 1;
    }
    let precursor = &cfrags[0].precursor;
    assert(cfrags@[0].wf());
    let dh_point = point_mul(precursor, &receiving_sk.scalar);
    let bob = PublicKey::from_secret_key(receiving_sk);
    let d = hash_to_shared_secret(precursor, &bob.point, &dh_point);
    let ghost xs_spec = cfrag_indices(cfrags@, precursor.bytes@, bob.point.bytes@, dh_point.bytes@);
    let mut xs: Vec<CurveScalar> = Vec::new();
    let mut e1s: Vec<CurvePoint> = Vec::new();
    let mut v1s: Vec<CurvePoint> = Vec::new();
    let mut i: usize = 0;
    while i < m
        invariant
            m == cfrags@.len(),
            i <= m,
            xs@.len() == i,
            e1s@.len() == i,
            v1s@.len() == i,
            forall|k: int| 0 <= k < cfrags@.len() ==> (#[trigger] cfrags@[k]).wf(),
            forall|k: int| 0 <= k < i ==> (#[trigger] xs@[k]).wf(),
            forall|k: int| 0 <= k < i ==> (#[trigger] xs@[k]).val() == xs_spec[k],
            forall|k: int| 0 <= k < i ==> (#[trigger] e1s@[k]).wf() && e1s@[k].bytes@ == cfrags@[k].point_e1.bytes@,
            forall|k: int| 0 <= k < i ==> (#[trigger] v1s@[k]).wf() && v1s@[k].bytes@ == cfrags@[k].point_v1.bytes@,
            xs_spec == cfrag_indices(cfrags@, precursor.bytes@, bob.point.bytes@, dh_point.bytes@),
        decreases m - i,
    {
        assert(cfrags@[i as int].wf());
        let x = hash_to_polynomial_arg(precursor, &bob.point, &dh_point, &cfrags[i].kfrag_id);
        xs.push(x);
        e1s.push(cfrags[i].point_e1.duplicate());
        v1s.push(cfrags[i].point_v1.duplicate());
        i = i + 1;
    }
    assert(scalar_values(xs@) =~= xs_spec);
    let ls = match lagrange_at_zero(&xs) {
        Some(ls) => ls,
        None => {
            return None;
        },
    };
    let e_prime = linear_combination(&e1s, &ls);
    let v_prime = linear_combination(&v1s, &ls);
    let sum = point_add(&e_prime, &v_prime);
    let key_point = point_mul(&sum, &d);
    let key = kdf(&key_point.bytes);
    let r = dem_decrypt(&key, ciphertext);
    proof {
        let lv = scalar_values(ls@);
        assert(point_bytes(e1s@) =~= e1_points(cfrags@));
        assert(point_bytes(v1s@) =~= v1_points(cfrags@));
        assert(key_point.bytes@ == recombined_point(cfrags@, receiving_sk.scalar.val(), lv));
        assert(lagrange_coeffs(xs_spec, lv));
        let n = curve_order();
        let m_int = cfrags@.len() as int;
        assert forall|a: int, b: int, ks: Seq<int>|
            0 <= a < curve_order() && 0 <= b < curve_order() && #[trigger] cfrag_key_exponents(
                cfrags@,
                a,
                b,
                ks,
            ) implies key_point.bytes@ == gen_times(
            recombined_exponent(a, b, ks, lv, d.val()),
        ) by {
            assert(exponents_of(point_bytes(e1s@), scaled(ks, a))) by {
                assert forall|i: int| 0 <= i < scaled(ks, a).len() implies 0 <= #[trigger] scaled(
                    ks,
                    a,
                )[i] < n && point_bytes(e1s@)[i] == gen_times(scaled(ks, a)[i]) by {
                    assert(0 <= ks[i] < n);
                }
            }
            assert(exponents_of(point_bytes(v1s@), scaled(ks, b))) by {
                assert forall|i: int| 0 <= i < scaled(ks, b).len() implies 0 <= #[trigger] scaled(
                    ks,
                    b,
                )[i] < n && point_bytes(v1s@)[i] == gen_times(scaled(ks, b)[i]) by {
                    assert(0 <= ks[i] < n);
                }
            }
            let we = weighted_sum(scaled(ks, a), lv, m_int);
            let wv = weighted_sum(scaled(ks, b), lv, m_int);
            assert(e_prime.bytes@ == gen_times(we));
            assert(v_prime.bytes@ == gen_times(wv));
            assert(sum.bytes@ == gen_times((we + wv) % n));
        }
    }
    r
}

} // verus!
