use umbral_pre::capsule_frag::CapsuleFrag;
use umbral_pre::curve::{bytes_to_point, bytes_to_scalar, CurveScalar};
use umbral_pre::dem::{dem_decrypt, dem_encrypt};
use umbral_pre::hashing::digest_tagged;
use umbral_pre::key_frag::poly_eval;
use umbral_pre::{
    decrypt_original, decrypt_reencrypted, encrypt, generate_kfrags, reencrypt, Capsule,
    DecryptionError, KeyFrag, Parameters, PublicKey, SecretKey,
};

fn scalar(v: u64) -> CurveScalar {
    let mut b = vec![0u8; 24];
    b.extend_from_slice(&v.to_be_bytes());
    bytes_to_scalar(&b).unwrap()
}

fn hex(s: &str) -> Vec<u8> {
    (0..s.len())
        .step_by(2)
        .map(|i| u8::from_str_radix(&s[i..i + 2], 16).unwrap())
        .collect()
}

struct Setup {
    params: Parameters,
    delegating_sk: SecretKey,
    delegating_pk: PublicKey,
    signing_pk: PublicKey,
    receiving_sk: SecretKey,
    receiving_pk: PublicKey,
    kfrags: Vec<KeyFrag>,
}

fn setup(threshold: usize, num: usize) -> Setup {
    let params = Parameters::new();
    let delegating_sk = SecretKey::random();
    let delegating_pk = PublicKey::from_secret_key(&delegating_sk);
    let signing_sk = SecretKey::random();
    let signing_pk = PublicKey::from_secret_key(&signing_sk);
    let receiving_sk = SecretKey::random();
    let receiving_pk = PublicKey::from_secret_key(&receiving_sk);
    let kfrags = generate_kfrags(
        &params,
        &delegating_sk,
        &receiving_pk,
        &signing_sk,
        threshold,
        num,
        true,
        true,
    )
    .unwrap();
    Setup { params, delegating_sk, delegating_pk, signing_pk, receiving_sk, receiving_pk, kfrags }
}

#[test]
fn decrypt_original_hello() {
    let sk = SecretKey::from_bytes(&[1u8; 32]).unwrap();
    let pk = PublicKey::from_secret_key(&sk);
    let params = Parameters::new();
    let (capsule, ct) = encrypt(&params, &pk, b"hello").unwrap();
    assert_eq!(ct.len(), 5 + 12 + 16);
    assert_eq!(capsule.to_bytes().len(), 98);
    assert_eq!(decrypt_original(&sk, &capsule, &ct), Ok(b"hello".to_vec()));
}

#[test]
fn decrypt_original_empty_plaintext() {
    let sk = SecretKey::random();
    let pk = PublicKey::from_secret_key(&sk);
    let (capsule, ct) = encrypt(&Parameters::new(), &pk, b"").unwrap();
    assert_eq!(decrypt_original(&sk, &capsule, &ct), Ok(Vec::new()));
}

#[test]
fn decrypt_original_wrong_key_fails() {
    let sk = SecretKey::random();
    let pk = PublicKey::from_secret_key(&sk);
    let other = SecretKey::random();
    let (capsule, ct) = encrypt(&Parameters::new(), &pk, b"secret").unwrap();
    assert_eq!(decrypt_original(&other, &capsule, &ct), Err(DecryptionError::DecryptionFailed));
}

#[test]
fn decrypt_original_invalid_capsule() {
    let sk = SecretKey::random();
    let pk = PublicKey::from_secret_key(&sk);
    let (capsule, ct) = encrypt(&Parameters::new(), &pk, b"secret").unwrap();
    let (other, _) = encrypt(&Parameters::new(), &pk, b"secret").unwrap();
    let forged = Capsule { e: capsule.e, v: capsule.v, s: other.s };
    assert_eq!(decrypt_original(&sk, &forged, &ct), Err(DecryptionError::InvalidCapsule));
}

#[test]
fn decrypt_original_tampered_ciphertext() {
    let sk = SecretKey::random();
    let pk = PublicKey::from_secret_key(&sk);
    let (capsule, mut ct) = encrypt(&Parameters::new(), &pk, b"secret").unwrap();
    ct[14] ^= 0x80;
    assert_eq!(decrypt_original(&sk, &capsule, &ct), Err(DecryptionError::DecryptionFailed));
}

#[test]
fn threshold_two_of_three() {
    let s = setup(2, 3);
    let (capsule, ct) = encrypt(&s.params, &s.delegating_pk, b"peace at dawn").unwrap();
    let cfrags: Vec<CapsuleFrag> =
        s.kfrags[..2].iter().map(|k| reencrypt(&capsule, k, None)).collect();
    for c in cfrags.iter() {
        assert!(c.verify(&capsule, &s.signing_pk, &s.delegating_pk, &s.receiving_pk));
    }
    let pt = decrypt_reencrypted(&s.receiving_sk, &s.delegating_pk, &capsule, &cfrags, &ct);
    assert_eq!(pt, Some(b"peace at dawn".to_vec()));
}

#[test]
fn threshold_all_subsets_decrypt() {
    let s = setup(3, 4);
    let (capsule, ct) = encrypt(&s.params, &s.delegating_pk, b"subset").unwrap();
    let all: Vec<CapsuleFrag> = s.kfrags.iter().map(|k| reencrypt(&capsule, k, Some(b"m"))).collect();
    let three = vec![all[3].clone(), all[0].clone(), all[2].clone()];
    assert_eq!(
        decrypt_reencrypted(&s.receiving_sk, &s.delegating_pk, &capsule, &three, &ct),
        Some(b"subset".to_vec())
    );
    assert_eq!(
        decrypt_reencrypted(&s.receiving_sk, &s.delegating_pk, &capsule, &all, &ct),
        Some(b"subset".to_vec())
    );
}

#[test]
fn single_cfrag_is_not_enough() {
    let s = setup(2, 3);
    let (capsule, ct) = encrypt(&s.params, &s.delegating_pk, b"hello").unwrap();
    let cfrags = vec![reencrypt(&capsule, &s.kfrags[0], None)];
    assert_eq!(decrypt_reencrypted(&s.receiving_sk, &s.delegating_pk, &capsule, &cfrags, &ct), None);
}

#[test]
fn no_cfrags_gives_none() {
    let s = setup(1, 1);
    let (capsule, ct) = encrypt(&s.params, &s.delegating_pk, b"hello").unwrap();
    assert_eq!(decrypt_reencrypted(&s.receiving_sk, &s.delegating_pk, &capsule, &[], &ct), None);
}

#[test]
fn duplicate_cfrag_gives_none() {
    let s = setup(2, 3);
    let (capsule, ct) = encrypt(&s.params, &s.delegating_pk, b"hello").unwrap();
    let c = reencrypt(&capsule, &s.kfrags[0], None);
    let cfrags = vec![c.clone(), c];
    assert_eq!(decrypt_reencrypted(&s.receiving_sk, &s.delegating_pk, &capsule, &cfrags, &ct), None);
}

#[test]
fn mixed_batches_give_none() {
    let s = setup(2, 3);
    let signing_sk = SecretKey::random();
    let other = generate_kfrags(
        &s.params, &s.delegating_sk, &s.receiving_pk, &signing_sk, 2, 3, true, true,
    )
    .unwrap();
    assert_ne!(s.kfrags[0].precursor, other[0].precursor);
    let (capsule, ct) = encrypt(&s.params, &s.delegating_pk, b"hello").unwrap();
    let cfrags = vec![reencrypt(&capsule, &s.kfrags[0], None), reencrypt(&capsule, &other[1], None)];
    assert_eq!(decrypt_reencrypted(&s.receiving_sk, &s.delegating_pk, &capsule, &cfrags, &ct), None);
}

#[test]
fn cfrag_verify_rejects_wrong_keys_and_capsule() {
    let s = setup(2, 3);
    let (capsule, _) = encrypt(&s.params, &s.delegating_pk, b"x").unwrap();
    let (other_capsule, _) = encrypt(&s.params, &s.delegating_pk, b"x").unwrap();
    let c = reencrypt(&capsule, &s.kfrags[1], None);
    assert!(c.verify(&capsule, &s.signing_pk, &s.delegating_pk, &s.receiving_pk));
    assert!(!c.verify(&other_capsule, &s.signing_pk, &s.delegating_pk, &s.receiving_pk));
    assert!(!c.verify(&capsule, &s.delegating_pk, &s.delegating_pk, &s.receiving_pk));
    assert!(!c.verify(&capsule, &s.signing_pk, &s.receiving_pk, &s.receiving_pk));
}

#[test]
fn cfrag_round_trip_and_size() {
    let s = setup(2, 3);
    let (capsule, _) = encrypt(&s.params, &s.delegating_pk, b"x").unwrap();
    let c = reencrypt(&capsule, &s.kfrags[2], None);
    let bytes = c.to_bytes();
    assert_eq!(bytes.len(), 359);
    let back = CapsuleFrag::from_bytes(&bytes).unwrap();
    assert_eq!(back, c);
    assert!(back.verify(&capsule, &s.signing_pk, &s.delegating_pk, &s.receiving_pk));
    assert!(CapsuleFrag::from_bytes(&bytes[..358]).is_none());
    let mut longer = bytes.clone();
    longer.push(7);
    assert!(CapsuleFrag::from_bytes(&longer).is_none());
}

#[test]
fn cfrag_bit_flip_fails_verification() {
    let s = setup(2, 3);
    let (capsule, _) = encrypt(&s.params, &s.delegating_pk, b"x").unwrap();
    let bytes = reencrypt(&capsule, &s.kfrags[0], None).to_bytes();
    for idx in [0usize, 40, 70, 100, 140, 200, 240, 270, 300, 358] {
        let mut b = bytes.clone();
        b[idx] ^= 0x04;
        if let Some(c) = CapsuleFrag::from_bytes(&b) {
            assert!(!c.verify(&capsule, &s.signing_pk, &s.delegating_pk, &s.receiving_pk));
        }
    }
}

#[test]
fn capsule_round_trip_and_size() {
    let sk = SecretKey::random();
    let pk = PublicKey::from_secret_key(&sk);
    let (capsule, ct) = encrypt(&Parameters::new(), &pk, b"abc").unwrap();
    let bytes = capsule.to_bytes();
    assert_eq!(bytes.len(), 98);
    let back = Capsule::from_bytes(&bytes).unwrap();
    assert_eq!(back, capsule);
    assert_eq!(decrypt_original(&sk, &back, &ct), Ok(b"abc".to_vec()));
    assert!(Capsule::from_bytes(&bytes[..97]).is_none());
    let mut longer = bytes.clone();
    longer.push(0);
    assert!(Capsule::from_bytes(&longer).is_none());
}

#[test]
fn capsule_bit_flip_fails() {
    let sk = SecretKey::random();
    let pk = PublicKey::from_secret_key(&sk);
    let (capsule, ct) = encrypt(&Parameters::new(), &pk, b"abc").unwrap();
    let bytes = capsule.to_bytes();
    for idx in [1usize, 20, 34, 50, 70, 97] {
        let mut b = bytes.clone();
        b[idx] ^= 0x01;
        if let Some(c) = Capsule::from_bytes(&b) {
            assert!(decrypt_original(&sk, &c, &ct).is_err());
        }
    }
}

#[test]
fn parameters_are_deterministic_and_round_trip() {
    let a = Parameters::new();
    let b = Parameters::new();
    assert!(a.equals(&b));
    let bytes = a.to_bytes();
    assert_eq!(bytes.len(), 33);
    assert!(Parameters::from_bytes(&bytes).unwrap().equals(&a));
    assert!(Parameters::from_bytes(&bytes[..32]).is_none());
    assert!(Parameters::from_bytes(&[0u8; 33]).is_none());
}

#[test]
fn public_key_of_small_scalars() {
    let one = SecretKey::from_bytes(&scalar(1).bytes).unwrap();
    let two = SecretKey::from_bytes(&scalar(2).bytes).unwrap();
    assert_eq!(
        PublicKey::from_secret_key(&one).point.bytes,
        hex("0279BE667EF9DCBBAC55A06295CE870B07029BFCDB2DCE28D959F2815B16F81798")
    );
    assert_eq!(
        PublicKey::from_secret_key(&two).point.bytes,
        hex("02C6047F9441ED7D6D3045406E95C07CD85C778E4B8CEF3CA7ABAC09B95C709EE5")
    );
}

#[test]
fn secret_key_range() {
    assert!(SecretKey::from_bytes(&[0u8; 32]).is_none());
    assert!(SecretKey::from_bytes(&[0xFFu8; 32]).is_none());
    assert!(SecretKey::from_bytes(&[1u8; 31]).is_none());
    let n = hex("FFFFFFFFFFFFFFFFFFFFFFFFFFFFFFFEBAAEDCE6AF48A03BBFD25E8CD0364141");
    assert!(bytes_to_scalar(&n).is_none());
    let n_minus_one = hex("FFFFFFFFFFFFFFFFFFFFFFFFFFFFFFFEBAAEDCE6AF48A03BBFD25E8CD0364140");
    assert!(bytes_to_scalar(&n_minus_one).is_some());
}

#[test]
fn point_decoding() {
    let g = hex("0279BE667EF9DCBBAC55A06295CE870B07029BFCDB2DCE28D959F2815B16F81798");
    assert!(bytes_to_point(&g).is_some());
    let mut bad = g.clone();
    bad[0] = 0x05;
    assert!(bytes_to_point(&bad).is_none());
    assert!(bytes_to_point(&g[..32]).is_none());
}

#[test]
fn poly_eval_horner() {
    let coeffs = vec![scalar(1), scalar(2), scalar(3)];
    assert_eq!(poly_eval(&coeffs, &scalar(2)), scalar(17));
    assert_eq!(poly_eval(&coeffs[..1], &scalar(9)), scalar(1));
    let n_minus_one = bytes_to_scalar(&hex(
        "FFFFFFFFFFFFFFFFFFFFFFFFFFFFFFFEBAAEDCE6AF48A03BBFD25E8CD0364140",
    ))
    .unwrap();
    // (n-1) + 2·x at x = 1 wraps around to 1.
    assert_eq!(poly_eval(&[n_minus_one, scalar(2)], &scalar(1)), scalar(1));
}

#[test]
fn tagged_digest_is_sha256() {
    assert_eq!(
        digest_tagged(5, &b"abc".to_vec()),
        hex("b9966140c282469349e03c4921ff6be362b53b942410fbbfbb6cf488cc0171cb")
    );
}

#[test]
fn dem_round_trip() {
    let key = vec![7u8; 32];
    let ct = dem_encrypt(&key, b"message");
    assert_eq!(ct.len(), 7 + 28);
    assert_ne!(&ct[12..19], b"message");
    assert_eq!(dem_decrypt(&key, &ct), Some(b"message".to_vec()));
    assert_eq!(dem_decrypt(&vec![8u8; 32], &ct), None);
    assert_eq!(dem_decrypt(&key, &ct[..27]), None);
}

#[test]
fn factory_from_fixed_precursor() {
    let params = Parameters::new();
    let sk_a = SecretKey::random();
    let sk_b = SecretKey::from_bytes(&scalar(3).bytes).unwrap();
    let pk_b = PublicKey::from_secret_key(&sk_b);
    let signing = SecretKey::random();
    let f = umbral_pre::KeyFragFactory::from_precursor(&params, &sk_a, &pk_b, &signing, &scalar(1), 3)
        .unwrap();
    assert_eq!(
        f.precursor.bytes,
        hex("0279BE667EF9DCBBAC55A06295CE870B07029BFCDB2DCE28D959F2815B16F81798")
    );
    assert_eq!(f.dh_point.bytes, pk_b.point.bytes);
    assert_eq!(f.coefficients.len(), 3);
    let f2 = umbral_pre::KeyFragFactory::from_precursor(&params, &sk_a, &pk_b, &signing, &scalar(1), 3)
        .unwrap();
    assert_eq!(f.coefficients[0], f2.coefficients[0]);
    assert_ne!(f.coefficients[1], f2.coefficients[1]);
}

#[test]
fn decrypt_reencrypted_is_repeatable() {
    let s = setup(2, 3);
    let (capsule, ct) = encrypt(&s.params, &s.delegating_pk, b"again").unwrap();
    let cfrags: Vec<CapsuleFrag> =
        s.kfrags[1..].iter().map(|k| reencrypt(&capsule, k, Some(b""))).collect();
    let first = decrypt_reencrypted(&s.receiving_sk, &s.delegating_pk, &capsule, &cfrags, &ct);
    let second = decrypt_reencrypted(&s.receiving_sk, &s.delegating_pk, &capsule, &cfrags, &ct);
    assert_eq!(first, second);
    assert_eq!(first, Some(b"again".to_vec()));
}

#[test]
fn kdf_uses_fixed_info() {
    let a = umbral_pre::dem::kdf(&vec![1u8, 2, 3]);
    let b = umbral_pre::dem::kdf(&vec![1u8, 2, 3]);
    let c = umbral_pre::dem::kdf(&vec![1u8, 2, 4]);
    assert_eq!(a.len(), 32);
    assert_eq!(a, b);
    assert_ne!(a, c);
    assert_ne!(a, vec![1u8, 2, 3]);
    assert_eq!(a, hex("eb414ddab7e36401091081ad2db450d041475655f09def110cb0b95742396bf7"));
}

#[test]
fn cfrag_with_metadata_after_transport() {
    let s = setup(2, 3);
    let (capsule, _) = encrypt(&s.params, &s.delegating_pk, b"x").unwrap();
    let c = reencrypt(&capsule, &s.kfrags[0], Some(b"context"));
    assert!(c.verify(&capsule, &s.signing_pk, &s.delegating_pk, &s.receiving_pk));
    let mut back = CapsuleFrag::from_bytes(&c.to_bytes()).unwrap();
    assert!(back.proof.metadata.is_none());
    assert!(!back.verify(&capsule, &s.signing_pk, &s.delegating_pk, &s.receiving_pk));
    back.proof.metadata = Some(b"context".to_vec());
    assert_eq!(back, c);
    assert!(back.verify(&capsule, &s.signing_pk, &s.delegating_pk, &s.receiving_pk));
}
