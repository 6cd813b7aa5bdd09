use umbral_pre::key_frag::none_unless;
use umbral_pre::{generate_kfrags, KeyFrag, KeyFragProof, Parameters, PublicKey, SecretKey};

fn prepare_kfrags(
    sign_delegating_key: bool,
    sign_receiving_key: bool,
) -> (PublicKey, PublicKey, PublicKey, Vec<KeyFrag>) {
    let params = Parameters::new();

    let delegating_sk = SecretKey::random();
    let delegating_pk = PublicKey::from_secret_key(&delegating_sk);

    let signing_sk = SecretKey::random();
    let signing_pk = PublicKey::from_secret_key(&signing_sk);

    let receiving_sk = SecretKey::random();
    let receiving_pk = PublicKey::from_secret_key(&receiving_sk);

    let kfrags = generate_kfrags(
        &params,
        &delegating_sk,
        &receiving_pk,
        &signing_sk,
        2,
        3,
        sign_delegating_key,
        sign_receiving_key,
    )
    .unwrap();

    (delegating_pk, receiving_pk, signing_pk, kfrags)
}

#[test]
fn test_serialize() {
    let (_, _, _, kfrags) = prepare_kfrags(true, true);
    let kfrag_arr = kfrags[0].to_array();
    let kfrag_back = KeyFrag::from_array(&kfrag_arr).unwrap();
    assert_eq!(kfrags[0], kfrag_back);
}

#[test]
fn test_verify() {
    let (delegating_pk, receiving_pk, signing_pk, kfrags) = prepare_kfrags(true, true);
    assert!(kfrags[0].verify(&signing_pk, Some(&delegating_pk), Some(&receiving_pk)));
    assert!(!kfrags[0].verify(&signing_pk, None, Some(&receiving_pk)));

    let (delegating_pk, receiving_pk, signing_pk, kfrags) = prepare_kfrags(false, true);
    assert!(kfrags[0].verify(&signing_pk, Some(&delegating_pk), Some(&receiving_pk)));
    assert!(kfrags[0].verify(&signing_pk, None, Some(&receiving_pk)));
    assert!(!kfrags[0].verify(&signing_pk, Some(&delegating_pk), None));

    let (delegating_pk, receiving_pk, signing_pk, kfrags) = prepare_kfrags(true, false);
    assert!(kfrags[0].verify(&signing_pk, Some(&delegating_pk), Some(&receiving_pk)));
    assert!(!kfrags[0].verify(&signing_pk, None, Some(&receiving_pk)));
    assert!(kfrags[0].verify(&signing_pk, Some(&delegating_pk), None));

    let (delegating_pk, receiving_pk, signing_pk, kfrags) = prepare_kfrags(false, false);
    assert!(kfrags[0].verify(&signing_pk, Some(&delegating_pk), Some(&receiving_pk)));
    assert!(kfrags[0].verify(&signing_pk, None, None));
    assert!(!kfrags[0].verify(&delegating_pk, None, None));
}

#[test]
fn kfrag_has_fixed_size() {
    let (_, _, _, kfrags) = prepare_kfrags(true, false);
    for k in kfrags.iter() {
        assert_eq!(k.to_array().len(), 293);
    }
}

#[test]
fn kfrag_off_by_one_lengths_are_refused() {
    let (_, _, _, kfrags) = prepare_kfrags(true, true);
    let bytes = kfrags[0].to_array();
    assert!(KeyFrag::from_array(&bytes[..292]).is_none());
    let mut longer = bytes.clone();
    longer.push(0);
    assert!(KeyFrag::from_array(&longer).is_none());
}

#[test]
fn kfrag_bad_flag_byte_is_refused() {
    let (_, _, _, kfrags) = prepare_kfrags(true, true);
    let mut bytes = kfrags[0].to_array();
    bytes[291] = 2;
    assert!(KeyFrag::from_array(&bytes).is_none());
}

#[test]
fn kfrag_flip_byte_100_fails() {
    let (delegating_pk, receiving_pk, signing_pk, kfrags) = prepare_kfrags(true, true);
    let mut bytes = kfrags[0].to_array();
    assert_eq!(bytes.len(), 293);
    bytes[100] ^= 0x01;
    match KeyFrag::from_array(&bytes) {
        Some(k) => assert!(!k.verify(&signing_pk, Some(&delegating_pk), Some(&receiving_pk))),
        None => {}
    }
}

#[test]
fn kfrag_delegating_signed_only() {
    let (delegating_pk, _, signing_pk, kfrags) = prepare_kfrags(true, false);
    assert!(kfrags[0].verify(&signing_pk, Some(&delegating_pk), None));
    assert!(!kfrags[0].verify(&signing_pk, None, None));
}

#[test]
fn kfrags_share_precursor_and_params() {
    let (_, _, _, kfrags) = prepare_kfrags(false, false);
    assert_eq!(kfrags.len(), 3);
    assert_eq!(kfrags[0].precursor, kfrags[1].precursor);
    assert_eq!(kfrags[1].precursor, kfrags[2].precursor);
    assert_ne!(kfrags[0].id, kfrags[1].id);
    assert_ne!(kfrags[0].key, kfrags[1].key);
    assert!(kfrags[0].params.equals(&Parameters::new()));
}

#[test]
fn proof_round_trip_and_bob_signature() {
    let (_, _, _, kfrags) = prepare_kfrags(false, true);
    let proof = &kfrags[1].proof;
    let bytes = proof.to_array();
    assert_eq!(bytes.len(), 163);
    assert_eq!(bytes[161], 0);
    assert_eq!(bytes[162], 1);
    assert_eq!(&KeyFragProof::from_array(&bytes).unwrap(), proof);
    assert_eq!(proof.signature_for_bob().bytes, proof.signature_for_bob.bytes);
    assert_ne!(proof.signature_for_bob.bytes, proof.signature_for_proxy.bytes);
}

#[test]
fn proxy_signature_matches_bob_when_both_keys_signed() {
    let (_, _, _, kfrags) = prepare_kfrags(true, true);
    let proof = &kfrags[0].proof;
    assert_eq!(proof.signature_for_bob.bytes, proof.signature_for_proxy.bytes);
}

#[test]
fn none_unless_cases() {
    assert_eq!(none_unless(Some(3u8), true), Some(3u8));
    assert_eq!(none_unless(Some(3u8), false), None);
    assert_eq!(none_unless::<u8>(None, true), None);
}

#[test]
fn default_parameters_are_standard() {
    assert!(Parameters::default().equals(&Parameters::new()));
}

#[test]
fn public_key_and_signature_round_trip() {
    let (delegating_pk, _, _, kfrags) = prepare_kfrags(true, true);
    let bytes = delegating_pk.to_bytes();
    assert_eq!(bytes.len(), 33);
    assert_eq!(PublicKey::from_bytes(&bytes).unwrap(), delegating_pk);
    assert!(PublicKey::from_bytes(&bytes[..32]).is_none());
    let sig = &kfrags[0].proof.signature_for_bob;
    let sig_bytes = sig.to_bytes();
    assert_eq!(sig_bytes.len(), 64);
    assert_eq!(&umbral_pre::Signature::from_bytes(&sig_bytes).unwrap(), sig);
    assert!(umbral_pre::Signature::from_bytes(&[0u8; 64]).is_none());
    assert!(umbral_pre::Signature::from_bytes(&sig_bytes[..63]).is_none());
}
