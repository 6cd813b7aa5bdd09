use vstd::prelude::*;

use crate::curve::random_bytes;
use crate::hashing::append_bytes;
use chacha20poly1305::aead::{Aead, KeyInit};

verus! {

/// The 32-byte key that HKDF-SHA256 with an empty salt derives from `ikm` and `info`.
pub uninterp spec fn hkdf_key_of(ikm: Seq<u8>, info: Seq<u8>) -> Seq<u8>;

/// The ChaCha20-Poly1305 sealing of `m` under key `k` and nonce `n` (tag appended).
pub uninterp spec fn chacha_seal_of(k: Seq<u8>, n: Seq<u8>, m: Seq<u8>) -> Seq<u8>;

/// The ChaCha20-Poly1305 opening of `c` under key `k` and nonce `n`, `None` if it fails.
pub uninterp spec fn chacha_open_of(k: Seq<u8>, n: Seq<u8>, c: Seq<u8>) -> Option<Seq<u8>>;

/// Length of the nonce that leads every DEM ciphertext.
pub const NONCE_SIZE: usize = 12;

/// Length of the authentication tag that ends every DEM ciphertext.
pub const TAG_SIZE: usize = 16;

/// Upper bound on plaintext length: ChaCha20 runs out of block counter beyond it.
pub const MAX_PLAINTEXT: u64 = 274_877_906_879;

/// The info string of the DEM key derivation, `"NuCypher/Umbral/DEM"`.
pub open spec fn dem_info() -> Seq<u8> {
    seq![
        0x4Eu8, 0x75, 0x43, 0x79, 0x70, 0x68, 0x65, 0x72, 0x2F, 0x55, 0x6D, 0x62, 0x72, 0x61, 0x6C,
        0x2F, 0x44, 0x45, 0x4D,
    ]
}

/// The DEM key derived from the shared point encoding `ikm`.
pub open spec fn dem_key_of(ikm: Seq<u8>) -> Seq<u8> {
    hkdf_key_of(ikm, dem_info())
}

/// Relies on `hkdf::Hkdf::<Sha256>::expand` with an empty salt: 32 bytes of output key material.
#[verifier::external_body]
fn hkdf_sha256(ikm: &Vec<u8>, info: &Vec<u8>) -> (r: Vec<u8>)
    ensures
        r@ == hkdf_key_of(ikm@, info@),
        r@.len() == 32,
{
    let mut okm = vec![0u8; 32];
    hkdf::Hkdf::<sha2::Sha256>::new(None, ikm).expand(info, &mut okm).unwrap();
    okm
}

/// Derives the 32-byte DEM key from the encoding of a shared point.
pub fn kdf(ikm: &Vec<u8>) -> (r: Vec<u8>)
    ensures
        r@ == dem_key_of(ikm@),
        r@.len() == 32,
{
    let info: Vec<u8> = vec![
        0x4Eu8, 0x75, 0x43, 0x79, 0x70, 0x68, 0x65, 0x72, 0x2F, 0x55, 0x6D, 0x62, 0x72, 0x61, 0x6C,
        0x2F, 0x44, 0x45, 0x4D,
    ];
    assert(info@ == dem_info());
    hkdf_sha256(ikm, &info)
}

/// Relies on `ChaCha20Poly1305::encrypt`: the ciphertext with a 16-byte tag, which the same
/// key and nonce open to the plaintext.
#[verifier::external_body]
fn chacha_seal(k: &Vec<u8>, n: &Vec<u8>, m: &[u8]) -> (r: Vec<u8>)
    requires
        k@.len() == 32,
        n@.len() == 12,
        m@.len() <= MAX_PLAINTEXT as int,
    ensures
        r@ == chacha_seal_of(k@, n@, m@),
        r@.len() == m@.len() + 16,
        chacha_open_of(k@, n@, r@) == Some(m@),
{
    let cipher = chacha20poly1305::ChaCha20Poly1305::new(chacha20poly1305::Key::from_slice(k));
    cipher.encrypt(chacha20poly1305::Nonce::from_slice(n), m).unwrap()
}

/// Relies on `ChaCha20Poly1305::decrypt`: the plaintext, or an error when authentication fails.
#[verifier::external_body]
fn chacha_open(k: &Vec<u8>, n: &Vec<u8>, c: &[u8]) -> (r: Option<Vec<u8>>)
    requires
        k@.len() == 32,
        n@.len() == 12,
    ensures
        r matches Some(m) ==> chacha_open_of(k@, n@, c@) == Some(m@),
        r is None ==> chacha_open_of(k@, n@, c@) is None,
{
    let cipher = chacha20poly1305::ChaCha20Poly1305::new(chacha20poly1305::Key::from_slice(k));
    cipher.decrypt(chacha20poly1305::Nonce::from_slice(n), c).ok()
}

/// What the DEM decrypts `ct` to under `key`: the first 12 bytes are the nonce.
pub open spec fn dem_open(key: Seq<u8>, ct: Seq<u8>) -> Option<Seq<u8>> {
    if ct.len() < NONCE_SIZE + TAG_SIZE {
        None
    } else {
        chacha_open_of(key, ct.subrange(0, NONCE_SIZE as int), ct.subrange(NONCE_SIZE as int, ct.len() as int))
    }
}

/// Authenticated encryption under a 32-byte key, with a fresh random nonce prepended.
pub fn dem_encrypt(key: &Vec<u8>, plaintext: &[u8]) -> (r: Vec<u8>)
    requires
        key@.len() == 32,
        plaintext@.len() <= MAX_PLAINTEXT as int,
    ensures
        r@.len() == plaintext@.len() + NONCE_SIZE + TAG_SIZE,
        dem_open(key@, r@) == Some(plaintext@),
{
    let nonce = random_bytes(NONCE_SIZE);
    let body = chacha_seal(key, &nonce, plaintext);
    let mut out: Vec<u8> = Vec::new();
    append_bytes(&mut out, nonce.as_slice());
    append_bytes(&mut out, body.as_slice());
    assert(out@.subrange(0, NONCE_SIZE as int) == nonce@);
    assert(out@.subrange(NONCE_SIZE as int, out@.len() as int) == body@);
    out
}

/// Decrypts what `dem_encrypt` produced; `None` if authentication fails.
pub fn dem_decrypt(key: &Vec<u8>, ciphertext: &[u8]) -> (r: Option<Vec<u8>>)
    requires
        key@.len() == 32,
    ensures
        r matches Some(m) ==> dem_open(key@, ciphertext@) == Some(m@),
        r is None ==> dem_open(key@, ciphertext@) is None,
{
    if ciphertext.len() < NONCE_SIZE + TAG_SIZE {
        return None;
    }
    let nonce = copy_range(ciphertext, 0, NONCE_SIZE);
    let body = copy_range(ciphertext, NONCE_SIZE, ciphertext.len());
    chacha_open(key, &nonce, body.as_slice())
}

/// A fresh vector holding `v[start..end]`.
pub fn copy_range(v: &[u8], start: usize, end: usize) -> (r: Vec<u8>)
    requires
        start <= end <= v@.len(),
    ensures
        r@ == v@.subrange(start as int, end as int),
{
    let mut r: Vec<u8> = Vec::with_capacity(end - start);
    let mut i: usize = start;
    while i < end
        invariant
            start <= i <= end,
            end <= v@.len(),
            r@ == v@.subrange(start as int, i as int),
        decreases end - i,
    {
        r.push(v[i]);
        i = i + 1;
        assert(r@ == v@.subrange(start as int, i as int));
    }
    r
}

} // verus!
