//! Umbral proxy re-encryption over secp256k1: KEM capsules, threshold key fragments,
//! verifiable re-encryption and decryption by the delegatee.
use vstd::prelude::*;

pub mod capsule;
pub mod capsule_frag;
pub mod curve;
pub mod decrypt;
pub mod dem;
pub mod hashing;
pub mod key_frag;
pub mod keys;
pub mod params;
pub mod pre;

pub use capsule::Capsule;
pub use capsule_frag::{reencrypt, CapsuleFrag, CapsuleFragProof};
pub use decrypt::decrypt_reencrypted;
pub use key_frag::{generate_kfrags, KeyFrag, KeyFragFactory, KeyFragID, KeyFragProof};
pub use keys::{PublicKey, SecretKey, Signature};
pub use params::Parameters;
pub use pre::{decrypt_original, encrypt, DecryptionError};

verus! {

} // verus!
