//! Hashing and secp256k1 key operations, delegated to outside crates.

use k256::elliptic_curve::sec1::ToEncodedPoint;
use tiny_keccak::Hasher;
use vstd::prelude::*;

verus! {

/// The Keccak-256 digest of `data`.
pub uninterp spec fn keccak256_of(data: Seq<u8>) -> Seq<u8>;

/// The SEC1 uncompressed encoding of the public key of the secp256k1 secret
/// scalar whose big-endian bytes are `secret`, or `None` when those bytes are
/// not a valid secret scalar (zero, or not below the group order).
pub uninterp spec fn secp256k1_public_of(secret: Seq<u8>) -> Option<Seq<u8>>;

/// Whether `encoded` is the SEC1 encoding of a point on secp256k1.
pub uninterp spec fn is_secp256k1_point(encoded: Seq<u8>) -> bool;

/// Relies on tiny_keccak's `Keccak::v256`: a 32-byte digest that depends on
/// the input bytes alone.
#[verifier::external_body]
pub(crate) fn keccak256(data: &[u8]) -> (r: Vec<u8>)
    ensures
        r@ == keccak256_of(data@),
        r@.len() == 32,
{
    let mut out = [0u8; 32];
    let mut hasher = tiny_keccak::Keccak::v256();
    hasher.update(data);
    hasher.finalize(&mut out);
    out.to_vec()
}

/// Relies on k256's `SecretKey::from_slice`, `SecretKey::public_key` and
/// `to_encoded_point(false)`: a 32-byte big-endian scalar is accepted when it is
/// a valid secret key, and its public key is then encoded uncompressed, as 65
/// bytes that start with the tag 4.
#[verifier::external_body]
pub(crate) fn public_key_of_secret(secret: &[u8]) -> (r: Option<Vec<u8>>)
    requires
        secret@.len() == 32,
    ensures
        match r {
            Some(p) => secp256k1_public_of(secret@) == Some(p@),
            None => secp256k1_public_of(secret@) is None,
        },
        r is Some ==> r->0@.len() == 65 && r->0@[0] == 4,
{
    match k256::SecretKey::from_slice(secret) {
        Ok(sk) => Some(sk.public_key().to_encoded_point(false).as_bytes().to_vec()),
        Err(_) => None,
    }
}

/// Relies on k256's `PublicKey::from_sec1_bytes`: it accepts exactly the SEC1
/// encodings of points of the curve.
#[verifier::external_body]
pub(crate) fn is_valid_public_key(encoded: &[u8]) -> (r: bool)
    ensures
        r == is_secp256k1_point(encoded@),
{
    k256::PublicKey::from_sec1_bytes(encoded).is_ok()
}

} // verus!
