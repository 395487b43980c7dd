//! The audited secp256k1 backend, exposed through trusted wrappers.
//!
//! The `k256` crate supplies validated scalar multiplication, point
//! validation, SEC1 encoding and ECDSA for this curve. Each result that
//! is a pure function of the inputs gets a name; the protocol layers
//! above are verified against these names.

use vstd::prelude::*;

use k256::ecdsa::signature::{Signer, Verifier};
use k256::elliptic_curve::group::Curve;
use k256::elliptic_curve::sec1::ToEncodedPoint;

use crate::bytes::be_nat;
use crate::engine::{fadd, fmul};
use crate::params::{k256_n, k256_p};

verus! {

/// The 65-byte uncompressed SEC1 encoding of sk * G on secp256k1, for
/// a canonical non-zero scalar sk: a function of sk alone.
pub uninterp spec fn k256_pub_of(sk: Seq<u8>) -> Seq<u8>;

/// Whether a byte string is a valid SEC1 public-key encoding in the
/// sense of `k256::PublicKey::from_sec1_bytes`: a point on the curve
/// and not the identity.
pub uninterp spec fn k256_valid_pk(b: Seq<u8>) -> bool;

/// The 32-byte x-coordinate of sk * P, for a canonical non-zero scalar
/// sk and a valid public key P: a function of the two inputs alone.
pub uninterp spec fn k256_shared_of(sk: Seq<u8>, pk: Seq<u8>) -> Seq<u8>;

/// The 64-byte untagged encoding of the ECDSA verifying key derived
/// from a canonical non-zero signing key: a function of the key alone.
pub uninterp spec fn k256_vk_of(sk: Seq<u8>) -> Seq<u8>;

/// The 64-byte r || s encoding of the deterministic (RFC 6979)
/// ECDSA/SHA-256 signature of a message under a canonical non-zero
/// signing key: a function of key and message alone.
pub uninterp spec fn k256_sign_of(sk: Seq<u8>, m: Seq<u8>) -> Seq<u8>;

/// Whether a byte string parses as a 64-byte r || s signature with
/// both components in [1, n-1], in the sense of
/// `k256::ecdsa::Signature::from_slice`.
pub uninterp spec fn k256_valid_sig(sig: Seq<u8>) -> bool;

/// The ECDSA/SHA-256 verification verdict for a valid SEC1 key, a
/// message and a valid signature: a function of the three inputs alone.
pub uninterp spec fn k256_verify_of(pk: Seq<u8>, m: Seq<u8>, sig: Seq<u8>) -> bool;

/// The secp256k1 curve equation y^2 = x^3 + 7 over its field, for
/// canonical coordinates.
pub open spec fn k256_on_curve(x: nat, y: nat) -> bool {
    let p = k256_p();
    &&& x < p
    &&& y < p
    &&& fmul(y, y, p) == fadd(fmul(fmul(x, x, p), x, p), 7, p)
}

/// Relies on `k256::NonZeroScalar::from_repr`, which accepts exactly
/// the canonical non-zero scalars, on
/// `k256::PublicKey::from_secret_scalar`, and on the uncompressed SEC1
/// encoding of `to_encoded_point` (65 bytes, tag 4), which
/// `PublicKey::from_sec1_bytes` parses back; the emitted coordinates
/// are the canonical ones of a point on the curve.
#[verifier::external_body]
pub(crate) fn k256_derive_pub(sk: &Vec<u8>) -> (r: Vec<u8>)
    requires
        sk@.len() == 32,
        1 <= be_nat(sk@) < k256_n(),
    ensures
        r@ == k256_pub_of(sk@),
        r@.len() == 65,
        r@[0] == 4,
        k256_valid_pk(r@),
        k256_on_curve(be_nat(r@.subrange(1, 33)), be_nat(r@.subrange(33, 65))),
{
    let arr = *k256::FieldBytes::from_slice(sk.as_slice());
    let scalar: k256::NonZeroScalar = Option::from(k256::NonZeroScalar::from_repr(arr)).unwrap();
    let pk = k256::PublicKey::from_secret_scalar(&scalar);
    pk.to_encoded_point(false).as_bytes().to_vec()
}

/// Relies on `k256::PublicKey::from_sec1_bytes`, which succeeds exactly
/// on SEC1 encodings of curve points that are not the identity: for a
/// 65-byte input the tag must be 4 and the coordinates must be
/// canonical field elements satisfying y^2 = x^3 + 7.
#[verifier::external_body]
pub(crate) fn k256_check_pk(b: &[u8]) -> (r: bool)
    ensures
        r == k256_valid_pk(b@),
        r && b@.len() == 65 ==> b@[0] == 4 && k256_on_curve(
            be_nat(b@.subrange(1, 33)),
            be_nat(b@.subrange(33, 65)),
        ),
{
    k256::PublicKey::from_sec1_bytes(b).is_ok()
}

/// Relies on `k256` affine scalar multiplication and the SEC1 encoding:
/// a non-zero canonical scalar times a valid (non-identity) public key
/// of the prime-order secp256k1 group is never the identity, so the
/// x-coordinate exists and is 32 bytes wide.
#[verifier::external_body]
pub(crate) fn k256_shared_x(sk: &Vec<u8>, pk: &Vec<u8>) -> (r: Vec<u8>)
    requires
        sk@.len() == 32,
        1 <= be_nat(sk@) < k256_n(),
        pk@.len() == 65,
        k256_valid_pk(pk@),
    ensures
        r@ == k256_shared_of(sk@, pk@),
        r@.len() == 32,
{
    let arr = *k256::FieldBytes::from_slice(sk.as_slice());
    let scalar: k256::NonZeroScalar = Option::from(k256::NonZeroScalar::from_repr(arr)).unwrap();
    let pub_key = k256::PublicKey::from_sec1_bytes(pk.as_slice()).unwrap();
    let prod = (*pub_key.as_affine() * *scalar.as_ref()).to_affine();
    let ep = k256::EncodedPoint::from(prod);
    ep.x().unwrap().to_vec()
}

/// Relies on `k256::ecdsa::SigningKey::from_bytes`, which accepts
/// exactly the canonical non-zero scalars, and on the 64-byte untagged
/// form of the uncompressed verifying-key encoding.
#[verifier::external_body]
pub(crate) fn k256_vk_bytes(sk: &Vec<u8>) -> (r: Vec<u8>)
    requires
        sk@.len() == 32,
        1 <= be_nat(sk@) < k256_n(),
    ensures
        r@ == k256_vk_of(sk@),
        r@.len() == 64,
{
    let arr = *k256::FieldBytes::from_slice(sk.as_slice());
    let skey = k256::ecdsa::SigningKey::from_bytes(&arr).unwrap();
    let vk = k256::ecdsa::VerifyingKey::from(&skey);
    vk.to_encoded_point(false).as_bytes()[1..].to_vec()
}

/// Relies on the `Signer` implementation of
/// `k256::ecdsa::SigningKey`: deterministic RFC 6979 ECDSA over
/// SHA-256, yielding a 64-byte r || s signature.
#[verifier::external_body]
pub(crate) fn k256_sign(sk: &Vec<u8>, msg: &[u8]) -> (r: Vec<u8>)
    requires
        sk@.len() == 32,
        1 <= be_nat(sk@) < k256_n(),
    ensures
        r@ == k256_sign_of(sk@, msg@),
        r@.len() == 64,
{
    let arr = *k256::FieldBytes::from_slice(sk.as_slice());
    let skey = k256::ecdsa::SigningKey::from_bytes(&arr).unwrap();
    let sig: k256::ecdsa::Signature = skey.sign(msg);
    sig.to_bytes().to_vec()
}

/// Relies on `k256::ecdsa::Signature::from_slice`, which succeeds
/// exactly on 64-byte strings whose halves are scalars in [1, n-1].
#[verifier::external_body]
pub(crate) fn k256_check_sig(sig: &[u8]) -> (r: bool)
    ensures
        r == k256_valid_sig(sig@),
        r ==> sig@.len() == 64,
{
    k256::ecdsa::Signature::from_slice(sig).is_ok()
}

/// Relies on `k256::ecdsa::VerifyingKey::from_sec1_bytes`, which
/// delegates to `PublicKey::from_sec1_bytes`, and on the `Verifier`
/// implementation for ECDSA/SHA-256.
#[verifier::external_body]
pub(crate) fn k256_do_verify(pk: &Vec<u8>, msg: &[u8], sig: &[u8]) -> (r: Option<bool>)
    requires
        k256_valid_sig(sig@),
    ensures
        (match r {
            Some(b) => k256_valid_pk(pk@) && b == k256_verify_of(pk@, msg@, sig@),
            None => !k256_valid_pk(pk@),
        }),
{
    let vk = match k256::ecdsa::VerifyingKey::from_sec1_bytes(pk.as_slice()) {
        Ok(v) => v,
        Err(_) => {
            return None;
        },
    };
    let s = k256::ecdsa::Signature::from_slice(sig).unwrap();
    Some(vk.verify(msg, &s).is_ok())
}

} // verus!
