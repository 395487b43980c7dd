//! Arbitrary-precision arithmetic on big-endian byte strings.
//!
//! The raw operations are carried out by `num_bigint_dig::BigUint` behind
//! trusted wrappers whose contracts speak only of `be_nat` values; the
//! modular helpers built on them are verified and always return a result
//! padded to the width of the modulus.

use vstd::prelude::*;

use crate::bytes::{be_nat, min_be, pow256, pad_left, lemma_be_nat_bound, lemma_min_be_width};

verus! {

/// b raised to the power e.
pub open spec fn pow_nat(b: nat, e: nat) -> nat
    decreases e,
{
    if e == 0 {
        1
    } else {
        b * pow_nat(b, (e - 1) as nat)
    }
}

/// Relies on `num_bigint_dig::BigUint` addition and the minimal
/// big-endian encoding of `to_bytes_be` (a sole zero byte for zero).
#[verifier::external_body]
fn big_add(a: &Vec<u8>, b: &Vec<u8>) -> (r: Vec<u8>)
    ensures
        be_nat(r@) == be_nat(a@) + be_nat(b@),
        min_be(r@),
{
    let x = num_bigint_dig::BigUint::from_bytes_be(a.as_slice());
    let y = num_bigint_dig::BigUint::from_bytes_be(b.as_slice());
    (x + y).to_bytes_be()
}

/// Relies on `num_bigint_dig::BigUint` subtraction, which requires that
/// no underflow occurs (it panics on underflow).
#[verifier::external_body]
pub(crate) fn big_sub(a: &Vec<u8>, b: &Vec<u8>) -> (r: Vec<u8>)
    requires
        be_nat(b@) <= be_nat(a@),
    ensures
        be_nat(r@) == be_nat(a@) - be_nat(b@),
        min_be(r@),
{
    let x = num_bigint_dig::BigUint::from_bytes_be(a.as_slice());
    let y = num_bigint_dig::BigUint::from_bytes_be(b.as_slice());
    (x - y).to_bytes_be()
}

/// Relies on `num_bigint_dig::BigUint` multiplication.
#[verifier::external_body]
fn big_mul(a: &Vec<u8>, b: &Vec<u8>) -> (r: Vec<u8>)
    ensures
        be_nat(r@) == be_nat(a@) * be_nat(b@),
        min_be(r@),
{
    let x = num_bigint_dig::BigUint::from_bytes_be(a.as_slice());
    let y = num_bigint_dig::BigUint::from_bytes_be(b.as_slice());
    (x * y).to_bytes_be()
}

/// Relies on `num_bigint_dig::BigUint` remainder, which requires a
/// non-zero divisor (it panics on a zero divisor).
#[verifier::external_body]
fn big_rem(a: &Vec<u8>, m: &Vec<u8>) -> (r: Vec<u8>)
    requires
        be_nat(m@) > 0,
    ensures
        be_nat(r@) == be_nat(a@) % be_nat(m@),
        min_be(r@),
{
    let x = num_bigint_dig::BigUint::from_bytes_be(a.as_slice());
    let y = num_bigint_dig::BigUint::from_bytes_be(m.as_slice());
    (x % y).to_bytes_be()
}

/// Relies on `num_bigint_dig::BigUint::modpow`, documented as
/// `(self ^ exponent) % modulus`, which panics on a zero modulus.
#[verifier::external_body]
fn big_modpow(a: &Vec<u8>, e: &Vec<u8>, m: &Vec<u8>) -> (r: Vec<u8>)
    requires
        be_nat(m@) > 0,
    ensures
        be_nat(r@) == pow_nat(be_nat(a@), be_nat(e@)) % be_nat(m@),
        min_be(r@),
{
    let x = num_bigint_dig::BigUint::from_bytes_be(a.as_slice());
    let y = num_bigint_dig::BigUint::from_bytes_be(e.as_slice());
    let z = num_bigint_dig::BigUint::from_bytes_be(m.as_slice());
    x.modpow(&y, &z).to_bytes_be()
}

/// Relies on the `Ord` implementation of `num_bigint_dig::BigUint`,
/// which orders values numerically.
#[verifier::external_body]
pub(crate) fn big_lt(a: &Vec<u8>, b: &Vec<u8>) -> (r: bool)
    ensures
        r <==> be_nat(a@) < be_nat(b@),
{
    let x = num_bigint_dig::BigUint::from_bytes_be(a.as_slice());
    let y = num_bigint_dig::BigUint::from_bytes_be(b.as_slice());
    x < y
}

/// Reduces a value modulo `m` and pads the result to the width of `m`.
fn rem_fit(t: &Vec<u8>, m: &Vec<u8>) -> (r: Vec<u8>)
    requires
        be_nat(m@) > 0,
    ensures
        r@.len() == m@.len(),
        be_nat(r@) == be_nat(t@) % be_nat(m@),
        be_nat(r@) < be_nat(m@),
{
    let r0 = big_rem(t, m);
    proof {
        if m@.len() == 0 {
            assert(be_nat(m@) == 0);
        }
        lemma_be_nat_bound(m@);
        vstd::arithmetic::div_mod::lemma_mod_bound(be_nat(t@) as int, be_nat(m@) as int);
        lemma_min_be_width(r0@, m@.len());
    }
    pad_left(&r0, m.len())
}

/// Modular addition: `(a + b) mod m`, at the width of `m`.
pub fn mod_add(a: &Vec<u8>, b: &Vec<u8>, m: &Vec<u8>) -> (r: Vec<u8>)
    requires
        be_nat(m@) > 0,
    ensures
        r@.len() == m@.len(),
        be_nat(r@) == (be_nat(a@) + be_nat(b@)) % be_nat(m@),
        be_nat(r@) < be_nat(m@),
{
    let t = big_add(a, b);
    rem_fit(&t, m)
}

/// Modular subtraction of reduced values: `(a + m - b) mod m`, at the
/// width of `m`.
pub fn mod_sub(a: &Vec<u8>, b: &Vec<u8>, m: &Vec<u8>) -> (r: Vec<u8>)
    requires
        be_nat(m@) > 0,
        be_nat(b@) < be_nat(m@),
    ensures
        r@.len() == m@.len(),
        be_nat(r@) == ((be_nat(a@) + be_nat(m@) - be_nat(b@)) as nat) % be_nat(m@),
        be_nat(r@) < be_nat(m@),
{
    let t1 = big_add(a, m);
    let t2 = big_sub(&t1, b);
    rem_fit(&t2, m)
}

/// Modular multiplication: `(a * b) mod m`, at the width of `m`.
pub fn mod_mul(a: &Vec<u8>, b: &Vec<u8>, m: &Vec<u8>) -> (r: Vec<u8>)
    requires
        be_nat(m@) > 0,
    ensures
        r@.len() == m@.len(),
        be_nat(r@) == (be_nat(a@) * be_nat(b@)) % be_nat(m@),
        be_nat(r@) < be_nat(m@),
{
    let t = big_mul(a, b);
    rem_fit(&t, m)
}

/// Modular exponentiation: `(a ^ e) mod m`, at the width of `m`.
pub fn mod_pow(a: &Vec<u8>, e: &Vec<u8>, m: &Vec<u8>) -> (r: Vec<u8>)
    requires
        be_nat(m@) > 0,
    ensures
        r@.len() == m@.len(),
        be_nat(r@) == pow_nat(be_nat(a@), be_nat(e@)) % be_nat(m@),
        be_nat(r@) < be_nat(m@),
{
    let t = big_modpow(a, e, m);
    proof {
        if m@.len() == 0 {
            assert(be_nat(m@) == 0);
        }
        lemma_be_nat_bound(m@);
        vstd::arithmetic::div_mod::lemma_mod_bound(
            pow_nat(be_nat(a@), be_nat(e@)) as int, be_nat(m@) as int);
        lemma_min_be_width(t@, m@.len());
    }
    pad_left(&t, m.len())
}

/// Modular inverse by exponentiation with `m - 2`, for a prime modulus:
/// `(x ^ (m - 2)) mod m`, at the width of `m`.
pub fn mod_inv(x: &Vec<u8>, m: &Vec<u8>) -> (r: Vec<u8>)
    requires
        be_nat(m@) >= 3,
    ensures
        r@.len() == m@.len(),
        be_nat(r@) == pow_nat(be_nat(x@), (be_nat(m@) - 2) as nat) % be_nat(m@),
        be_nat(r@) < be_nat(m@),
{
    let mut two: Vec<u8> = Vec::new();
    two.push(2u8);
    proof {
        assert(two@.drop_last() =~= Seq::<u8>::empty());
        assert(be_nat(two@) == be_nat(two@.drop_last()) * 256 + two@.last() as nat);
        assert(be_nat(Seq::<u8>::empty()) == 0);
        assert(be_nat(two@) == 2);
    }
    let e = big_sub(m, &two);
    mod_pow(x, &e, m)
}

} // verus!
