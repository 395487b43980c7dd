//! Affine short-Weierstrass point arithmetic over the P-384 prime field:
//! point doubling and addition with their infinity identities,
//! double-and-add scalar multiplication, and the curve-equation check.
//!
//! Points are held in affine coordinates as reduced 48-byte coordinates
//! with an explicit infinity marker; the point at infinity has no
//! coordinate representation and is carried as the flag alone.

use vstd::prelude::*;

use crate::bigint_ops::{mod_add, mod_inv, mod_mul, mod_sub, pow_nat};
use crate::bytes::{be_nat, bytes_eq, is_zero_bytes, lemma_be_nat_inj, lemma_be_nat_zero_iff, single_byte};
use crate::params::{lemma_params_facts, p384_a, p384_b, p384_p, CurveParams};

verus! {

/// The mathematical value of an affine point: coordinates reduced
/// modulo the field prime, or the point at infinity.
pub struct PointVal {
    pub x: nat,
    pub y: nat,
    pub inf: bool,
}

/// The group identity: the point at infinity.
pub open spec fn pt_infinity() -> PointVal {
    PointVal { x: 0, y: 0, inf: true }
}

/// Field addition modulo p.
pub open spec fn fadd(a: nat, b: nat, p: nat) -> nat {
    (a + b) % p
}

/// Field subtraction of reduced values modulo p.
pub open spec fn fsub(a: nat, b: nat, p: nat) -> nat
    recommends
        b < p,
{
    ((a + p - b) as nat) % p
}

/// Field multiplication modulo p.
pub open spec fn fmul(a: nat, b: nat, p: nat) -> nat {
    (a * b) % p
}

/// Field inverse by exponentiation with p - 2, for a prime p.
pub open spec fn finv(x: nat, p: nat) -> nat
    recommends
        p >= 3,
{
    pow_nat(x, (p - 2) as nat) % p
}

/// Doubling: the tangent-line construction. A zero y-coordinate has no
/// invertible tangent denominator, and the result is infinity.
pub open spec fn spec_double(q: PointVal, a: nat, p: nat) -> PointVal {
    if q.inf {
        q
    } else if q.y == 0 {
        pt_infinity()
    } else {
        let lam = fmul(
            fadd(fmul(3, fmul(q.x, q.x, p), p), a, p),
            finv(fmul(2, q.y, p), p),
            p,
        );
        let xr = fsub(fsub(fmul(lam, lam, p), q.x, p), q.x, p);
        let yr = fsub(fmul(lam, fsub(q.x, xr, p), p), q.y, p);
        PointVal { x: xr, y: yr, inf: false }
    }
}

/// Addition: the chord-line construction, with the identity laws for
/// infinity, doubling when the points coincide, and infinity on the
/// vertical-line case of equal x and different y.
pub open spec fn spec_add(q1: PointVal, q2: PointVal, a: nat, p: nat) -> PointVal {
    if q1.inf {
        q2
    } else if q2.inf {
        q1
    } else if q1.x == q2.x {
        if q1.y == q2.y {
            spec_double(q1, a, p)
        } else {
            pt_infinity()
        }
    } else {
        let lam = fmul(fsub(q2.y, q1.y, p), finv(fsub(q2.x, q1.x, p), p), p);
        let xr = fsub(fsub(fmul(lam, lam, p), q1.x, p), q2.x, p);
        let yr = fsub(fmul(lam, fsub(q1.x, xr, p), p), q1.y, p);
        PointVal { x: xr, y: yr, inf: false }
    }
}

/// Scalar multiplication k * q, defined by binary decomposition of k.
pub open spec fn spec_mul(k: nat, q: PointVal, a: nat, p: nat) -> PointVal
    decreases k,
{
    if k == 0 {
        pt_infinity()
    } else {
        let h = spec_double(spec_mul(k / 2, q, a, p), a, p);
        if k % 2 == 1 {
            spec_add(h, q, a, p)
        } else {
            h
        }
    }
}

/// The short-Weierstrass curve equation y^2 = x^3 + a*x + b over the
/// field, stated for reduced coordinates; infinity satisfies it by
/// convention.
pub open spec fn on_curve(q: PointVal, a: nat, b: nat, p: nat) -> bool {
    q.inf || fmul(q.y, q.y, p) == fadd(
        fadd(fmul(fmul(q.x, q.x, p), q.x, p), fmul(a, q.x, p), p),
        b % p,
        p,
    )
}

/// Multiplying by zero yields the group identity, for every point.
pub proof fn lemma_scalar_mul_zero(q: PointVal, a: nat, p: nat)
    ensures
        spec_mul(0, q, a, p) == pt_infinity(),
        spec_mul(0, q, a, p).inf,
{
}

/// An affine P-384 point: 48-byte big-endian coordinates reduced modulo
/// the field prime, with an explicit infinity marker.
#[derive(Clone, Debug)]
pub struct AffinePoint {
    /// The x-coordinate, 48 big-endian bytes.
    pub x: Vec<u8>,
    /// The y-coordinate, 48 big-endian bytes.
    pub y: Vec<u8>,
    /// Whether this value is the point at infinity; the coordinates are
    /// then zero by convention.
    pub infinity: bool,
}

impl AffinePoint {
    /// The mathematical value this representation denotes.
    pub open spec fn val(&self) -> PointVal {
        PointVal { x: be_nat(self.x@), y: be_nat(self.y@), inf: self.infinity }
    }

    /// Both coordinates are 48 bytes wide and reduced; the infinity
    /// marker forces zero coordinates.
    pub open spec fn wf(&self) -> bool {
        &&& self.x@.len() == 48
        &&& self.y@.len() == 48
        &&& be_nat(self.x@) < p384_p()
        &&& be_nat(self.y@) < p384_p()
        &&& (self.infinity ==> be_nat(self.x@) == 0 && be_nat(self.y@) == 0)
    }
}

/// The point at infinity in executable form.
pub fn infinity_point() -> (r: AffinePoint)
    ensures
        r.wf(),
        r.val() == pt_infinity(),
{
    let mut z: Vec<u8> = Vec::new();
    let mut i: usize = 0;
    while i < 48
        invariant
            i <= 48,
            z@.len() == i,
            forall|j: int| 0 <= j < i ==> z@[j] == 0,
        decreases 48 - i,
    {
        z.push(0);
        i += 1;
    }
    proof {
        lemma_be_nat_zero_iff(z@);
        lemma_params_facts();
    }
    let y = crate::bytes::copy_bytes(&z);
    AffinePoint { x: z, y, infinity: true }
}

/// A fresh representation of the same point.
pub fn copy_point(q: &AffinePoint) -> (r: AffinePoint)
    ensures
        r.val() == q.val(),
        r.wf() == q.wf(),
        r.x@ == q.x@,
        r.y@ == q.y@,
        r.infinity == q.infinity,
{
    AffinePoint {
        x: crate::bytes::copy_bytes(&q.x),
        y: crate::bytes::copy_bytes(&q.y),
        infinity: q.infinity,
    }
}

/// Doubles a point: the tangent construction of `spec_double`.
pub fn point_double(q: &AffinePoint, c: &CurveParams) -> (r: AffinePoint)
    requires
        c.wf(),
        q.wf(),
    ensures
        r.wf(),
        r.val() == spec_double(q.val(), p384_a(), p384_p()),
{
    proof {
        lemma_params_facts();
    }
    if q.infinity {
        return copy_point(q);
    }
    if is_zero_bytes(&q.y) {
        return infinity_point();
    }
    let three = single_byte(3);
    let two = single_byte(2);
    let xx = mod_mul(&q.x, &q.x, &c.p);
    let xx3 = mod_mul(&three, &xx, &c.p);
    let num = mod_add(&xx3, &c.a, &c.p);
    let yy2 = mod_mul(&two, &q.y, &c.p);
    let den = mod_inv(&yy2, &c.p);
    let lam = mod_mul(&num, &den, &c.p);
    let ll = mod_mul(&lam, &lam, &c.p);
    let t = mod_sub(&ll, &q.x, &c.p);
    let xr = mod_sub(&t, &q.x, &c.p);
    let u = mod_sub(&q.x, &xr, &c.p);
    let w = mod_mul(&lam, &u, &c.p);
    let yr = mod_sub(&w, &q.y, &c.p);
    let r = AffinePoint { x: xr, y: yr, infinity: false };
    proof {
        let pp = p384_p();
        let aa = p384_a();
        let qv = q.val();
        let lamv = fmul(
            fadd(fmul(3, fmul(qv.x, qv.x, pp), pp), aa, pp),
            finv(fmul(2, qv.y, pp), pp),
            pp,
        );
        assert(be_nat(lam@) == lamv);
        assert(be_nat(r.x@) == fsub(fsub(fmul(lamv, lamv, pp), qv.x, pp), qv.x, pp));
        assert(be_nat(r.y@) == fsub(fmul(lamv, fsub(qv.x, be_nat(r.x@), pp), pp), qv.y, pp));
    }
    r
}

/// Adds two points: the chord construction of `spec_add`, with the
/// doubling and vertical-line cases decided on the reduced coordinates.
pub fn point_add(q1: &AffinePoint, q2: &AffinePoint, c: &CurveParams) -> (r: AffinePoint)
    requires
        c.wf(),
        q1.wf(),
        q2.wf(),
    ensures
        r.wf(),
        r.val() == spec_add(q1.val(), q2.val(), p384_a(), p384_p()),
{
    proof {
        lemma_params_facts();
    }
    if q1.infinity {
        return copy_point(q2);
    }
    if q2.infinity {
        return copy_point(q1);
    }
    proof {
        if q1.x@ == q2.x@ {
            assert(be_nat(q1.x@) == be_nat(q2.x@));
        } else {
            if be_nat(q1.x@) == be_nat(q2.x@) {
                lemma_be_nat_inj(q1.x@, q2.x@);
            }
        }
        if q1.y@ != q2.y@ && be_nat(q1.y@) == be_nat(q2.y@) {
            lemma_be_nat_inj(q1.y@, q2.y@);
        }
    }
    if bytes_eq(&q1.x, &q2.x) {
        if bytes_eq(&q1.y, &q2.y) {
            return point_double(q1, c);
        }
        return infinity_point();
    }
    let dy = mod_sub(&q2.y, &q1.y, &c.p);
    let dx = mod_sub(&q2.x, &q1.x, &c.p);
    let dxi = mod_inv(&dx, &c.p);
    let lam = mod_mul(&dy, &dxi, &c.p);
    let ll = mod_mul(&lam, &lam, &c.p);
    let t = mod_sub(&ll, &q1.x, &c.p);
    let xr = mod_sub(&t, &q2.x, &c.p);
    let u = mod_sub(&q1.x, &xr, &c.p);
    let w = mod_mul(&lam, &u, &c.p);
    let yr = mod_sub(&w, &q1.y, &c.p);
    let r = AffinePoint { x: xr, y: yr, infinity: false };
    proof {
        let pp = p384_p();
        let v1 = q1.val();
        let v2 = q2.val();
        let lamv = fmul(fsub(v2.y, v1.y, pp), finv(fsub(v2.x, v1.x, pp), pp), pp);
        assert(be_nat(lam@) == lamv);
        assert(be_nat(r.x@) == fsub(fsub(fmul(lamv, lamv, pp), v1.x, pp), v2.x, pp));
        assert(be_nat(r.y@) == fsub(fmul(lamv, fsub(v1.x, be_nat(r.x@), pp), pp), v1.y, pp));
    }
    r
}

/// Checks the curve equation for a point with reduced coordinates.
pub fn is_on_curve(q: &AffinePoint, c: &CurveParams) -> (r: bool)
    requires
        c.wf(),
        q.wf(),
    ensures
        r == on_curve(q.val(), p384_a(), p384_b(), p384_p()),
{
    proof {
        lemma_params_facts();
    }
    if q.infinity {
        return true;
    }
    let lhs = mod_mul(&q.y, &q.y, &c.p);
    let xx = mod_mul(&q.x, &q.x, &c.p);
    let xcu = mod_mul(&xx, &q.x, &c.p);
    let ax = mod_mul(&c.a, &q.x, &c.p);
    let s1 = mod_add(&xcu, &ax, &c.p);
    let zero = single_byte(0);
    let b_red = mod_add(&c.b, &zero, &c.p);
    let rhs = mod_add(&s1, &b_red, &c.p);
    proof {
        let pp = p384_p();
        let bb = p384_b();
        assert(be_nat(b_red@) == bb % pp);
        if be_nat(lhs@) != be_nat(rhs@) && lhs@ == rhs@ {
            assert(false);
        }
        if be_nat(lhs@) == be_nat(rhs@) {
            lemma_be_nat_inj(lhs@, rhs@);
        }
    }
    bytes_eq(&lhs, &rhs)
}

/// The j-th bit of a byte string, counted from the most significant
/// bit of the first byte.
pub open spec fn bit_of(s: Seq<u8>, j: nat) -> nat
    recommends
        j < 8 * s.len(),
{
    ((s[(j / 8) as int] >> ((7 - (j % 8)) as u8)) & 1) as nat
}

/// The value of the first n bits of a byte string.
pub open spec fn bits_val(s: Seq<u8>, n: nat) -> nat
    decreases n,
{
    if n == 0 {
        0
    } else {
        bits_val(s, (n - 1) as nat) * 2 + bit_of(s, (n - 1) as nat)
    }
}

/// A byte is the weighted sum of its bits.
proof fn lemma_u8_bits(x: u8)
    ensures
        (((x >> 7u8) & 1) as nat) * 128 + (((x >> 6u8) & 1) as nat) * 64
            + (((x >> 5u8) & 1) as nat) * 32 + (((x >> 4u8) & 1) as nat) * 16
            + (((x >> 3u8) & 1) as nat) * 8 + (((x >> 2u8) & 1) as nat) * 4
            + (((x >> 1u8) & 1) as nat) * 2 + (((x >> 0u8) & 1) as nat) == x,
{
    assert((((x >> 7u8) & 1) as u16) * 128 + (((x >> 6u8) & 1) as u16) * 64
        + (((x >> 5u8) & 1) as u16) * 32 + (((x >> 4u8) & 1) as u16) * 16
        + (((x >> 3u8) & 1) as u16) * 8 + (((x >> 2u8) & 1) as u16) * 4
        + (((x >> 1u8) & 1) as u16) * 2 + (((x >> 0u8) & 1) as u16) == x as u16)
        by (bit_vector);
}

/// Reading a whole number of bytes bit by bit gives the value of that
/// byte prefix.
proof fn lemma_bits_val_bytes(s: Seq<u8>, m: nat)
    requires
        m <= s.len(),
    ensures
        bits_val(s, 8 * m) == be_nat(s.take(m as int)),
    decreases m,
{
    if m == 0 {
        assert(s.take(0) =~= Seq::<u8>::empty());
    } else {
        let mm = (m - 1) as nat;
        lemma_bits_val_bytes(s, mm);
        let x = s[mm as int];
        let v = bits_val(s, 8 * mm);
        vstd::arithmetic::div_mod::lemma_fundamental_div_mod_converse(
            (8 * mm + 0) as int, 8, mm as int, 0);
        vstd::arithmetic::div_mod::lemma_fundamental_div_mod_converse(
            (8 * mm + 1) as int, 8, mm as int, 1);
        vstd::arithmetic::div_mod::lemma_fundamental_div_mod_converse(
            (8 * mm + 2) as int, 8, mm as int, 2);
        vstd::arithmetic::div_mod::lemma_fundamental_div_mod_converse(
            (8 * mm + 3) as int, 8, mm as int, 3);
        vstd::arithmetic::div_mod::lemma_fundamental_div_mod_converse(
            (8 * mm + 4) as int, 8, mm as int, 4);
        vstd::arithmetic::div_mod::lemma_fundamental_div_mod_converse(
            (8 * mm + 5) as int, 8, mm as int, 5);
        vstd::arithmetic::div_mod::lemma_fundamental_div_mod_converse(
            (8 * mm + 6) as int, 8, mm as int, 6);
        vstd::arithmetic::div_mod::lemma_fundamental_div_mod_converse(
            (8 * mm + 7) as int, 8, mm as int, 7);
        assert(8 * m == 8 * mm + 8);
        let b0 = bit_of(s, 8 * mm + 0);
        let b1 = bit_of(s, 8 * mm + 1);
        let b2 = bit_of(s, 8 * mm + 2);
        let b3 = bit_of(s, 8 * mm + 3);
        let b4 = bit_of(s, 8 * mm + 4);
        let b5 = bit_of(s, 8 * mm + 5);
        let b6 = bit_of(s, 8 * mm + 6);
        let b7 = bit_of(s, 8 * mm + 7);
        assert(bits_val(s, 8 * mm + 1) == v * 2 + b0);
        assert(bits_val(s, 8 * mm + 2) == bits_val(s, 8 * mm + 1) * 2 + b1);
        assert(bits_val(s, 8 * mm + 3) == bits_val(s, 8 * mm + 2) * 2 + b2);
        assert(bits_val(s, 8 * mm + 4) == bits_val(s, 8 * mm + 3) * 2 + b3);
        assert(bits_val(s, 8 * mm + 5) == bits_val(s, 8 * mm + 4) * 2 + b4);
        assert(bits_val(s, 8 * mm + 6) == bits_val(s, 8 * mm + 5) * 2 + b5);
        assert(bits_val(s, 8 * mm + 7) == bits_val(s, 8 * mm + 6) * 2 + b6);
        assert(bits_val(s, 8 * mm + 8) == bits_val(s, 8 * mm + 7) * 2 + b7);
        assert(bits_val(s, 8 * m) == v * 256 + (b0 * 128 + b1 * 64 + b2 * 32 + b3 * 16
            + b4 * 8 + b5 * 4 + b6 * 2 + b7));
        lemma_u8_bits(x);
        assert(b0 * 128 + b1 * 64 + b2 * 32 + b3 * 16 + b4 * 8 + b5 * 4 + b6 * 2 + b7 == x);
        assert(s.take(m as int).drop_last() =~= s.take(mm as int));
        assert(s.take(m as int).last() == x);
        assert(be_nat(s.take(m as int)) == be_nat(s.take(mm as int)) * 256 + x as nat);
    }
}

/// One double-and-add step follows the binary decomposition of the
/// scalar: consuming one more bit b turns the multiplier v into 2v + b.
proof fn lemma_spec_mul_step(v: nat, b: nat, q: PointVal, a: nat, p: nat)
    requires
        b == 0 || b == 1,
    ensures
        spec_mul(2 * v + b, q, a, p) == (if b == 1 {
            spec_add(spec_double(spec_mul(v, q, a, p), a, p), q, a, p)
        } else {
            spec_double(spec_mul(v, q, a, p), a, p)
        }),
{
    let k = 2 * v + b;
    if k == 0 {
        assert(spec_mul(0, q, a, p) == pt_infinity());
        assert(spec_double(pt_infinity(), a, p) == pt_infinity());
    } else {
        vstd::arithmetic::div_mod::lemma_fundamental_div_mod_converse(
            k as int, 2, v as int, b as int);
        assert(k / 2 == v);
        assert(k % 2 == b);
    }
}

/// Computes k * q by the left-to-right binary method: the accumulator
/// starts at infinity and is doubled for every bit of k, with q added
/// in wherever the bit is set.
#[verifier::rlimit(80)]
pub fn scalar_mul(k: &Vec<u8>, q: &AffinePoint, c: &CurveParams) -> (r: AffinePoint)
    requires
        c.wf(),
        q.wf(),
        k@.len() == 48,
    ensures
        r.wf(),
        r.val() == spec_mul(be_nat(k@), q.val(), p384_a(), p384_p()),
{
    let mut acc = infinity_point();
    let ghost mut v: nat = 0;
    let mut i: usize = 0;
    while i < 384
        invariant
            i <= 384,
            c.wf(),
            q.wf(),
            k@.len() == 48,
            acc.wf(),
            v == bits_val(k@, i as nat),
            acc.val() == spec_mul(v, q.val(), p384_a(), p384_p()),
        decreases 384 - i,
    {
        let byte = k[i / 8];
        let sh: u8 = (7 - (i % 8)) as u8;
        let bit: u8 = (byte >> sh) & 1;
        proof {
            assert(byte == k@[(i as nat / 8) as int]);
            assert(bit as nat == bit_of(k@, i as nat));
            assert((byte >> sh) & 1 == 0 || (byte >> sh) & 1 == 1) by (bit_vector);
        }
        acc = point_double(&acc, c);
        if bit == 1 {
            acc = point_add(&acc, q, c);
        }
        proof {
            lemma_spec_mul_step(v, bit as nat, q.val(), p384_a(), p384_p());
            v = 2 * v + bit as nat;
        }
        i += 1;
    }
    proof {
        lemma_bits_val_bytes(k@, 48);
        assert(k@.take(48) =~= k@);
    }
    acc
}

} // verus!
