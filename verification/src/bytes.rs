//! Big-endian byte strings as arbitrary-precision unsigned integers.
//!
//! Every key, coordinate and modulus in this crate is carried as a
//! `Vec<u8>` in big-endian order; `be_nat` is the mathematical value such
//! a string denotes, and the lemmas here relate slicing, padding and
//! concatenation of strings to arithmetic on their values.

use vstd::prelude::*;

verus! {

/// The unsigned integer denoted by a big-endian byte string.
pub open spec fn be_nat(s: Seq<u8>) -> nat
    decreases s.len(),
{
    if s.len() == 0 {
        0
    } else {
        be_nat(s.drop_last()) * 256 + s.last() as nat
    }
}

/// 256 raised to the power k: the count of byte strings of length k.
pub open spec fn pow256(k: nat) -> nat
    decreases k,
{
    if k == 0 {
        1
    } else {
        256 * pow256((k - 1) as nat)
    }
}

/// The big-endian byte string of width `w` denoting the value `v`.
pub open spec fn nat_to_be(v: nat, w: nat) -> Seq<u8>
    decreases w,
{
    if w == 0 {
        Seq::empty()
    } else {
        nat_to_be(v / 256, (w - 1) as nat).push((v % 256) as u8)
    }
}

/// A byte string with no leading zero byte, except the single byte 0.
pub open spec fn min_be(s: Seq<u8>) -> bool {
    &&& s.len() >= 1
    &&& (be_nat(s) == 0 ==> s.len() == 1)
    &&& (be_nat(s) > 0 ==> pow256((s.len() - 1) as nat) <= be_nat(s))
}

pub proof fn lemma_pow256_pos(k: nat)
    ensures
        pow256(k) >= 1,
    decreases k,
{
    if k > 0 {
        lemma_pow256_pos((k - 1) as nat);
    }
}

pub proof fn lemma_pow256_mono(i: nat, j: nat)
    requires
        i <= j,
    ensures
        pow256(i) <= pow256(j),
    decreases j,
{
    if i < j {
        lemma_pow256_mono(i, (j - 1) as nat);
        lemma_pow256_pos((j - 1) as nat);
    }
}

pub proof fn lemma_be_nat_bound(s: Seq<u8>)
    ensures
        be_nat(s) < pow256(s.len()),
    decreases s.len(),
{
    if s.len() > 0 {
        lemma_be_nat_bound(s.drop_last());
        let p = pow256((s.len() - 1) as nat);
        assert(be_nat(s.drop_last()) * 256 <= (p - 1) * 256) by (nonlinear_arith)
            requires
                be_nat(s.drop_last()) <= p - 1,
        ;
    }
}

pub proof fn lemma_be_nat_inj(a: Seq<u8>, b: Seq<u8>)
    requires
        a.len() == b.len(),
        be_nat(a) == be_nat(b),
    ensures
        a =~= b,
    decreases a.len(),
{
    if a.len() > 0 {
        let xa = be_nat(a.drop_last());
        let xb = be_nat(b.drop_last());
        vstd::arithmetic::div_mod::lemma_fundamental_div_mod_converse(
            be_nat(a) as int, 256, xa as int, a.last() as int);
        vstd::arithmetic::div_mod::lemma_fundamental_div_mod_converse(
            be_nat(b) as int, 256, xb as int, b.last() as int);
        assert(a.last() == b.last());
        assert(xa == xb);
        lemma_be_nat_inj(a.drop_last(), b.drop_last());
        assert(a =~= a.drop_last().push(a.last()));
        assert(b =~= b.drop_last().push(b.last()));
    }
}

pub proof fn lemma_be_nat_concat(a: Seq<u8>, b: Seq<u8>)
    ensures
        be_nat(a + b) == be_nat(a) * pow256(b.len()) + be_nat(b),
    decreases b.len(),
{
    if b.len() == 0 {
        assert(a + b =~= a);
        assert(pow256(b.len()) == 1);
        assert(be_nat(a) * 1 == be_nat(a)) by (nonlinear_arith);
    } else {
        lemma_be_nat_concat(a, b.drop_last());
        assert((a + b).drop_last() =~= a + b.drop_last());
        assert((a + b).last() == b.last());
        let x = be_nat(a);
        let bd = be_nat(b.drop_last());
        let p = pow256((b.len() - 1) as nat);
        assert((x * p + bd) * 256 == x * (256 * p) + bd * 256) by (nonlinear_arith);
        assert(be_nat(a + b) == be_nat(a + b.drop_last()) * 256 + b.last() as nat);
        assert(be_nat(a + b) == (x * p + bd) * 256 + b.last() as nat);
        assert(pow256(b.len()) == 256 * p);
        assert(x * pow256(b.len()) == x * (256 * p)) by (nonlinear_arith)
            requires
                pow256(b.len()) == 256 * p,
        ;
        assert(be_nat(b) == bd * 256 + b.last() as nat);
    }
}

pub proof fn lemma_be_nat_zero_iff(s: Seq<u8>)
    ensures
        be_nat(s) == 0 <==> (forall|i: int| 0 <= i < s.len() ==> s[i] == 0),
    decreases s.len(),
{
    if s.len() > 0 {
        lemma_be_nat_zero_iff(s.drop_last());
        if be_nat(s) == 0 {
            assert(forall|i: int| 0 <= i < s.len() - 1 ==> s[i] == s.drop_last()[i]);
        } else {
            if forall|i: int| 0 <= i < s.len() ==> s[i] == 0 {
                assert(forall|i: int| 0 <= i < s.len() - 1 ==> s.drop_last()[i] == s[i]);
                assert(be_nat(s.drop_last()) == 0);
                assert(s.last() == 0);
            }
        }
    }
}

pub proof fn lemma_nat_to_be_val(v: nat, w: nat)
    requires
        v < pow256(w),
    ensures
        nat_to_be(v, w).len() == w,
        be_nat(nat_to_be(v, w)) == v,
    decreases w,
{
    if w > 0 {
        let p = pow256((w - 1) as nat);
        assert(v / 256 < p) by (nonlinear_arith)
            requires
                v < 256 * p,
                p >= 0,
        ;
        lemma_nat_to_be_val(v / 256, (w - 1) as nat);
        let s = nat_to_be(v, w);
        assert(s.drop_last() =~= nat_to_be(v / 256, (w - 1) as nat));
        vstd::arithmetic::div_mod::lemma_fundamental_div_mod(v as int, 256);
    }
}

/// A byte string below its width's capacity keeps its value when zero
/// bytes are put in front of it.
pub proof fn lemma_be_nat_leading_zeros(z: Seq<u8>, s: Seq<u8>)
    requires
        forall|i: int| 0 <= i < z.len() ==> z[i] == 0,
    ensures
        be_nat(z + s) == be_nat(s),
{
    lemma_be_nat_zero_iff(z);
    lemma_be_nat_concat(z, s);
}

/// The width a minimal byte string can take: no more than any width
/// whose capacity exceeds the value.
pub proof fn lemma_min_be_width(s: Seq<u8>, w: nat)
    requires
        min_be(s),
        w >= 1,
        be_nat(s) < pow256(w),
    ensures
        s.len() <= w,
{
    if be_nat(s) > 0 && s.len() > w {
        lemma_pow256_mono(w, (s.len() - 1) as nat);
    }
}

/// Copies the range `[from, to)` of a byte slice into a fresh vector.
pub fn sub_bytes(b: &[u8], from: usize, to: usize) -> (r: Vec<u8>)
    requires
        from <= to <= b@.len(),
    ensures
        r@ == b@.subrange(from as int, to as int),
{
    let mut r: Vec<u8> = Vec::new();
    let mut i: usize = from;
    while i < to
        invariant
            from <= i <= to <= b@.len(),
            r@ =~= b@.subrange(from as int, i as int),
        decreases to - i,
    {
        r.push(b[i]);
        i += 1;
        proof {
            assert(r@ =~= b@.subrange(from as int, i as int));
        }
    }
    r
}

/// Pads a byte string with leading zeros up to the width `w`.
pub fn pad_left(v: &Vec<u8>, w: usize) -> (r: Vec<u8>)
    requires
        v@.len() <= w,
    ensures
        r@.len() == w,
        be_nat(r@) == be_nat(v@),
        r@.subrange((w - v@.len()) as int, w as int) == v@,
        forall|i: int| 0 <= i < w - v@.len() ==> r@[i] == 0,
{
    let mut r: Vec<u8> = Vec::new();
    let zeros = w - v.len();
    let mut i: usize = 0;
    while i < zeros
        invariant
            i <= zeros,
            r@.len() == i,
            forall|j: int| 0 <= j < i ==> r@[j] == 0,
        decreases zeros - i,
    {
        r.push(0);
        i += 1;
    }
    let ghost zpart = r@;
    let mut j: usize = 0;
    while j < v.len()
        invariant
            j <= v@.len(),
            r@ =~= zpart + v@.take(j as int),
            zpart.len() == w - v@.len(),
            forall|k: int| 0 <= k < zpart.len() ==> zpart[k] == 0,
        decreases v@.len() - j,
    {
        r.push(v[j]);
        j += 1;
        proof {
            assert(r@ =~= zpart + v@.take(j as int));
        }
    }
    proof {
        assert(v@.take(v@.len() as int) =~= v@);
        lemma_be_nat_leading_zeros(zpart, v@);
        assert(r@.subrange((w - v@.len()) as int, w as int) =~= v@);
    }
    r
}

/// Reports whether two byte strings are identical.
pub fn bytes_eq(a: &Vec<u8>, b: &Vec<u8>) -> (r: bool)
    ensures
        r <==> a@ == b@,
{
    if a.len() != b.len() {
        proof {
            assert(a@ != b@);
        }
        return false;
    }
    let mut i: usize = 0;
    while i < a.len()
        invariant
            i <= a@.len(),
            a@.len() == b@.len(),
            forall|j: int| 0 <= j < i ==> a@[j] == b@[j],
        decreases a@.len() - i,
    {
        if a[i] != b[i] {
            proof {
                assert(a@[i as int] != b@[i as int]);
            }
            return false;
        }
        i += 1;
    }
    proof {
        assert(a@ =~= b@);
    }
    true
}

/// Reports whether a byte string denotes the value zero.
pub fn is_zero_bytes(v: &Vec<u8>) -> (r: bool)
    ensures
        r <==> be_nat(v@) == 0,
{
    let mut i: usize = 0;
    let mut all_zero: bool = true;
    while i < v.len()
        invariant
            i <= v@.len(),
            all_zero <==> (forall|j: int| 0 <= j < i ==> v@[j] == 0),
        decreases v@.len() - i,
    {
        if v[i] != 0 {
            all_zero = false;
        }
        i += 1;
    }
    proof {
        lemma_be_nat_zero_iff(v@);
    }
    all_zero
}

/// The leading byte brackets the value of a byte string.
pub proof fn lemma_be_nat_first_byte(s: Seq<u8>)
    requires
        s.len() > 0,
    ensures
        s[0] * pow256((s.len() - 1) as nat) <= be_nat(s),
        be_nat(s) < (s[0] + 1) * pow256((s.len() - 1) as nat),
{
    let rest = s.subrange(1, s.len() as int);
    let p = pow256((s.len() - 1) as nat);
    assert(s =~= seq![s[0]] + rest);
    lemma_be_nat_concat(seq![s[0]], rest);
    assert(seq![s[0]].drop_last() =~= Seq::<u8>::empty());
    assert(be_nat(seq![s[0]]) == be_nat(seq![s[0]].drop_last()) * 256 + seq![s[0]].last() as nat);
    assert(be_nat(Seq::<u8>::empty()) == 0);
    assert(be_nat(seq![s[0]]) == s[0]);
    lemma_be_nat_bound(rest);
    assert(s[0] * p + p == (s[0] + 1) * p) by (nonlinear_arith);
}

/// Of two byte strings of one length, the one with the smaller leading
/// byte denotes the smaller value.
pub proof fn lemma_be_lt_first_byte(a: Seq<u8>, b: Seq<u8>)
    requires
        a.len() == b.len(),
        a.len() > 0,
        a[0] < b[0],
    ensures
        be_nat(a) < be_nat(b),
{
    let p = pow256((a.len() - 1) as nat);
    lemma_be_nat_first_byte(a);
    lemma_be_nat_first_byte(b);
    assert((a[0] + 1) * p <= b[0] * p) by (nonlinear_arith)
        requires
            a[0] + 1 <= b[0],
            p >= 0,
    ;
}

/// A fresh vector holding the same bytes.
pub fn copy_bytes(v: &Vec<u8>) -> (r: Vec<u8>)
    ensures
        r@ == v@,
{
    vstd::slice::slice_to_vec(v.as_slice())
}

/// A one-byte string with the given value.
pub fn single_byte(b: u8) -> (r: Vec<u8>)
    ensures
        r@.len() == 1,
        r@ == seq![b],
        be_nat(r@) == b,
{
    let mut v: Vec<u8> = Vec::new();
    v.push(b);
    proof {
        assert(v@.drop_last() =~= Seq::<u8>::empty());
        assert(be_nat(v@) == be_nat(v@.drop_last()) * 256 + v@.last() as nat);
        assert(be_nat(Seq::<u8>::empty()) == 0);
    }
    v
}

} // verus!
