//! Deterministic byte drawing and scalar derivation.
//!
//! The ChaCha20 keystream is a pure function of its 32-byte seed, so
//! the drawn bytes carry a name that contracts can speak of; the
//! reduction that turns drawn bytes into a scalar in [1, n-1] is
//! verified code.

use vstd::prelude::*;

use rand_chacha::rand_core::{RngCore, SeedableRng};

use crate::bigint_ops::{big_sub, mod_add};
use crate::bytes::{be_nat, is_zero_bytes, pad_left, single_byte, sub_bytes};

verus! {

/// The first n bytes that a ChaCha20 generator yields from a 32-byte
/// seed: a function of the seed and the count alone.
pub uninterp spec fn chacha_stream(seed: Seq<u8>, n: nat) -> Seq<u8>;

/// Relies on `rand_chacha::ChaCha20Rng`: `from_seed` followed by
/// `fill_bytes` fills the buffer completely with a keystream that
/// depends on the seed alone, so the result gets a name.
#[verifier::external_body]
pub(crate) fn chacha_fill(seed: &[u8], n: usize) -> (r: Vec<u8>)
    requires
        seed@.len() == 32,
    ensures
        r@ == chacha_stream(seed@, n as nat),
        r@.len() == n,
{
    let seed_arr: [u8; 32] = seed.try_into().unwrap();
    let mut rng = rand_chacha::ChaCha20Rng::from_seed(seed_arr);
    let mut dest = vec![0u8; n];
    rng.fill_bytes(&mut dest);
    dest
}

/// The i-th width-w block of a byte string, reduced modulo the group
/// order: one candidate private scalar.
pub open spec fn scalar_candidate(stream: Seq<u8>, order: nat, w: nat, i: nat) -> nat {
    be_nat(stream.subrange((w * i) as int, (w * i + w) as int)) % order
}

/// The derived scalar: the first candidate block whose residue modulo
/// the order is not zero. A zero residue triggers a redraw from the
/// next keystream block; should every block within the retry bound
/// degenerate, the scalar 1 stands in, so the range [1, n-1] holds in
/// every case.
pub open spec fn find_scalar(stream: Seq<u8>, order: nat, w: nat, i: nat) -> nat
    decreases 8 - i,
{
    if i >= 8 {
        1
    } else if scalar_candidate(stream, order, w, i) == 0 {
        find_scalar(stream, order, w, i + 1)
    } else {
        scalar_candidate(stream, order, w, i)
    }
}

/// Reduces freshly drawn bytes into the nonce range [1, n-1] of a
/// group order n: the value 1 + (raw mod (n - 1)), at the width of n.
pub fn reduce_scalar(raw: &Vec<u8>, order: &Vec<u8>) -> (r: Vec<u8>)
    requires
        be_nat(order@) >= 3,
    ensures
        r@.len() == order@.len(),
        be_nat(r@) == 1 + (be_nat(raw@) % (be_nat(order@) - 1) as nat),
        1 <= be_nat(r@) < be_nat(order@),
{
    let one = single_byte(1);
    let nm1 = big_sub(order, &one);
    let t = mod_add(raw, &single_byte(0), &nm1);
    let r = mod_add(&t, &one, order);
    proof {
        let n = be_nat(order@);
        let tv = be_nat(t@);
        assert(tv < n - 1);
        vstd::arithmetic::div_mod::lemma_small_mod((tv + 1) as nat, n);
    }
    r
}

/// Derives a private scalar for a group of order n from a 32-byte
/// seed: draws as many bytes as n is wide and reduces them modulo n,
/// redrawing from the following keystream block whenever the residue
/// is zero. A pure function of the seed, always in [1, n-1].
pub fn derive_scalar(seed: &[u8], order: &Vec<u8>, w: usize) -> (r: Vec<u8>)
    requires
        seed@.len() == 32,
        be_nat(order@) >= 3,
        order@.len() == w,
        w <= 4096,
    ensures
        r@.len() == w,
        be_nat(r@) == find_scalar(
            chacha_stream(seed@, (8 * w) as nat),
            be_nat(order@),
            w as nat,
            0,
        ),
        1 <= be_nat(r@) < be_nat(order@),
{
    let stream = chacha_fill(seed, 8 * w);
    let zero = single_byte(0);
    let ghost n = be_nat(order@);
    let mut i: usize = 0;
    while i < 8
        invariant
            i <= 8,
            w <= 4096,
            seed@.len() == 32,
            order@.len() == w,
            be_nat(order@) == n,
            n >= 3,
            zero@ == seq![0u8],
            be_nat(zero@) == 0,
            stream@ == chacha_stream(seed@, (8 * w) as nat),
            stream@.len() == 8 * w,
            find_scalar(stream@, n, w as nat, 0) == find_scalar(stream@, n, w as nat, i as nat),
        decreases 8 - i,
    {
        proof {
            assert(w * i + w <= 8 * w) by (nonlinear_arith)
                requires
                    i + 1 <= 8,
                    w >= 0,
            ;
        }
        let raw = sub_bytes(stream.as_slice(), w * i, w * i + w);
        let k = mod_add(&raw, &zero, order);
        proof {
            assert(raw@ =~= stream@.subrange((w as nat * i as nat) as int, (w as nat * i as nat
                + w as nat) as int));
            assert(be_nat(k@) == scalar_candidate(stream@, n, w as nat, i as nat));
        }
        if !is_zero_bytes(&k) {
            return k;
        }
        i += 1;
    }
    proof {
        if order@.len() == 0 {
            assert(be_nat(order@) == 0);
        }
    }
    pad_left(&single_byte(1), w)
}

} // verus!
