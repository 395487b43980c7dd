//! Curve parameters: the NIST P-384 domain constants used by the affine
//! arithmetic engine, and the secp256k1 group order used for scalar
//! range checks on the natively backed curve.

use vstd::prelude::*;

use crate::bytes::{
    be_nat, lemma_be_lt_first_byte, lemma_be_nat_bound, lemma_be_nat_first_byte,
    lemma_min_be_width, pad_left, pow256,
};

verus! {

/// The NIST P-384 prime modulus as 48 big-endian bytes.
pub open spec fn p384_p_bytes() -> Seq<u8> {
    seq![
        0xffu8, 0xffu8, 0xffu8, 0xffu8, 0xffu8, 0xffu8, 0xffu8, 0xffu8, 0xffu8, 0xffu8, 0xffu8,
        0xffu8, 0xffu8, 0xffu8, 0xffu8, 0xffu8, 0xffu8, 0xffu8, 0xffu8, 0xffu8, 0xffu8, 0xffu8,
        0xffu8, 0xffu8, 0xffu8, 0xffu8, 0xffu8, 0xffu8, 0xffu8, 0xffu8, 0xffu8, 0xfeu8, 0xffu8,
        0xffu8, 0xffu8, 0xffu8, 0x00u8, 0x00u8, 0x00u8, 0x00u8, 0x00u8, 0x00u8, 0x00u8, 0x00u8,
        0xffu8, 0xffu8, 0xffu8, 0xffu8
    ]
}

/// The NIST P-384 group order as 48 big-endian bytes.
pub open spec fn p384_n_bytes() -> Seq<u8> {
    seq![
        0xffu8, 0xffu8, 0xffu8, 0xffu8, 0xffu8, 0xffu8, 0xffu8, 0xffu8, 0xffu8, 0xffu8, 0xffu8,
        0xffu8, 0xffu8, 0xffu8, 0xffu8, 0xffu8, 0xffu8, 0xffu8, 0xffu8, 0xffu8, 0xffu8, 0xffu8,
        0xffu8, 0xffu8, 0xc7u8, 0x63u8, 0x4du8, 0x81u8, 0xf4u8, 0x37u8, 0x2du8, 0xdfu8, 0x58u8,
        0x1au8, 0x0du8, 0xb2u8, 0x48u8, 0xb0u8, 0xa7u8, 0x7au8, 0xecu8, 0xecu8, 0x19u8, 0x6au8,
        0xccu8, 0xc5u8, 0x29u8, 0x73u8
    ]
}

/// The NIST P-384 coefficient b as 48 big-endian bytes.
pub open spec fn p384_b_bytes() -> Seq<u8> {
    seq![
        0xb3u8, 0x31u8, 0x2fu8, 0xa7u8, 0xe2u8, 0x3eu8, 0xe7u8, 0xe4u8, 0x98u8, 0x8eu8, 0x05u8,
        0x6bu8, 0xe3u8, 0xf8u8, 0x2du8, 0x19u8, 0x18u8, 0x1du8, 0x9cu8, 0x6eu8, 0xfeu8, 0x81u8,
        0x41u8, 0x12u8, 0x03u8, 0x14u8, 0x08u8, 0x8fu8, 0x50u8, 0x13u8, 0x87u8, 0x5au8, 0xc6u8,
        0x56u8, 0x39u8, 0x8du8, 0x8au8, 0x2eu8, 0xd1u8, 0x9du8, 0x2au8, 0x85u8, 0xc8u8, 0xedu8,
        0xd3u8, 0xecu8, 0x2au8, 0xefu8
    ]
}

/// The x-coordinate of the P-384 base point as 48 big-endian bytes.
pub open spec fn p384_gx_bytes() -> Seq<u8> {
    seq![
        0xaau8, 0x87u8, 0xcau8, 0x22u8, 0xbeu8, 0x8bu8, 0x05u8, 0x37u8, 0x8eu8, 0xb1u8, 0xc7u8,
        0x1eu8, 0xf3u8, 0x20u8, 0xadu8, 0x74u8, 0x6eu8, 0x1du8, 0x3bu8, 0x62u8, 0x8bu8, 0xa7u8,
        0x9bu8, 0x98u8, 0x59u8, 0xf7u8, 0x41u8, 0xe0u8, 0x82u8, 0x54u8, 0x2au8, 0x38u8, 0x55u8,
        0x02u8, 0xf2u8, 0x5du8, 0xbfu8, 0x55u8, 0x29u8, 0x6cu8, 0x3au8, 0x54u8, 0x5eu8, 0x38u8,
        0x72u8, 0x76u8, 0x0au8, 0xb7u8
    ]
}

/// The y-coordinate of the P-384 base point as 48 big-endian bytes.
pub open spec fn p384_gy_bytes() -> Seq<u8> {
    seq![
        0x36u8, 0x17u8, 0xdeu8, 0x4au8, 0x96u8, 0x26u8, 0x2cu8, 0x6fu8, 0x5du8, 0x9eu8, 0x98u8,
        0xbfu8, 0x92u8, 0x92u8, 0xdcu8, 0x29u8, 0xf8u8, 0xf4u8, 0x1du8, 0xbdu8, 0x28u8, 0x9au8,
        0x14u8, 0x7cu8, 0xe9u8, 0xdau8, 0x31u8, 0x13u8, 0xb5u8, 0xf0u8, 0xb8u8, 0xc0u8, 0x0au8,
        0x60u8, 0xb1u8, 0xceu8, 0x1du8, 0x7eu8, 0x81u8, 0x9du8, 0x7au8, 0x43u8, 0x1du8, 0x7cu8,
        0x90u8, 0xeau8, 0x0eu8, 0x5fu8
    ]
}

/// The secp256k1 group order as 32 big-endian bytes.
pub open spec fn k256_n_bytes() -> Seq<u8> {
    seq![
        0xffu8, 0xffu8, 0xffu8, 0xffu8, 0xffu8, 0xffu8, 0xffu8, 0xffu8, 0xffu8, 0xffu8, 0xffu8,
        0xffu8, 0xffu8, 0xffu8, 0xffu8, 0xfeu8, 0xbau8, 0xaeu8, 0xdcu8, 0xe6u8, 0xafu8, 0x48u8,
        0xa0u8, 0x3bu8, 0xbfu8, 0xd2u8, 0x5eu8, 0x8cu8, 0xd0u8, 0x36u8, 0x41u8, 0x41u8
    ]
}

/// The secp256k1 field prime as 32 big-endian bytes.
pub open spec fn k256_p_bytes() -> Seq<u8> {
    seq![
        0xffu8, 0xffu8, 0xffu8, 0xffu8, 0xffu8, 0xffu8, 0xffu8, 0xffu8, 0xffu8, 0xffu8, 0xffu8,
        0xffu8, 0xffu8, 0xffu8, 0xffu8, 0xffu8, 0xffu8, 0xffu8, 0xffu8, 0xffu8, 0xffu8, 0xffu8,
        0xffu8, 0xffu8, 0xffu8, 0xffu8, 0xffu8, 0xfeu8, 0xffu8, 0xffu8, 0xfcu8, 0x2fu8
    ]
}

/// The secp256k1 field prime as a number.
pub open spec fn k256_p() -> nat {
    be_nat(k256_p_bytes())
}

/// The P-384 prime modulus as a number.
pub open spec fn p384_p() -> nat {
    be_nat(p384_p_bytes())
}

/// The P-384 group order as a number.
pub open spec fn p384_n() -> nat {
    be_nat(p384_n_bytes())
}

/// The P-384 coefficient a as a number: it is congruent to -3.
pub open spec fn p384_a() -> nat {
    (p384_p() - 3) as nat
}

/// The P-384 coefficient b as a number.
pub open spec fn p384_b() -> nat {
    be_nat(p384_b_bytes())
}

/// The secp256k1 group order as a number.
pub open spec fn k256_n() -> nat {
    be_nat(k256_n_bytes())
}

/// Coarse magnitude facts about the constants that the modular
/// arithmetic helpers need: every modulus is large, every constant
/// fits its fixed width, and the curve coefficients and base-point
/// coordinates are reduced modulo the prime.
pub proof fn lemma_params_facts()
    ensures
        p384_p() >= 255 * pow256(47),
        p384_n() >= 255 * pow256(47),
        k256_n() >= 255 * pow256(31),
        p384_p() < pow256(48),
        p384_n() < pow256(48),
        k256_n() < pow256(32),
        be_nat(p384_gx_bytes()) < p384_p(),
        be_nat(p384_gy_bytes()) < p384_p(),
        p384_b() < p384_p(),
        pow256(47) >= 1,
        pow256(31) >= 1,
        p384_p() >= 255,
        p384_n() >= 255,
        k256_n() >= 255,
        p384_a() == p384_p() - 3,
{
    lemma_be_nat_first_byte(p384_p_bytes());
    lemma_be_nat_first_byte(p384_n_bytes());
    lemma_be_nat_first_byte(k256_n_bytes());
    lemma_be_nat_bound(p384_p_bytes());
    lemma_be_nat_bound(p384_n_bytes());
    lemma_be_nat_bound(k256_n_bytes());
    lemma_be_lt_first_byte(p384_gx_bytes(), p384_p_bytes());
    lemma_be_lt_first_byte(p384_gy_bytes(), p384_p_bytes());
    lemma_be_lt_first_byte(p384_b_bytes(), p384_p_bytes());
    crate::bytes::lemma_pow256_pos(47);
    crate::bytes::lemma_pow256_pos(31);
    assert(255 * pow256(47) >= 255) by (nonlinear_arith)
        requires
            pow256(47) >= 1,
    ;
    assert(255 * pow256(31) >= 255) by (nonlinear_arith)
        requires
            pow256(31) >= 1,
    ;
}

/// The P-384 domain constants in executable form, each 48 bytes wide.
pub struct CurveParams {
    /// The prime modulus p.
    pub p: Vec<u8>,
    /// The coefficient a, reduced modulo p.
    pub a: Vec<u8>,
    /// The coefficient b.
    pub b: Vec<u8>,
    /// The group order n.
    pub n: Vec<u8>,
    /// The x-coordinate of the base point G.
    pub gx: Vec<u8>,
    /// The y-coordinate of the base point G.
    pub gy: Vec<u8>,
}

impl CurveParams {
    /// Every constant holds exactly the P-384 domain value at width 48.
    pub open spec fn wf(&self) -> bool {
        &&& self.p@ == p384_p_bytes()
        &&& self.p@.len() == 48
        &&& be_nat(self.a@) == p384_a()
        &&& self.a@.len() == 48
        &&& self.b@ == p384_b_bytes()
        &&& self.n@ == p384_n_bytes()
        &&& self.n@.len() == 48
        &&& self.gx@ == p384_gx_bytes()
        &&& self.gy@ == p384_gy_bytes()
    }
}

/// Builds the P-384 domain constants; a is computed as p - 3.
pub fn p384_params() -> (c: CurveParams)
    ensures
        c.wf(),
{
    let p = p384_p_vec();
    let mut three: Vec<u8> = Vec::new();
    three.push(3u8);
    proof {
        assert(three@.drop_last() =~= Seq::<u8>::empty());
        assert(be_nat(three@) == be_nat(three@.drop_last()) * 256 + three@.last() as nat);
        lemma_params_facts();
    }
    let a_raw = crate::bigint_ops::big_sub(&p, &three);
    proof {
        lemma_min_be_width(a_raw@, 48);
    }
    let a = pad_left(&a_raw, 48);
    CurveParams {
        p,
        a,
        b: p384_b_vec(),
        n: p384_n_vec(),
        gx: p384_gx_vec(),
        gy: p384_gy_vec(),
    }
}

/// The NIST P-384 prime modulus, 48 big-endian bytes.
pub fn p384_p_vec() -> (r: Vec<u8>)
    ensures
        r@ == p384_p_bytes(),
{
    let mut v: Vec<u8> = Vec::new();
    v.push(0xff); v.push(0xff); v.push(0xff); v.push(0xff); v.push(0xff); v.push(0xff);
    v.push(0xff); v.push(0xff); v.push(0xff); v.push(0xff); v.push(0xff); v.push(0xff);
    v.push(0xff); v.push(0xff); v.push(0xff); v.push(0xff); v.push(0xff); v.push(0xff);
    v.push(0xff); v.push(0xff); v.push(0xff); v.push(0xff); v.push(0xff); v.push(0xff);
    v.push(0xff); v.push(0xff); v.push(0xff); v.push(0xff); v.push(0xff); v.push(0xff);
    v.push(0xff); v.push(0xfe); v.push(0xff); v.push(0xff); v.push(0xff); v.push(0xff);
    v.push(0x00); v.push(0x00); v.push(0x00); v.push(0x00); v.push(0x00); v.push(0x00);
    v.push(0x00); v.push(0x00); v.push(0xff); v.push(0xff); v.push(0xff); v.push(0xff);
    proof {
        assert(v@ =~= p384_p_bytes());
    }
    v
}

/// The NIST P-384 group order, 48 big-endian bytes.
pub fn p384_n_vec() -> (r: Vec<u8>)
    ensures
        r@ == p384_n_bytes(),
{
    let mut v: Vec<u8> = Vec::new();
    v.push(0xff); v.push(0xff); v.push(0xff); v.push(0xff); v.push(0xff); v.push(0xff);
    v.push(0xff); v.push(0xff); v.push(0xff); v.push(0xff); v.push(0xff); v.push(0xff);
    v.push(0xff); v.push(0xff); v.push(0xff); v.push(0xff); v.push(0xff); v.push(0xff);
    v.push(0xff); v.push(0xff); v.push(0xff); v.push(0xff); v.push(0xff); v.push(0xff);
    v.push(0xc7); v.push(0x63); v.push(0x4d); v.push(0x81); v.push(0xf4); v.push(0x37);
    v.push(0x2d); v.push(0xdf); v.push(0x58); v.push(0x1a); v.push(0x0d); v.push(0xb2);
    v.push(0x48); v.push(0xb0); v.push(0xa7); v.push(0x7a); v.push(0xec); v.push(0xec);
    v.push(0x19); v.push(0x6a); v.push(0xcc); v.push(0xc5); v.push(0x29); v.push(0x73);
    proof {
        assert(v@ =~= p384_n_bytes());
    }
    v
}

/// The NIST P-384 curve coefficient b, 48 big-endian bytes.
pub fn p384_b_vec() -> (r: Vec<u8>)
    ensures
        r@ == p384_b_bytes(),
{
    let mut v: Vec<u8> = Vec::new();
    v.push(0xb3); v.push(0x31); v.push(0x2f); v.push(0xa7); v.push(0xe2); v.push(0x3e);
    v.push(0xe7); v.push(0xe4); v.push(0x98); v.push(0x8e); v.push(0x05); v.push(0x6b);
    v.push(0xe3); v.push(0xf8); v.push(0x2d); v.push(0x19); v.push(0x18); v.push(0x1d);
    v.push(0x9c); v.push(0x6e); v.push(0xfe); v.push(0x81); v.push(0x41); v.push(0x12);
    v.push(0x03); v.push(0x14); v.push(0x08); v.push(0x8f); v.push(0x50); v.push(0x13);
    v.push(0x87); v.push(0x5a); v.push(0xc6); v.push(0x56); v.push(0x39); v.push(0x8d);
    v.push(0x8a); v.push(0x2e); v.push(0xd1); v.push(0x9d); v.push(0x2a); v.push(0x85);
    v.push(0xc8); v.push(0xed); v.push(0xd3); v.push(0xec); v.push(0x2a); v.push(0xef);
    proof {
        assert(v@ =~= p384_b_bytes());
    }
    v
}

/// The x-coordinate of the NIST P-384 base point, 48 big-endian bytes.
pub fn p384_gx_vec() -> (r: Vec<u8>)
    ensures
        r@ == p384_gx_bytes(),
{
    let mut v: Vec<u8> = Vec::new();
    v.push(0xaa); v.push(0x87); v.push(0xca); v.push(0x22); v.push(0xbe); v.push(0x8b);
    v.push(0x05); v.push(0x37); v.push(0x8e); v.push(0xb1); v.push(0xc7); v.push(0x1e);
    v.push(0xf3); v.push(0x20); v.push(0xad); v.push(0x74); v.push(0x6e); v.push(0x1d);
    v.push(0x3b); v.push(0x62); v.push(0x8b); v.push(0xa7); v.push(0x9b); v.push(0x98);
    v.push(0x59); v.push(0xf7); v.push(0x41); v.push(0xe0); v.push(0x82); v.push(0x54);
    v.push(0x2a); v.push(0x38); v.push(0x55); v.push(0x02); v.push(0xf2); v.push(0x5d);
    v.push(0xbf); v.push(0x55); v.push(0x29); v.push(0x6c); v.push(0x3a); v.push(0x54);
    v.push(0x5e); v.push(0x38); v.push(0x72); v.push(0x76); v.push(0x0a); v.push(0xb7);
    proof {
        assert(v@ =~= p384_gx_bytes());
    }
    v
}

/// The y-coordinate of the NIST P-384 base point, 48 big-endian bytes.
pub fn p384_gy_vec() -> (r: Vec<u8>)
    ensures
        r@ == p384_gy_bytes(),
{
    let mut v: Vec<u8> = Vec::new();
    v.push(0x36); v.push(0x17); v.push(0xde); v.push(0x4a); v.push(0x96); v.push(0x26);
    v.push(0x2c); v.push(0x6f); v.push(0x5d); v.push(0x9e); v.push(0x98); v.push(0xbf);
    v.push(0x92); v.push(0x92); v.push(0xdc); v.push(0x29); v.push(0xf8); v.push(0xf4);
    v.push(0x1d); v.push(0xbd); v.push(0x28); v.push(0x9a); v.push(0x14); v.push(0x7c);
    v.push(0xe9); v.push(0xda); v.push(0x31); v.push(0x13); v.push(0xb5); v.push(0xf0);
    v.push(0xb8); v.push(0xc0); v.push(0x0a); v.push(0x60); v.push(0xb1); v.push(0xce);
    v.push(0x1d); v.push(0x7e); v.push(0x81); v.push(0x9d); v.push(0x7a); v.push(0x43);
    v.push(0x1d); v.push(0x7c); v.push(0x90); v.push(0xea); v.push(0x0e); v.push(0x5f);
    proof {
        assert(v@ =~= p384_gy_bytes());
    }
    v
}

/// The secp256k1 group order, 32 big-endian bytes.
pub fn k256_n_vec() -> (r: Vec<u8>)
    ensures
        r@ == k256_n_bytes(),
{
    let mut v: Vec<u8> = Vec::new();
    v.push(0xff); v.push(0xff); v.push(0xff); v.push(0xff); v.push(0xff); v.push(0xff);
    v.push(0xff); v.push(0xff); v.push(0xff); v.push(0xff); v.push(0xff); v.push(0xff);
    v.push(0xff); v.push(0xff); v.push(0xff); v.push(0xfe); v.push(0xba); v.push(0xae);
    v.push(0xdc); v.push(0xe6); v.push(0xaf); v.push(0x48); v.push(0xa0); v.push(0x3b);
    v.push(0xbf); v.push(0xd2); v.push(0x5e); v.push(0x8c); v.push(0xd0); v.push(0x36);
    v.push(0x41); v.push(0x41);
    proof {
        assert(v@ =~= k256_n_bytes());
    }
    v
}
} // verus!
