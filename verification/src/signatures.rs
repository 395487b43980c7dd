//! The curve-agnostic ECDSA signature layer.
//!
//! The SHA-256 path delegates signing and verification to the audited
//! secp256k1 backend; the SHA-384 path runs standard ECDSA on the
//! verified P-384 affine arithmetic engine: ephemeral nonces drawn from
//! a deterministic stream, r = (k*G).x mod n, s = k^-1 (e + r d) mod n,
//! and the u1*G + u2*Q reconstruction on verification.

use vstd::prelude::*;

use crate::backend_k256::{
    k256_check_sig, k256_do_verify, k256_sign, k256_sign_of, k256_valid_pk, k256_valid_sig,
    k256_verify_of, k256_vk_bytes, k256_vk_of,
};
use crate::bigint_ops::{mod_add, mod_inv, mod_mul};
use crate::bytes::{
    be_nat, bytes_eq, copy_bytes, is_zero_bytes, lemma_be_nat_inj, lemma_nat_to_be_val,
    nat_to_be, single_byte, sub_bytes,
};
use crate::engine::{
    fadd, finv, fmul, scalar_mul, spec_add, spec_mul, AffinePoint, PointVal, point_add,
};
use crate::exchange::{k256_sk_of_seed, p384_gen, p384_generator_point, p384_sk_of_seed};
use crate::hashes::{sha384, sha384_of};
use crate::params::{k256_n, k256_n_vec, lemma_params_facts, p384_a, p384_n, p384_p, p384_params};
use crate::rng::{chacha_fill, chacha_stream, derive_scalar, reduce_scalar};
use crate::CryptoError;

verus! {

/// One ECDSA attempt on P-384 with the ephemeral scalar k: the (r, s)
/// pair, or nothing where a retry is called for (degenerate R, r = 0
/// or s = 0).
pub open spec fn sig_attempt(d: nat, e: nat, k: nat) -> Option<(nat, nat)> {
    let n = p384_n();
    let rp = spec_mul(k, p384_gen(), p384_a(), p384_p());
    if rp.inf {
        None
    } else {
        let rr = rp.x % n;
        if rr == 0 {
            None
        } else {
            let s = fmul(finv(k, n), fadd(e % n, fmul(rr, d, n), n), n);
            if s == 0 {
                None
            } else {
                Some((rr, s))
            }
        }
    }
}

/// The ephemeral scalar of attempt i, reduced into [1, n-1] from the
/// i-th 48-byte block of the nonce stream.
pub open spec fn nonce_of(stream: Seq<u8>, i: nat) -> nat {
    1 + (be_nat(stream.subrange(48 * i as int, 48 * i as int + 48)) % (p384_n() - 1) as nat)
}

/// The first successful attempt among the remaining ones, trying the
/// nonce blocks i, i+1, ... up to the retry bound.
pub open spec fn find_sig(d: nat, e: nat, stream: Seq<u8>, i: nat) -> Option<(nat, nat)>
    decreases 8 - i,
{
    if i >= 8 {
        None
    } else {
        match sig_attempt(d, e, nonce_of(stream, i)) {
            Some(rs) => Some(rs),
            None => find_sig(d, e, stream, i + 1),
        }
    }
}

/// The deterministic nonce stream of a signing call: keyed by the
/// private scalar and the message.
pub open spec fn p384_sig_stream(d_bytes: Seq<u8>, data: Seq<u8>) -> Seq<u8> {
    chacha_stream(sha384_of(d_bytes + data).take(32), 384)
}

/// The ECDSA verification equation on P-384 for reduced components
/// r, s in [1, n-1]: R' = u1*G + u2*Q must be finite with x-coordinate
/// congruent to r modulo n.
pub open spec fn spec_verify384(qv: PointVal, e: nat, rr: nat, ss: nat) -> bool {
    let n = p384_n();
    let w = finv(ss, n);
    let u1 = fmul(e % n, w, n);
    let u2 = fmul(rr, w, n);
    let rp = spec_add(
        spec_mul(u1, p384_gen(), p384_a(), p384_p()),
        spec_mul(u2, qv, p384_a(), p384_p()),
        p384_a(),
        p384_p(),
    );
    !rp.inf && rp.x % n == rr
}

/// ECDSA signatures over one curve: keypair generation from a seed,
/// signing, verification, and access to the r and s components of a
/// packed r || s signature.
#[allow(non_camel_case_types)]
pub trait ECSignature: Sized {
    /// The r component of a signature.
    type r;

    /// The s component of a signature.
    type s;

    /// A packed signature: r and s concatenated.
    type sbytes;

    /// The invariant of a usable key pair.
    spec fn key_wf(&self) -> bool;

    /// How a generated key pair relates to the seed: it pins both keys
    /// as functions of the seed alone.
    spec fn kp_rel(seed: Seq<u8>, new_self: &Self) -> bool;

    /// What `sign` returns for a message.
    spec fn sign_rel(&self, data: Seq<u8>, out: &Result<Self::sbytes, CryptoError>) -> bool;

    /// What `verify` returns for a message and signature bytes.
    spec fn verify_rel(&self, data: Seq<u8>, sig: Seq<u8>, out: &Result<bool, CryptoError>) -> bool;

    /// The bytes of a packed signature.
    spec fn sb_bytes(sb: &Self::sbytes) -> Seq<u8>;

    /// The bytes of an r component.
    spec fn r_bytes(rv: &Self::r) -> Seq<u8>;

    /// The bytes of an s component.
    spec fn s_bytes(sv: &Self::s) -> Seq<u8>;

    /// The width of one signature component.
    spec fn comp_len() -> nat;

    /// Generates a key pair from a 32-byte seed, deterministically.
    fn generate_keypair(&mut self, seed: [u8; 32])
        ensures
            final(self).key_wf(),
            Self::kp_rel(seed@, final(self)),
    ;

    /// Signs a message of arbitrary length, returning the packed
    /// r || s signature.
    fn sign(&self, data: &[u8]) -> (out: Result<Self::sbytes, CryptoError>)
        requires
            self.key_wf(),
        ensures
            self.sign_rel(data@, &out),
    ;

    /// Verifies a packed signature over a message.
    fn verify(&self, data: &[u8], signature: &[u8]) -> (out: Result<bool, CryptoError>)
        requires
            self.key_wf(),
        ensures
            self.verify_rel(data@, signature@, &out),
    ;

    /// The raw r component of a packed signature.
    fn r(sb: Self::sbytes) -> (out: Self::r)
        requires
            Self::sb_bytes(&sb).len() == 2 * Self::comp_len(),
        ensures
            Self::r_bytes(&out) == Self::sb_bytes(&sb).take(Self::comp_len() as int),
    ;

    /// The raw s component of a packed signature.
    fn s(sb: Self::sbytes) -> (out: Self::s)
        requires
            Self::sb_bytes(&sb).len() == 2 * Self::comp_len(),
        ensures
            Self::s_bytes(&out) == Self::sb_bytes(&sb).skip(Self::comp_len() as int),
    ;
}

/// An ECDSA/SHA-256 key pair on secp256k1, backed by the audited
/// library: the signing key as 32 scalar bytes and the verifying key
/// as 64 untagged point bytes.
pub struct ECDSASHA256Signature(pub Vec<u8>, pub Vec<u8>);

impl ECSignature for ECDSASHA256Signature {
    type r = Vec<u8>;

    type s = Vec<u8>;

    type sbytes = Vec<u8>;

    open spec fn key_wf(&self) -> bool {
        &&& self.0@.len() == 32
        &&& 1 <= be_nat(self.0@) < k256_n()
        &&& self.1@.len() == 64
    }

    open spec fn kp_rel(seed: Seq<u8>, new_self: &Self) -> bool {
        &&& new_self.0@ == k256_sk_of_seed(seed)
        &&& new_self.1@ == k256_vk_of(new_self.0@)
    }

    open spec fn sign_rel(&self, data: Seq<u8>, out: &Result<Vec<u8>, CryptoError>) -> bool {
        match out {
            Ok(v) => v@ == k256_sign_of(self.0@, data),
            Err(_) => false,
        }
    }

    open spec fn verify_rel(&self, data: Seq<u8>, sig: Seq<u8>, out: &Result<bool, CryptoError>) -> bool {
        let pk = seq![4u8] + self.1@;
        if !k256_valid_sig(sig) {
            out == Err::<bool, CryptoError>(CryptoError::SignatureError)
        } else if !k256_valid_pk(pk) {
            out == Err::<bool, CryptoError>(CryptoError::SignatureError)
        } else {
            out == Ok::<bool, CryptoError>(k256_verify_of(pk, data, sig))
        }
    }

    open spec fn sb_bytes(sb: &Vec<u8>) -> Seq<u8> {
        sb@
    }

    open spec fn r_bytes(rv: &Vec<u8>) -> Seq<u8> {
        rv@
    }

    open spec fn s_bytes(sv: &Vec<u8>) -> Seq<u8> {
        sv@
    }

    open spec fn comp_len() -> nat {
        32
    }

    fn generate_keypair(&mut self, seed: [u8; 32]) {
        proof {
            lemma_params_facts();
        }
        let order = k256_n_vec();
        let skb = derive_scalar(seed.as_slice(), &order, 32);
        proof {
            lemma_nat_to_be_val(be_nat(skb@), 32);
            lemma_be_nat_inj(skb@, nat_to_be(be_nat(skb@), 32));
        }
        let vkb = k256_vk_bytes(&skb);
        self.0 = skb;
        self.1 = vkb;
    }

    fn sign(&self, data: &[u8]) -> (out: Result<Vec<u8>, CryptoError>) {
        Ok(k256_sign(&self.0, data))
    }

    fn verify(&self, data: &[u8], signature: &[u8]) -> (out: Result<bool, CryptoError>) {
        if !k256_check_sig(signature) {
            return Err(CryptoError::SignatureError);
        }
        let mut pk = single_byte(4);
        let mut vk = copy_bytes(&self.1);
        pk.append(&mut vk);
        proof {
            assert(pk@ == seq![4u8] + self.1@);
        }
        match k256_do_verify(&pk, data, signature) {
            Some(b) => Ok(b),
            None => Err(CryptoError::SignatureError),
        }
    }

    fn r(sb: Vec<u8>) -> (out: Vec<u8>) {
        let out = sub_bytes(sb.as_slice(), 0, 32);
        proof {
            assert(out@ =~= sb@.take(32));
        }
        out
    }

    fn s(sb: Vec<u8>) -> (out: Vec<u8>) {
        let out = sub_bytes(sb.as_slice(), 32, 64);
        proof {
            assert(out@ =~= sb@.skip(32));
        }
        out
    }
}

/// An ECDSA/SHA-384 key pair on NIST P-384, backed by the verified
/// affine arithmetic engine: the signing key as 48 scalar bytes and
/// the verifying key as an affine point.
pub struct ECDSASHA384Signature(pub Vec<u8>, pub AffinePoint);

impl ECSignature for ECDSASHA384Signature {
    type r = Vec<u8>;

    type s = Vec<u8>;

    type sbytes = Vec<u8>;

    open spec fn key_wf(&self) -> bool {
        &&& self.0@.len() == 48
        &&& 1 <= be_nat(self.0@) < p384_n()
        &&& self.1.wf()
    }

    open spec fn kp_rel(seed: Seq<u8>, new_self: &Self) -> bool {
        &&& new_self.0@ == p384_sk_of_seed(seed)
        &&& new_self.1.val() == spec_mul(be_nat(new_self.0@), p384_gen(), p384_a(), p384_p())
    }

    open spec fn sign_rel(&self, data: Seq<u8>, out: &Result<Vec<u8>, CryptoError>) -> bool {
        let d = be_nat(self.0@);
        let e = be_nat(sha384_of(data));
        let stream = p384_sig_stream(self.0@, data);
        match find_sig(d, e, stream, 0) {
            Some(rs) => (match out {
                Ok(v) => v@ == nat_to_be(rs.0, 48) + nat_to_be(rs.1, 48),
                Err(_) => false,
            }),
            None => out == Err::<Vec<u8>, CryptoError>(CryptoError::SignatureError),
        }
    }

    open spec fn verify_rel(&self, data: Seq<u8>, sig: Seq<u8>, out: &Result<bool, CryptoError>) -> bool {
        let n = p384_n();
        if sig.len() != 96 {
            out == Err::<bool, CryptoError>(CryptoError::SignatureError)
        } else {
            let rr = be_nat(sig.subrange(0, 48));
            let ss = be_nat(sig.subrange(48, 96));
            if !(1 <= rr < n) || !(1 <= ss < n) {
                out == Err::<bool, CryptoError>(CryptoError::SignatureError)
            } else {
                out == Ok::<bool, CryptoError>(
                    spec_verify384(self.1.val(), be_nat(sha384_of(data)), rr, ss),
                )
            }
        }
    }

    open spec fn sb_bytes(sb: &Vec<u8>) -> Seq<u8> {
        sb@
    }

    open spec fn r_bytes(rv: &Vec<u8>) -> Seq<u8> {
        rv@
    }

    open spec fn s_bytes(sv: &Vec<u8>) -> Seq<u8> {
        sv@
    }

    open spec fn comp_len() -> nat {
        48
    }

    fn generate_keypair(&mut self, seed: [u8; 32]) {
        proof {
            lemma_params_facts();
        }
        let c = p384_params();
        let skb = derive_scalar(seed.as_slice(), &c.n, 48);
        proof {
            lemma_nat_to_be_val(be_nat(skb@), 48);
            lemma_be_nat_inj(skb@, nat_to_be(be_nat(skb@), 48));
        }
        let g = p384_generator_point();
        let pk = scalar_mul(&skb, &g, &c);
        self.0 = skb;
        self.1 = pk;
    }

    #[verifier::rlimit(100)]
    fn sign(&self, data: &[u8]) -> (out: Result<Vec<u8>, CryptoError>) {
        proof {
            lemma_params_facts();
        }
        let c = p384_params();
        let g = p384_generator_point();
        let h = sha384(data);
        let mut seedmat = copy_bytes(&self.0);
        let mut datav = vstd::slice::slice_to_vec(data);
        seedmat.append(&mut datav);
        let hs = sha384(seedmat.as_slice());
        let ns = sub_bytes(hs.as_slice(), 0, 32);
        proof {
            assert(ns@ =~= sha384_of(self.0@ + data@).take(32));
        }
        let stream = chacha_fill(ns.as_slice(), 384);
        let ghost d = be_nat(self.0@);
        let ghost e = be_nat(sha384_of(data@));
        let mut i: usize = 0;
        while i < 8
            invariant
                i <= 8,
                self.key_wf(),
                c.wf(),
                g.wf(),
                g.val() == p384_gen(),
                h@ == sha384_of(data@),
                stream@ == p384_sig_stream(self.0@, data@),
                stream@.len() == 384,
                d == be_nat(self.0@),
                e == be_nat(sha384_of(data@)),
                find_sig(d, e, stream@, 0) == find_sig(d, e, stream@, i as nat),
            decreases 8 - i,
        {
            let raw = sub_bytes(stream.as_slice(), 48 * i, 48 * i + 48);
            let k = reduce_scalar(&raw, &c.n);
            proof {
                assert(raw@ =~= stream@.subrange(48 * (i as nat) as int, 48 * (i as nat) as int
                    + 48));
                assert(be_nat(k@) == nonce_of(stream@, i as nat));
            }
            let rp = scalar_mul(&k, &g, &c);
            let zero = single_byte(0);
            if !rp.infinity {
                let rr = mod_add(&rp.x, &zero, &c.n);
                if !is_zero_bytes(&rr) {
                    let kinv = mod_inv(&k, &c.n);
                    let ered = mod_add(&h, &zero, &c.n);
                    let rd = mod_mul(&rr, &self.0, &c.n);
                    let tt = mod_add(&ered, &rd, &c.n);
                    let sv = mod_mul(&kinv, &tt, &c.n);
                    if !is_zero_bytes(&sv) {
                        proof {
                            lemma_params_facts();
                            assert(sig_attempt(d, e, nonce_of(stream@, i as nat))
                                == Some((be_nat(rr@), be_nat(sv@))));
                            lemma_nat_to_be_val(be_nat(rr@), 48);
                            lemma_be_nat_inj(rr@, nat_to_be(be_nat(rr@), 48));
                            lemma_nat_to_be_val(be_nat(sv@), 48);
                            lemma_be_nat_inj(sv@, nat_to_be(be_nat(sv@), 48));
                        }
                        let mut out = rr;
                        let mut svm = sv;
                        out.append(&mut svm);
                        return Ok(out);
                    }
                }
            }
            proof {
                assert(sig_attempt(d, e, nonce_of(stream@, i as nat)) is None);
                assert(find_sig(d, e, stream@, i as nat) == find_sig(d, e, stream@, (i
                    + 1) as nat));
            }
            i += 1;
        }
        Err(CryptoError::SignatureError)
    }

    fn verify(&self, data: &[u8], signature: &[u8]) -> (out: Result<bool, CryptoError>) {
        proof {
            lemma_params_facts();
        }
        if signature.len() != 96 {
            return Err(CryptoError::SignatureError);
        }
        let c = p384_params();
        let g = p384_generator_point();
        let rb = sub_bytes(signature, 0, 48);
        let sb = sub_bytes(signature, 48, 96);
        if is_zero_bytes(&rb) || !crate::bigint_ops::big_lt(&rb, &c.n) {
            return Err(CryptoError::SignatureError);
        }
        if is_zero_bytes(&sb) || !crate::bigint_ops::big_lt(&sb, &c.n) {
            return Err(CryptoError::SignatureError);
        }
        let h = sha384(data);
        let zero = single_byte(0);
        let w = mod_inv(&sb, &c.n);
        let ered = mod_add(&h, &zero, &c.n);
        let u1 = mod_mul(&ered, &w, &c.n);
        let u2 = mod_mul(&rb, &w, &c.n);
        let p1 = scalar_mul(&u1, &g, &c);
        let p2 = scalar_mul(&u2, &self.1, &c);
        let rp = point_add(&p1, &p2, &c);
        if rp.infinity {
            return Ok(false);
        }
        let rx = mod_add(&rp.x, &zero, &c.n);
        proof {
            if be_nat(rx@) == be_nat(rb@) {
                lemma_be_nat_inj(rx@, rb@);
            }
        }
        Ok(bytes_eq(&rx, &rb))
    }

    fn r(sb: Vec<u8>) -> (out: Vec<u8>) {
        let out = sub_bytes(sb.as_slice(), 0, 48);
        proof {
            assert(out@ =~= sb@.take(48));
        }
        out
    }

    fn s(sb: Vec<u8>) -> (out: Vec<u8>) {
        let out = sub_bytes(sb.as_slice(), 48, 96);
        proof {
            assert(out@ =~= sb@.skip(48));
        }
        out
    }
}

} // verus!
