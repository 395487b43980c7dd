//! The curve-agnostic key-exchange layer and the fixed-length byte
//! serialization contract.
//!
//! secp256k1 is served by the audited `k256` backend behind the trusted
//! wrappers of `backend_k256`; NIST P-384 is served by the verified
//! affine arithmetic engine. Every key, point and secret type exposes a
//! fixed-width encoding, and decoding validates length, tag and curve
//! membership.

use vstd::prelude::*;

use crate::backend_k256::{
    k256_check_pk, k256_derive_pub, k256_on_curve, k256_pub_of, k256_shared_of, k256_shared_x,
    k256_valid_pk,
};
use crate::bigint_ops::mod_add;
use crate::bytes::{
    be_nat, copy_bytes, is_zero_bytes, lemma_be_nat_inj, lemma_nat_to_be_val, nat_to_be,
    single_byte, sub_bytes,
};
use crate::engine::{
    is_on_curve, on_curve, scalar_mul, spec_mul, AffinePoint, PointVal,
};
use crate::params::{
    k256_n, k256_n_vec, lemma_params_facts, p384_a, p384_b, p384_gx_bytes, p384_gy_bytes,
    p384_n, p384_n_vec, p384_p, p384_p_vec, p384_params,
};
use crate::rng::{chacha_stream, derive_scalar, find_scalar};
use crate::CryptoError;

verus! {

/// Implemented by types that have a fixed-length byte representation.
pub trait ToBytes: Sized {
    /// The representation invariant under which the type serializes.
    spec fn wf(&self) -> bool;

    /// The byte string that `to_bytes` returns.
    spec fn encode_spec(&self) -> Seq<u8>;

    /// The fixed serialized width.
    spec fn size_spec() -> nat;

    /// Returns the size (in bytes) of this type when serialized.
    fn size() -> (n: usize)
        ensures
            n == Self::size_spec(),
    ;

    /// Serializes the value to exactly `size()` bytes.
    fn to_bytes(&self) -> (r: Vec<u8>)
        requires
            self.wf(),
        ensures
            r@ == self.encode_spec(),
            r@.len() == Self::size_spec(),
    ;
}

/// Implemented by types that can be deserialized from bytes.
pub trait FromBytes: ToBytes {
    /// The byte strings that decode successfully.
    spec fn valid_encoding(b: Seq<u8>) -> bool;

    /// The canonical re-encoding of a valid byte string: what the
    /// decoded value serializes back to.
    spec fn canon(b: Seq<u8>) -> Seq<u8>;

    /// Parses a value, failing with `InvalidEncoding` exactly on the
    /// byte strings that `valid_encoding` rejects.
    fn from_bytes(bytes: &[u8]) -> (r: Result<Self, CryptoError>)
        ensures
            (match r {
                Ok(v) => Self::valid_encoding(bytes@) && v.wf() && v.encode_spec()
                    == Self::canon(bytes@),
                Err(e) => !Self::valid_encoding(bytes@) && e == CryptoError::InvalidEncoding,
            }),
    ;
}

/// An ECDH secp256k1 private key: a canonical non-zero scalar below the
/// group order, kept as 32 big-endian bytes.
#[derive(Clone, Debug)]
pub struct Skk256 {
    /// The canonical 32-byte scalar encoding.
    pub bytes: Vec<u8>,
}

/// An ECDH secp256k1 public key, kept in uncompressed SEC1 form as
/// validated by the audited backend.
#[derive(Clone, Debug)]
pub struct Pkk256 {
    /// The 65-byte uncompressed SEC1 encoding.
    pub bytes: Vec<u8>,
}

/// A computed secp256k1 shared secret: the x-coordinate of the product
/// point, 32 big-endian bytes.
#[derive(Clone, Debug)]
pub struct SharedSecretk256 {
    /// The 32-byte x-coordinate.
    pub bytes: Vec<u8>,
}

impl ToBytes for Skk256 {
    open spec fn wf(&self) -> bool {
        &&& self.bytes@.len() == 32
        &&& 1 <= be_nat(self.bytes@) < k256_n()
    }

    open spec fn encode_spec(&self) -> Seq<u8> {
        self.bytes@
    }

    open spec fn size_spec() -> nat {
        32
    }

    fn size() -> usize {
        32
    }

    fn to_bytes(&self) -> Vec<u8> {
        copy_bytes(&self.bytes)
    }
}

impl FromBytes for Skk256 {
    open spec fn valid_encoding(b: Seq<u8>) -> bool {
        &&& b.len() == 32
        &&& be_nat(b) % k256_n() != 0
    }

    open spec fn canon(b: Seq<u8>) -> Seq<u8> {
        nat_to_be(be_nat(b) % k256_n(), 32)
    }

    fn from_bytes(bytes: &[u8]) -> (r: Result<Self, CryptoError>) {
        proof {
            lemma_params_facts();
        }
        if bytes.len() != 32 {
            return Err(CryptoError::InvalidEncoding);
        }
        let v = vstd::slice::slice_to_vec(bytes);
        let order = k256_n_vec();
        let red = mod_add(&v, &single_byte(0), &order);
        if is_zero_bytes(&red) {
            return Err(CryptoError::InvalidEncoding);
        }
        proof {
            lemma_nat_to_be_val(be_nat(bytes@) % k256_n(), 32);
            lemma_be_nat_inj(red@, nat_to_be(be_nat(bytes@) % k256_n(), 32));
        }
        Ok(Skk256 { bytes: red })
    }
}

impl ToBytes for Pkk256 {
    open spec fn wf(&self) -> bool {
        &&& self.bytes@.len() == 65
        &&& k256_valid_pk(self.bytes@)
        &&& self.bytes@[0] == 4
        &&& k256_on_curve(
            be_nat(self.bytes@.subrange(1, 33)),
            be_nat(self.bytes@.subrange(33, 65)),
        )
    }

    open spec fn encode_spec(&self) -> Seq<u8> {
        self.bytes@
    }

    open spec fn size_spec() -> nat {
        65
    }

    fn size() -> usize {
        65
    }

    fn to_bytes(&self) -> Vec<u8> {
        copy_bytes(&self.bytes)
    }
}

impl FromBytes for Pkk256 {
    open spec fn valid_encoding(b: Seq<u8>) -> bool {
        &&& b.len() == 65
        &&& k256_valid_pk(b)
    }

    open spec fn canon(b: Seq<u8>) -> Seq<u8> {
        b
    }

    fn from_bytes(bytes: &[u8]) -> (r: Result<Self, CryptoError>) {
        if bytes.len() != 65 {
            return Err(CryptoError::InvalidEncoding);
        }
        if !k256_check_pk(bytes) {
            return Err(CryptoError::InvalidEncoding);
        }
        Ok(Pkk256 { bytes: vstd::slice::slice_to_vec(bytes) })
    }
}

impl ToBytes for SharedSecretk256 {
    open spec fn wf(&self) -> bool {
        self.bytes@.len() == 32
    }

    open spec fn encode_spec(&self) -> Seq<u8> {
        self.bytes@
    }

    open spec fn size_spec() -> nat {
        32
    }

    fn size() -> usize {
        32
    }

    fn to_bytes(&self) -> Vec<u8> {
        copy_bytes(&self.bytes)
    }
}

/// The capability set of a key exchange over one curve: derive a
/// private key from a seed, derive the public key, compute the shared
/// secret.
pub trait KeyExchange {
    /// Secret key type.
    type SKey: ToBytes + FromBytes + Clone;

    /// Public key type.
    type PubKey: ToBytes + FromBytes + Clone;

    /// Shared secret type.
    type CompSecret: ToBytes;

    /// How the derived private key relates to the seed: it pins the
    /// key bytes as a function of the seed alone.
    spec fn sk_rel(seed: Seq<u8>, sk: &Self::SKey) -> bool;

    /// How the derived public key relates to the private key.
    spec fn pk_rel(sk: &Self::SKey, pk: &Self::PubKey) -> bool;

    /// Whether the shared-secret computation succeeds for this pair.
    spec fn shared_ok(sk: &Self::SKey, pk: &Self::PubKey) -> bool;

    /// How a computed shared secret relates to the key pair.
    spec fn shared_rel(sk: &Self::SKey, pk: &Self::PubKey, ss: &Self::CompSecret) -> bool;

    /// Derives a private key from a 32-byte seed, deterministically:
    /// equal seeds yield identical keys.
    fn generate_private_key(seed: [u8; 32]) -> (sk: Self::SKey)
        ensures
            sk.wf(),
            Self::sk_rel(seed@, &sk),
    ;

    /// Derives the public key of a private key.
    fn generate_public_key(sk: &Self::SKey) -> (pk: Self::PubKey)
        requires
            sk.wf(),
        ensures
            Self::pk_rel(sk, &pk),
    ;

    /// Computes the shared secret of a private key and a peer public
    /// key; fails with `DomainError` exactly where the product point
    /// degenerates.
    fn generate_shared_secret(sk: &Self::SKey, pk: &Self::PubKey) -> (r: Result<
        Self::CompSecret,
        CryptoError,
    >)
        requires
            sk.wf(),
            pk.wf(),
        ensures
            (match r {
                Ok(ss) => Self::shared_ok(sk, pk) && ss.wf() && Self::shared_rel(sk, pk, &ss),
                Err(e) => !Self::shared_ok(sk, pk) && e == CryptoError::DomainError,
            }),
    ;
}

/// The canonical private-key bytes that a seed derives on secp256k1:
/// the first keystream block with a non-zero residue modulo the order.
pub open spec fn k256_sk_of_seed(seed: Seq<u8>) -> Seq<u8> {
    nat_to_be(find_scalar(chacha_stream(seed, 256), k256_n(), 32, 0), 32)
}

/// The ECDH implementation for secp256k1, backed by the audited curve
/// library.
pub struct ECDHNISTK256;

impl KeyExchange for ECDHNISTK256 {
    type SKey = Skk256;

    type PubKey = Pkk256;

    type CompSecret = SharedSecretk256;

    open spec fn sk_rel(seed: Seq<u8>, sk: &Skk256) -> bool {
        sk.bytes@ == k256_sk_of_seed(seed)
    }

    open spec fn pk_rel(sk: &Skk256, pk: &Pkk256) -> bool {
        &&& pk.bytes@ == k256_pub_of(sk.bytes@)
        &&& pk.wf()
    }

    open spec fn shared_ok(sk: &Skk256, pk: &Pkk256) -> bool {
        true
    }

    open spec fn shared_rel(sk: &Skk256, pk: &Pkk256, ss: &SharedSecretk256) -> bool {
        ss.bytes@ == k256_shared_of(sk.bytes@, pk.bytes@)
    }

    fn generate_private_key(seed: [u8; 32]) -> (sk: Skk256) {
        proof {
            lemma_params_facts();
        }
        let order = k256_n_vec();
        let b = derive_scalar(seed.as_slice(), &order, 32);
        proof {
            lemma_nat_to_be_val(be_nat(b@), 32);
            lemma_be_nat_inj(b@, nat_to_be(be_nat(b@), 32));
        }
        Skk256 { bytes: b }
    }

    fn generate_public_key(sk: &Skk256) -> (pk: Pkk256) {
        Pkk256 { bytes: k256_derive_pub(&sk.bytes) }
    }

    fn generate_shared_secret(sk: &Skk256, pk: &Pkk256) -> (r: Result<
        SharedSecretk256,
        CryptoError,
    >) {
        Ok(SharedSecretk256 { bytes: k256_shared_x(&sk.bytes, &pk.bytes) })
    }
}

/// An ECDH P-384 private key: a scalar in [1, n-1], kept as 48
/// big-endian bytes.
#[derive(Clone, Debug)]
pub struct SkP384 {
    /// The canonical 48-byte scalar encoding.
    pub bytes: Vec<u8>,
}

/// An ECDH P-384 public key: an affine point produced by the verified
/// engine or decoded from uncompressed SEC1 bytes.
#[derive(Clone, Debug)]
pub struct PkP384 {
    /// The affine point.
    pub pt: AffinePoint,
}

/// A computed P-384 shared secret: the x-coordinate of the product
/// point, 48 big-endian bytes.
#[derive(Clone, Debug)]
pub struct SharedSecretP384 {
    /// The 48-byte x-coordinate.
    pub bytes: Vec<u8>,
}

impl ToBytes for SkP384 {
    open spec fn wf(&self) -> bool {
        &&& self.bytes@.len() == 48
        &&& 1 <= be_nat(self.bytes@) < p384_n()
    }

    open spec fn encode_spec(&self) -> Seq<u8> {
        self.bytes@
    }

    open spec fn size_spec() -> nat {
        48
    }

    fn size() -> usize {
        48
    }

    fn to_bytes(&self) -> Vec<u8> {
        copy_bytes(&self.bytes)
    }
}

impl FromBytes for SkP384 {
    open spec fn valid_encoding(b: Seq<u8>) -> bool {
        &&& b.len() == 48
        &&& 1 <= be_nat(b) < p384_n()
    }

    open spec fn canon(b: Seq<u8>) -> Seq<u8> {
        b
    }

    fn from_bytes(bytes: &[u8]) -> (r: Result<Self, CryptoError>) {
        if bytes.len() != 48 {
            return Err(CryptoError::InvalidEncoding);
        }
        let v = vstd::slice::slice_to_vec(bytes);
        if is_zero_bytes(&v) {
            return Err(CryptoError::InvalidEncoding);
        }
        let order = p384_n_vec();
        if !crate::bigint_ops::big_lt(&v, &order) {
            return Err(CryptoError::InvalidEncoding);
        }
        Ok(SkP384 { bytes: v })
    }
}

impl ToBytes for PkP384 {
    open spec fn wf(&self) -> bool {
        &&& self.pt.wf()
        &&& !self.pt.infinity
        &&& on_curve(self.pt.val(), p384_a(), p384_b(), p384_p())
    }

    open spec fn encode_spec(&self) -> Seq<u8> {
        seq![4u8] + self.pt.x@ + self.pt.y@
    }

    open spec fn size_spec() -> nat {
        97
    }

    fn size() -> usize {
        97
    }

    fn to_bytes(&self) -> Vec<u8> {
        let mut out = single_byte(4);
        let mut xs = copy_bytes(&self.pt.x);
        let mut ys = copy_bytes(&self.pt.y);
        out.append(&mut xs);
        out.append(&mut ys);
        out
    }
}

impl FromBytes for PkP384 {
    open spec fn valid_encoding(b: Seq<u8>) -> bool {
        &&& b.len() == 97
        &&& b[0] == 4
        &&& be_nat(b.subrange(1, 49)) < p384_p()
        &&& be_nat(b.subrange(49, 97)) < p384_p()
        &&& on_curve(
            PointVal {
                x: be_nat(b.subrange(1, 49)),
                y: be_nat(b.subrange(49, 97)),
                inf: false,
            },
            p384_a(),
            p384_b(),
            p384_p(),
        )
    }

    open spec fn canon(b: Seq<u8>) -> Seq<u8> {
        b
    }

    fn from_bytes(bytes: &[u8]) -> (r: Result<Self, CryptoError>) {
        if bytes.len() != 97 {
            return Err(CryptoError::InvalidEncoding);
        }
        if *vstd::slice::slice_index_get(bytes, 0) != 4 {
            return Err(CryptoError::InvalidEncoding);
        }
        let xv = sub_bytes(bytes, 1, 49);
        let yv = sub_bytes(bytes, 49, 97);
        let pvec = p384_p_vec();
        if !crate::bigint_ops::big_lt(&xv, &pvec) {
            return Err(CryptoError::InvalidEncoding);
        }
        if !crate::bigint_ops::big_lt(&yv, &pvec) {
            return Err(CryptoError::InvalidEncoding);
        }
        let pt = AffinePoint { x: xv, y: yv, infinity: false };
        let c = p384_params();
        if !is_on_curve(&pt, &c) {
            return Err(CryptoError::InvalidEncoding);
        }
        let v = PkP384 { pt };
        proof {
            assert(v.encode_spec() =~= bytes@);
        }
        Ok(v)
    }
}

impl ToBytes for SharedSecretP384 {
    open spec fn wf(&self) -> bool {
        self.bytes@.len() == 48
    }

    open spec fn encode_spec(&self) -> Seq<u8> {
        self.bytes@
    }

    open spec fn size_spec() -> nat {
        48
    }

    fn size() -> usize {
        48
    }

    fn to_bytes(&self) -> Vec<u8> {
        copy_bytes(&self.bytes)
    }
}

/// The P-384 base point as a value.
pub open spec fn p384_gen() -> PointVal {
    PointVal { x: be_nat(p384_gx_bytes()), y: be_nat(p384_gy_bytes()), inf: false }
}

/// The P-384 base point in executable form.
pub fn p384_generator_point() -> (g: AffinePoint)
    ensures
        g.wf(),
        g.val() == p384_gen(),
        !g.infinity,
{
    proof {
        lemma_params_facts();
    }
    AffinePoint {
        x: crate::params::p384_gx_vec(),
        y: crate::params::p384_gy_vec(),
        infinity: false,
    }
}

/// The canonical private-key bytes that a seed derives on P-384: the
/// first keystream block with a non-zero residue modulo the order.
pub open spec fn p384_sk_of_seed(seed: Seq<u8>) -> Seq<u8> {
    nat_to_be(find_scalar(chacha_stream(seed, 384), p384_n(), 48, 0), 48)
}

/// The ECDH implementation for NIST P-384, backed by the verified
/// affine arithmetic engine.
pub struct ECDHNISTP384;

impl KeyExchange for ECDHNISTP384 {
    type SKey = SkP384;

    type PubKey = PkP384;

    type CompSecret = SharedSecretP384;

    open spec fn sk_rel(seed: Seq<u8>, sk: &SkP384) -> bool {
        sk.bytes@ == p384_sk_of_seed(seed)
    }

    open spec fn pk_rel(sk: &SkP384, pk: &PkP384) -> bool {
        &&& pk.pt.wf()
        &&& pk.pt.val() == spec_mul(be_nat(sk.bytes@), p384_gen(), p384_a(), p384_p())
    }

    open spec fn shared_ok(sk: &SkP384, pk: &PkP384) -> bool {
        !spec_mul(be_nat(sk.bytes@), pk.pt.val(), p384_a(), p384_p()).inf
    }

    open spec fn shared_rel(sk: &SkP384, pk: &PkP384, ss: &SharedSecretP384) -> bool {
        ss.bytes@ == nat_to_be(
            spec_mul(be_nat(sk.bytes@), pk.pt.val(), p384_a(), p384_p()).x,
            48,
        )
    }

    fn generate_private_key(seed: [u8; 32]) -> (sk: SkP384) {
        proof {
            lemma_params_facts();
        }
        let order = p384_n_vec();
        let b = derive_scalar(seed.as_slice(), &order, 48);
        proof {
            lemma_nat_to_be_val(be_nat(b@), 48);
            lemma_be_nat_inj(b@, nat_to_be(be_nat(b@), 48));
        }
        SkP384 { bytes: b }
    }

    fn generate_public_key(sk: &SkP384) -> (pk: PkP384) {
        let c = p384_params();
        let g = p384_generator_point();
        let pt = scalar_mul(&sk.bytes, &g, &c);
        PkP384 { pt }
    }

    fn generate_shared_secret(sk: &SkP384, pk: &PkP384) -> (r: Result<
        SharedSecretP384,
        CryptoError,
    >) {
        proof {
            lemma_params_facts();
        }
        let c = p384_params();
        let pt = scalar_mul(&sk.bytes, &pk.pt, &c);
        if pt.infinity {
            return Err(CryptoError::DomainError);
        }
        let ss = SharedSecretP384 { bytes: copy_bytes(&pt.x) };
        proof {
            lemma_nat_to_be_val(be_nat(pt.x@), 48);
            lemma_be_nat_inj(pt.x@, nat_to_be(be_nat(pt.x@), 48));
        }
        Ok(ss)
    }
}

/// The affine value that an uncompressed SEC1 string denotes.
pub open spec fn p384_peer_val(b: Seq<u8>) -> PointVal {
    PointVal { x: be_nat(b.subrange(1, 49)), y: be_nat(b.subrange(49, 97)), inf: false }
}

/// Derives the uncompressed public-key bytes for a seed on secp256k1.
pub fn k256_public_key_bytes(seed: [u8; 32]) -> (r: Vec<u8>)
    ensures
        r@ == k256_pub_of(k256_sk_of_seed(seed@)),
        r@.len() == 65,
{
    let sk = ECDHNISTK256::generate_private_key(seed);
    let pk = ECDHNISTK256::generate_public_key(&sk);
    pk.to_bytes()
}

/// Runs a whole secp256k1 exchange: decodes the peer key, derives the
/// own key pair from the seed, and returns the x-only shared secret.
pub fn k256_exchange(seed: [u8; 32], peer: &[u8]) -> (r: Result<Vec<u8>, CryptoError>)
    ensures
        (match r {
            Ok(b) => <Pkk256 as FromBytes>::valid_encoding(peer@) && b@ == k256_shared_of(
                k256_sk_of_seed(seed@),
                peer@,
            ) && b@.len() == 32,
            Err(e) => !<Pkk256 as FromBytes>::valid_encoding(peer@) && e
                == CryptoError::InvalidEncoding,
        }),
{
    let pk = match Pkk256::from_bytes(peer) {
        Ok(p) => p,
        Err(e) => {
            return Err(e);
        },
    };
    let sk = ECDHNISTK256::generate_private_key(seed);
    match ECDHNISTK256::generate_shared_secret(&sk, &pk) {
        Ok(ss) => Ok(ss.to_bytes()),
        Err(e) => Err(e),
    }
}

/// Derives the uncompressed public-key bytes for a seed on P-384; the
/// degenerate case of an infinite or off-curve product is rejected.
pub fn p384_public_key_bytes(seed: [u8; 32]) -> (r: Result<Vec<u8>, CryptoError>)
    ensures
        (match r {
            Ok(b) => {
                let kv = spec_mul(
                    be_nat(p384_sk_of_seed(seed@)),
                    p384_gen(),
                    p384_a(),
                    p384_p(),
                );
                &&& !kv.inf
                &&& on_curve(kv, p384_a(), p384_b(), p384_p())
                &&& b@ == seq![4u8] + nat_to_be(kv.x, 48) + nat_to_be(kv.y, 48)
            },
            Err(e) => {
                let kv = spec_mul(
                    be_nat(p384_sk_of_seed(seed@)),
                    p384_gen(),
                    p384_a(),
                    p384_p(),
                );
                &&& (kv.inf || !on_curve(kv, p384_a(), p384_b(), p384_p()))
                &&& e == CryptoError::DomainError
            },
        }),
{
    proof {
        lemma_params_facts();
    }
    let sk = ECDHNISTP384::generate_private_key(seed);
    let pk = ECDHNISTP384::generate_public_key(&sk);
    let c = p384_params();
    if pk.pt.infinity {
        return Err(CryptoError::DomainError);
    }
    if !is_on_curve(&pk.pt, &c) {
        return Err(CryptoError::DomainError);
    }
    proof {
        lemma_nat_to_be_val(be_nat(pk.pt.x@), 48);
        lemma_be_nat_inj(pk.pt.x@, nat_to_be(be_nat(pk.pt.x@), 48));
        lemma_nat_to_be_val(be_nat(pk.pt.y@), 48);
        lemma_be_nat_inj(pk.pt.y@, nat_to_be(be_nat(pk.pt.y@), 48));
    }
    Ok(pk.to_bytes())
}

/// Runs a whole P-384 exchange: decodes and validates the peer key,
/// derives the own key pair from the seed, and returns the x-only
/// shared secret.
pub fn p384_exchange(seed: [u8; 32], peer: &[u8]) -> (r: Result<Vec<u8>, CryptoError>)
    ensures
        (match r {
            Ok(b) => {
                let mv = spec_mul(
                    be_nat(p384_sk_of_seed(seed@)),
                    p384_peer_val(peer@),
                    p384_a(),
                    p384_p(),
                );
                &&& <PkP384 as FromBytes>::valid_encoding(peer@)
                &&& !mv.inf
                &&& b@ == nat_to_be(mv.x, 48)
            },
            Err(e) => {
                let mv = spec_mul(
                    be_nat(p384_sk_of_seed(seed@)),
                    p384_peer_val(peer@),
                    p384_a(),
                    p384_p(),
                );
                ||| (!<PkP384 as FromBytes>::valid_encoding(peer@) && e
                    == CryptoError::InvalidEncoding)
                ||| (<PkP384 as FromBytes>::valid_encoding(peer@) && mv.inf && e
                    == CryptoError::DomainError)
            },
        }),
{
    let pk = match PkP384::from_bytes(peer) {
        Ok(p) => p,
        Err(e) => {
            return Err(e);
        },
    };
    proof {
        assert(seq![4u8] + pk.pt.x@ + pk.pt.y@ == peer@);
        assert(pk.pt.x@ =~= peer@.subrange(1, 49));
        assert(pk.pt.y@ =~= peer@.subrange(49, 97));
    }
    let sk = ECDHNISTP384::generate_private_key(seed);
    match ECDHNISTP384::generate_shared_secret(&sk, &pk) {
        Ok(ss) => Ok(ss.to_bytes()),
        Err(e) => Err(e),
    }
}

/// Round-trip law: a well-formed secp256k1 private key decodes from
/// its own encoding back to the same canonical bytes.
pub proof fn lemma_round_trip_skk256(v: Skk256)
    ensures
        v.wf() ==> <Skk256 as FromBytes>::valid_encoding(v.encode_spec())
            && <Skk256 as FromBytes>::canon(v.encode_spec()) == v.encode_spec(),
{
    if v.wf() {
        lemma_params_facts();
        vstd::arithmetic::div_mod::lemma_small_mod(be_nat(v.bytes@), k256_n());
        lemma_nat_to_be_val(be_nat(v.bytes@), 32);
        lemma_be_nat_inj(v.bytes@, nat_to_be(be_nat(v.bytes@), 32));
    }
}

/// Curve-membership law on secp256k1: every well-formed public key
/// carries the tag 4 and canonical coordinates that satisfy the curve
/// equation y^2 = x^3 + 7.
pub proof fn lemma_pkk256_on_curve(pk: Pkk256)
    ensures
        pk.wf() ==> pk.bytes@[0] == 4 && k256_on_curve(
            be_nat(pk.bytes@.subrange(1, 33)),
            be_nat(pk.bytes@.subrange(33, 65)),
        ),
{
}

/// Round-trip law: a well-formed secp256k1 public key decodes from its
/// own encoding back to the same bytes.
pub proof fn lemma_round_trip_pkk256(v: Pkk256)
    ensures
        v.wf() ==> <Pkk256 as FromBytes>::valid_encoding(v.encode_spec())
            && <Pkk256 as FromBytes>::canon(v.encode_spec()) == v.encode_spec(),
{
}

/// Round-trip law: a well-formed P-384 private key decodes from its
/// own encoding back to the same bytes.
pub proof fn lemma_round_trip_skp384(v: SkP384)
    ensures
        v.wf() ==> <SkP384 as FromBytes>::valid_encoding(v.encode_spec())
            && <SkP384 as FromBytes>::canon(v.encode_spec()) == v.encode_spec(),
{
}

/// Round-trip law: a well-formed P-384 public key decodes from its own
/// encoding back to the same bytes.
pub proof fn lemma_round_trip_pkp384(v: PkP384)
    ensures
        v.wf() ==> <PkP384 as FromBytes>::valid_encoding(v.encode_spec())
            && <PkP384 as FromBytes>::canon(v.encode_spec()) == v.encode_spec(),
{
    if v.wf() {
        let b = v.encode_spec();
        assert(b.subrange(1, 49) =~= v.pt.x@);
        assert(b.subrange(49, 97) =~= v.pt.y@);
        assert(p384_peer_val(b) == v.pt.val());
    }
}

/// Determinism law on secp256k1: the derived private key is a pure
/// function of the seed, and the derived public key is a pure function
/// of the private key.
pub proof fn lemma_kx_deterministic_k256(
    seed: Seq<u8>,
    sk1: Skk256,
    sk2: Skk256,
    pk1: Pkk256,
    pk2: Pkk256,
)
    ensures
        <ECDHNISTK256 as KeyExchange>::sk_rel(seed, &sk1)
            && <ECDHNISTK256 as KeyExchange>::sk_rel(seed, &sk2) ==> sk1.bytes@ == sk2.bytes@,
        sk1.bytes@ == sk2.bytes@ && <ECDHNISTK256 as KeyExchange>::pk_rel(&sk1, &pk1)
            && <ECDHNISTK256 as KeyExchange>::pk_rel(&sk2, &pk2) ==> pk1.bytes@ == pk2.bytes@,
{
}

/// Determinism law on P-384: the derived private key is a pure
/// function of the seed, and the derived public key is a pure function
/// of the private key, down to its byte representation.
pub proof fn lemma_kx_deterministic_p384(
    seed: Seq<u8>,
    sk1: SkP384,
    sk2: SkP384,
    pk1: PkP384,
    pk2: PkP384,
)
    ensures
        <ECDHNISTP384 as KeyExchange>::sk_rel(seed, &sk1)
            && <ECDHNISTP384 as KeyExchange>::sk_rel(seed, &sk2) ==> sk1.bytes@ == sk2.bytes@,
        sk1.bytes@ == sk2.bytes@ && <ECDHNISTP384 as KeyExchange>::pk_rel(&sk1, &pk1)
            && <ECDHNISTP384 as KeyExchange>::pk_rel(&sk2, &pk2) ==> pk1.pt.x@ == pk2.pt.x@
            && pk1.pt.y@ == pk2.pt.y@ && pk1.pt.infinity == pk2.pt.infinity,
{
    if sk1.bytes@ == sk2.bytes@ && <ECDHNISTP384 as KeyExchange>::pk_rel(&sk1, &pk1)
        && <ECDHNISTP384 as KeyExchange>::pk_rel(&sk2, &pk2) {
        lemma_be_nat_inj(pk1.pt.x@, pk2.pt.x@);
        lemma_be_nat_inj(pk1.pt.y@, pk2.pt.y@);
    }
}

} // verus!
