use vstd::prelude::*;

pub mod backend_k256;
pub mod bigint_ops;
pub mod bytes;
pub mod engine;
pub mod exchange;
pub mod hashes;
pub mod params;
pub mod rng;
pub mod signatures;

verus! {

/// Failures that the key-exchange, codec and signature layers report.
#[derive(Clone, Copy, PartialEq, Eq, Structural, Debug)]
pub enum CryptoError {
    /// Wrong byte length, malformed tag, a point off the curve, or an
    /// attempt to decode the point at infinity.
    InvalidEncoding,
    /// Verification failed structurally, or sign/verify received a
    /// signature component outside the valid scalar range.
    SignatureError,
    /// A computed group element degenerated (for instance a shared
    /// secret that would be the point at infinity).
    DomainError,
}

} // verus!
