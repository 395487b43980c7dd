use ec_crypto::signatures::{ECDSASHA256Signature, ECDSASHA384Signature, ECSignature};
use ec_crypto::CryptoError;

#[test]
fn sign_verify_round_trip_sha256() {
    let mut kp = ECDSASHA256Signature(vec![], vec![]);
    kp.generate_keypair([42u8; 32]);
    let msg = b"a signed message";
    let sig = kp.sign(msg).unwrap();
    assert_eq!(sig.len(), 64);
    assert_eq!(kp.verify(msg, &sig).unwrap(), true);
}

#[test]
fn tampering_breaks_sha256_signature() {
    let mut kp = ECDSASHA256Signature(vec![], vec![]);
    kp.generate_keypair([42u8; 32]);
    let msg = b"a signed message";
    let sig = kp.sign(msg).unwrap();
    // flip a message bit
    assert_eq!(kp.verify(b"a signed messagf", &sig).unwrap(), false);
    // flip a signature bit
    let mut bad = sig.clone();
    bad[10] ^= 1;
    match kp.verify(msg, &bad) {
        Ok(v) => assert!(!v),
        Err(e) => assert_eq!(e, CryptoError::SignatureError),
    }
}

#[test]
fn sha256_signing_is_deterministic() {
    let mut kp1 = ECDSASHA256Signature(vec![], vec![]);
    let mut kp2 = ECDSASHA256Signature(vec![], vec![]);
    kp1.generate_keypair([5u8; 32]);
    kp2.generate_keypair([5u8; 32]);
    assert_eq!(kp1.0, kp2.0);
    assert_eq!(kp1.1, kp2.1);
    assert_eq!(kp1.sign(b"m").unwrap(), kp2.sign(b"m").unwrap());
}

#[test]
fn sha256_rejects_malformed_signature() {
    let mut kp = ECDSASHA256Signature(vec![], vec![]);
    kp.generate_keypair([42u8; 32]);
    // r = s = 0 is outside [1, n-1]
    assert!(matches!(kp.verify(b"m", &[0u8; 64]), Err(CryptoError::SignatureError)));
    assert!(matches!(kp.verify(b"m", &[1u8; 63]), Err(CryptoError::SignatureError)));
}

#[test]
fn sha256_component_accessors_split_signature() {
    let mut kp = ECDSASHA256Signature(vec![], vec![]);
    kp.generate_keypair([42u8; 32]);
    let sig = kp.sign(b"split me").unwrap();
    let r = ECDSASHA256Signature::r(sig.clone());
    let s = ECDSASHA256Signature::s(sig.clone());
    assert_eq!(r.len(), 32);
    assert_eq!(s.len(), 32);
    let mut joined = r.clone();
    joined.extend_from_slice(&s);
    assert_eq!(joined, sig);
}

#[test]
fn sign_verify_round_trip_sha384() {
    let mut kp = ECDSASHA384Signature(vec![], ec_crypto::engine::infinity_point());
    kp.generate_keypair([9u8; 32]);
    let msg = b"engine-backed signature";
    let sig = kp.sign(msg).unwrap();
    assert_eq!(sig.len(), 96);
    assert_eq!(kp.verify(msg, &sig).unwrap(), true);
}

#[test]
fn tampering_breaks_sha384_signature() {
    let mut kp = ECDSASHA384Signature(vec![], ec_crypto::engine::infinity_point());
    kp.generate_keypair([9u8; 32]);
    let msg = b"engine-backed signature";
    let sig = kp.sign(msg).unwrap();
    assert_eq!(kp.verify(b"engine-backed signaturf", &sig).unwrap(), false);
    let mut bad = sig.clone();
    bad[70] ^= 4;
    match kp.verify(msg, &bad) {
        Ok(v) => assert!(!v),
        Err(e) => assert_eq!(e, CryptoError::SignatureError),
    }
    // a wrong key pair must not verify
    let mut other = ECDSASHA384Signature(vec![], ec_crypto::engine::infinity_point());
    other.generate_keypair([10u8; 32]);
    assert_eq!(other.verify(msg, &sig).unwrap(), false);
}

#[test]
fn sha384_rejects_out_of_range_components() {
    let mut kp = ECDSASHA384Signature(vec![], ec_crypto::engine::infinity_point());
    kp.generate_keypair([9u8; 32]);
    assert!(matches!(kp.verify(b"m", &[0u8; 96]), Err(CryptoError::SignatureError)));
    assert!(matches!(kp.verify(b"m", &[0xffu8; 96]), Err(CryptoError::SignatureError)));
    assert!(matches!(kp.verify(b"m", &[1u8; 95]), Err(CryptoError::SignatureError)));
}

#[test]
fn sha384_component_accessors_split_signature() {
    let mut kp = ECDSASHA384Signature(vec![], ec_crypto::engine::infinity_point());
    kp.generate_keypair([9u8; 32]);
    let sig = kp.sign(b"split me too").unwrap();
    let r = ECDSASHA384Signature::r(sig.clone());
    let s = ECDSASHA384Signature::s(sig.clone());
    assert_eq!(r.len(), 48);
    assert_eq!(s.len(), 48);
    let mut joined = r.clone();
    joined.extend_from_slice(&s);
    assert_eq!(joined, sig);
}

#[test]
fn sha384_signing_is_deterministic() {
    let mut kp1 = ECDSASHA384Signature(vec![], ec_crypto::engine::infinity_point());
    let mut kp2 = ECDSASHA384Signature(vec![], ec_crypto::engine::infinity_point());
    kp1.generate_keypair([77u8; 32]);
    kp2.generate_keypair([77u8; 32]);
    assert_eq!(kp1.0, kp2.0);
    assert_eq!(kp1.sign(b"same").unwrap(), kp2.sign(b"same").unwrap());
}
