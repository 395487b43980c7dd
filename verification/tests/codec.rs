use ec_crypto::exchange::{
    ECDHNISTK256, ECDHNISTP384, FromBytes, KeyExchange, Pkk256, PkP384, Skk256, SkP384, ToBytes,
    k256_public_key_bytes, p384_public_key_bytes,
};
use ec_crypto::CryptoError;

fn seed_of(b: u8) -> [u8; 32] {
    [b; 32]
}

#[test]
fn skk256_round_trip() {
    let mut raw = vec![0u8; 32];
    raw[31] = 7;
    let sk = Skk256::from_bytes(&raw).unwrap();
    let enc = sk.to_bytes();
    assert_eq!(enc, raw);
    let sk2 = Skk256::from_bytes(&enc).unwrap();
    assert_eq!(sk2.to_bytes(), enc);
}

#[test]
fn skk256_rejects_wrong_length() {
    assert!(matches!(Skk256::from_bytes(&[1u8; 31]), Err(CryptoError::InvalidEncoding)));
    assert!(matches!(Skk256::from_bytes(&[1u8; 33]), Err(CryptoError::InvalidEncoding)));
}

#[test]
fn skk256_rejects_zero() {
    assert!(matches!(Skk256::from_bytes(&[0u8; 32]), Err(CryptoError::InvalidEncoding)));
}

#[test]
fn skk256_reduces_modulo_order() {
    // the secp256k1 group order, then one above it
    let mut order = vec![
        0xffu8, 0xff, 0xff, 0xff, 0xff, 0xff, 0xff, 0xff, 0xff, 0xff, 0xff, 0xff, 0xff, 0xff,
        0xff, 0xfe, 0xba, 0xae, 0xdc, 0xe6, 0xaf, 0x48, 0xa0, 0x3b, 0xbf, 0xd2, 0x5e, 0x8c,
        0xd0, 0x36, 0x41, 0x41,
    ];
    // the order itself reduces to zero and is rejected
    assert!(matches!(Skk256::from_bytes(&order), Err(CryptoError::InvalidEncoding)));
    // one above the order reduces to the scalar 1
    order[31] = 0x42;
    let sk = Skk256::from_bytes(&order).unwrap();
    let mut one = vec![0u8; 32];
    one[31] = 1;
    assert_eq!(sk.to_bytes(), one);
}

#[test]
fn pkk256_round_trip() {
    let pk_bytes = k256_public_key_bytes(seed_of(3));
    assert_eq!(pk_bytes.len(), 65);
    let pk = Pkk256::from_bytes(&pk_bytes).unwrap();
    assert_eq!(pk.to_bytes(), pk_bytes);
}

#[test]
fn pkk256_rejects_bad_bytes() {
    assert!(matches!(Pkk256::from_bytes(&[4u8; 10]), Err(CryptoError::InvalidEncoding)));
    // correct length, but not a curve point
    let mut junk = vec![0xffu8; 65];
    junk[0] = 4;
    assert!(matches!(Pkk256::from_bytes(&junk), Err(CryptoError::InvalidEncoding)));
}

#[test]
fn skp384_round_trip() {
    let sk = ECDHNISTP384::generate_private_key(seed_of(9));
    let enc = sk.to_bytes();
    assert_eq!(enc.len(), 48);
    let sk2 = SkP384::from_bytes(&enc).unwrap();
    assert_eq!(sk2.to_bytes(), enc);
}

#[test]
fn skp384_rejects_invalid() {
    assert!(matches!(SkP384::from_bytes(&[0u8; 48]), Err(CryptoError::InvalidEncoding)));
    assert!(matches!(SkP384::from_bytes(&[0xffu8; 48]), Err(CryptoError::InvalidEncoding)));
    assert!(matches!(SkP384::from_bytes(&[1u8; 47]), Err(CryptoError::InvalidEncoding)));
}

#[test]
fn pkp384_round_trip() {
    let pk_bytes = p384_public_key_bytes(seed_of(5)).unwrap();
    assert_eq!(pk_bytes.len(), 97);
    assert_eq!(pk_bytes[0], 4);
    let pk = PkP384::from_bytes(&pk_bytes).unwrap();
    assert_eq!(pk.to_bytes(), pk_bytes);
}

#[test]
fn pkp384_rejects_tampered_point() {
    let mut pk_bytes = p384_public_key_bytes(seed_of(5)).unwrap();
    // flipping one coordinate byte leaves the curve
    pk_bytes[20] ^= 1;
    assert!(matches!(PkP384::from_bytes(&pk_bytes), Err(CryptoError::InvalidEncoding)));
}

#[test]
fn pkp384_rejects_bad_tag_and_length() {
    let mut pk_bytes = p384_public_key_bytes(seed_of(5)).unwrap();
    pk_bytes[0] = 2;
    assert!(matches!(PkP384::from_bytes(&pk_bytes), Err(CryptoError::InvalidEncoding)));
    assert!(matches!(PkP384::from_bytes(&[4u8; 96]), Err(CryptoError::InvalidEncoding)));
}

#[test]
fn serialized_sizes_are_fixed() {
    assert_eq!(Skk256::size(), 32);
    assert_eq!(Pkk256::size(), 65);
    assert_eq!(SkP384::size(), 48);
    assert_eq!(PkP384::size(), 97);
    let sk = ECDHNISTK256::generate_private_key(seed_of(1));
    assert_eq!(sk.to_bytes().len(), 32);
}
