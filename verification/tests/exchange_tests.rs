use ec_crypto::exchange::{
    ECDHNISTK256, ECDHNISTP384, FromBytes, KeyExchange, Pkk256, PkP384, Skk256, ToBytes,
    k256_exchange, k256_public_key_bytes, p384_exchange, p384_public_key_bytes,
};

#[test]
fn ecdh_symmetry_k256() {
    let seed_a = [11u8; 32];
    let seed_b = [22u8; 32];
    let pk_a = k256_public_key_bytes(seed_a);
    let pk_b = k256_public_key_bytes(seed_b);
    let ss_ab = k256_exchange(seed_a, &pk_b).unwrap();
    let ss_ba = k256_exchange(seed_b, &pk_a).unwrap();
    assert_eq!(ss_ab, ss_ba);
    assert_eq!(ss_ab.len(), 32);
}

#[test]
fn ecdh_symmetry_p384() {
    let seed_a = [33u8; 32];
    let seed_b = [44u8; 32];
    let pk_a = p384_public_key_bytes(seed_a).unwrap();
    let pk_b = p384_public_key_bytes(seed_b).unwrap();
    let ss_ab = p384_exchange(seed_a, &pk_b).unwrap();
    let ss_ba = p384_exchange(seed_b, &pk_a).unwrap();
    assert_eq!(ss_ab, ss_ba);
    assert_eq!(ss_ab.len(), 48);
}

#[test]
fn private_key_derivation_is_deterministic() {
    let seed = [7u8; 32];
    let sk1 = ECDHNISTK256::generate_private_key(seed);
    let sk2 = ECDHNISTK256::generate_private_key(seed);
    assert_eq!(sk1.to_bytes(), sk2.to_bytes());
    let pk1 = ECDHNISTK256::generate_public_key(&sk1);
    let pk2 = ECDHNISTK256::generate_public_key(&sk2);
    assert_eq!(pk1.to_bytes(), pk2.to_bytes());

    let sk3 = ECDHNISTP384::generate_private_key(seed);
    let sk4 = ECDHNISTP384::generate_private_key(seed);
    assert_eq!(sk3.to_bytes(), sk4.to_bytes());
    assert_eq!(p384_public_key_bytes(seed).unwrap(), p384_public_key_bytes(seed).unwrap());

    // a different seed yields a different key
    let sk5 = ECDHNISTK256::generate_private_key([8u8; 32]);
    assert_ne!(sk1.to_bytes(), sk5.to_bytes());
}

#[test]
fn k256_scalar_one_gives_generator() {
    // the private key 1 must map to the secp256k1 base point
    let mut one = vec![0u8; 32];
    one[31] = 1;
    let sk = Skk256::from_bytes(&one).unwrap();
    let pk = ECDHNISTK256::generate_public_key(&sk);
    let gen_uncompressed: Vec<u8> = {
        let gx = [
            0x79u8, 0xbe, 0x66, 0x7e, 0xf9, 0xdc, 0xbb, 0xac, 0x55, 0xa0, 0x62, 0x95, 0xce,
            0x87, 0x0b, 0x07, 0x02, 0x9b, 0xfc, 0xdb, 0x2d, 0xce, 0x28, 0xd9, 0x59, 0xf2,
            0x81, 0x5b, 0x16, 0xf8, 0x17, 0x98,
        ];
        let gy = [
            0x48u8, 0x3a, 0xda, 0x77, 0x26, 0xa3, 0xc4, 0x65, 0x5d, 0xa4, 0xfb, 0xfc, 0x0e,
            0x11, 0x08, 0xa8, 0xfd, 0x17, 0xb4, 0x48, 0xa6, 0x85, 0x54, 0x19, 0x9c, 0x47,
            0xd0, 0x8f, 0xfb, 0x10, 0xd4, 0xb8,
        ];
        let mut v = vec![4u8];
        v.extend_from_slice(&gx);
        v.extend_from_slice(&gy);
        v
    };
    assert_eq!(pk.to_bytes(), gen_uncompressed);
}

#[test]
fn exchange_rejects_invalid_peer() {
    let seed = [1u8; 32];
    assert!(k256_exchange(seed, &[0u8; 65]).is_err());
    assert!(k256_exchange(seed, &[4u8; 12]).is_err());
    assert!(p384_exchange(seed, &[0u8; 97]).is_err());
    let mut junk = vec![0xabu8; 97];
    junk[0] = 4;
    assert!(p384_exchange(seed, &junk).is_err());
}

#[test]
fn p384_exchange_matches_trait_path() {
    let seed_a = [51u8; 32];
    let seed_b = [52u8; 32];
    let pk_b_bytes = p384_public_key_bytes(seed_b).unwrap();
    let pk_b = PkP384::from_bytes(&pk_b_bytes).unwrap();
    let sk_a = ECDHNISTP384::generate_private_key(seed_a);
    let ss = ECDHNISTP384::generate_shared_secret(&sk_a, &pk_b).unwrap();
    assert_eq!(ss.to_bytes(), p384_exchange(seed_a, &pk_b_bytes).unwrap());
}

#[test]
fn k256_exchange_matches_trait_path() {
    let seed_a = [61u8; 32];
    let seed_b = [62u8; 32];
    let pk_b_bytes = k256_public_key_bytes(seed_b);
    let pk_b = Pkk256::from_bytes(&pk_b_bytes).unwrap();
    let sk_a = ECDHNISTK256::generate_private_key(seed_a);
    let ss = ECDHNISTK256::generate_shared_secret(&sk_a, &pk_b).unwrap();
    assert_eq!(ss.to_bytes(), k256_exchange(seed_a, &pk_b_bytes).unwrap());
}
