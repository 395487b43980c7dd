use ec_crypto::signatures::{ECDSASHA256Signature, ECSignature};

// The all-zero seed must deterministically yield one fixed key pair on
// secp256k1; signing "test" under it verifies, and verifying under an
// independently generated key fails.
#[test]
fn zero_seed_scenario_secp256k1() {
    let mut kp = ECDSASHA256Signature(vec![], vec![]);
    kp.generate_keypair([0u8; 32]);

    let expected_sk: Vec<u8> = vec![0x76, 0xb8, 0xe0, 0xad, 0xa0, 0xf1, 0x3d, 0x90, 0x40, 0x5d, 0x6a, 0xe5, 0x53, 0x86, 0xbd, 0x28, 0xbd, 0xd2, 0x19, 0xb8, 0xa0, 0x8d, 0xed, 0x1a, 0xa8, 0x36, 0xef, 0xcc, 0x8b, 0x77, 0x0d, 0xc7];
    let expected_vk: Vec<u8> = vec![
        0x9b, 0x83, 0x27, 0xd9, 0x29, 0xa0, 0xe4, 0x52, 0x85, 0xc0, 0x4d, 0x19, 0xc9, 0xff,
        0xfb, 0xee, 0x06, 0x5c, 0x26, 0x6b, 0x70, 0x19, 0x72, 0x92, 0x2d, 0x80, 0x72, 0x28,
        0x12, 0x0e, 0x43, 0xf3, 0x4a, 0xd6, 0x8a, 0xc7, 0x7f, 0x6e, 0xc0, 0x20, 0x5f, 0xe3,
        0x9f, 0x7c, 0x5b, 0x60, 0x55, 0xda, 0xd9, 0x73, 0xa0, 0x34, 0x64, 0xa3, 0xa7, 0x43,
        0x30, 0x2d, 0xe0, 0xfe, 0xaf, 0x6e, 0xc6, 0xd9,
    ];
    assert_eq!(kp.0, expected_sk);
    assert_eq!(kp.1, expected_vk);

    let sig = kp.sign(b"test").unwrap();
    assert_eq!(kp.verify(b"test", &sig).unwrap(), true);

    let mut other = ECDSASHA256Signature(vec![], vec![]);
    other.generate_keypair([1u8; 32]);
    assert_eq!(other.verify(b"test", &sig).unwrap(), false);
}

// Repeating the run gives bit-identical results.
#[test]
fn zero_seed_scenario_repeats() {
    let mut kp1 = ECDSASHA256Signature(vec![], vec![]);
    let mut kp2 = ECDSASHA256Signature(vec![], vec![]);
    kp1.generate_keypair([0u8; 32]);
    kp2.generate_keypair([0u8; 32]);
    assert_eq!(kp1.0, kp2.0);
    assert_eq!(kp1.1, kp2.1);
    assert_eq!(kp1.sign(b"test").unwrap(), kp2.sign(b"test").unwrap());
}
