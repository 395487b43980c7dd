use ec_crypto::engine::{is_on_curve, point_add, point_double, scalar_mul};
use ec_crypto::exchange::p384_generator_point;
use ec_crypto::params::{p384_n_vec, p384_p_vec, p384_params};

fn scalar48(v: u8) -> Vec<u8> {
    let mut k = vec![0u8; 48];
    k[47] = v;
    k
}

#[test]
fn zero_times_any_point_is_infinity() {
    let c = p384_params();
    let g = p384_generator_point();
    let r = scalar_mul(&vec![0u8; 48], &g, &c);
    assert!(r.infinity);
}

#[test]
fn order_times_generator_is_infinity() {
    let c = p384_params();
    let g = p384_generator_point();
    let n = p384_n_vec();
    let r = scalar_mul(&n, &g, &c);
    assert!(r.infinity);
}

#[test]
fn order_minus_one_negates_generator() {
    let c = p384_params();
    let g = p384_generator_point();
    let n = p384_n_vec();
    let mut nm1 = n.clone();
    nm1[47] -= 1; // the order ends 0x73, so no borrow
    let r = scalar_mul(&nm1, &g, &c);
    assert!(!r.infinity);
    assert_eq!(r.x, g.x);
    // y' = p - gy
    let p = num_bigint_dig::BigUint::from_bytes_be(&p384_p_vec());
    let gy = num_bigint_dig::BigUint::from_bytes_be(&g.y);
    let expect = (p - gy).to_bytes_be();
    assert_eq!(r.y, expect);
}

#[test]
fn one_times_generator_is_generator() {
    let c = p384_params();
    let g = p384_generator_point();
    let r = scalar_mul(&scalar48(1), &g, &c);
    assert!(!r.infinity);
    assert_eq!(r.x, g.x);
    assert_eq!(r.y, g.y);
}

#[test]
fn generator_is_on_curve() {
    let c = p384_params();
    let g = p384_generator_point();
    assert!(is_on_curve(&g, &c));
}

#[test]
fn arithmetic_results_stay_on_curve() {
    let c = p384_params();
    let g = p384_generator_point();
    let d = point_double(&g, &c);
    assert!(!d.infinity);
    assert!(is_on_curve(&d, &c));
    let t = point_add(&d, &g, &c);
    assert!(!t.infinity);
    assert!(is_on_curve(&t, &c));
    let m = scalar_mul(&scalar48(5), &g, &c);
    assert!(!m.infinity);
    assert!(is_on_curve(&m, &c));
    let big = scalar_mul(&vec![0x5au8; 48], &g, &c);
    assert!(is_on_curve(&big, &c));
}

#[test]
fn double_matches_scalar_two() {
    let c = p384_params();
    let g = p384_generator_point();
    let d = point_double(&g, &c);
    let two_g = scalar_mul(&scalar48(2), &g, &c);
    assert_eq!(d.x, two_g.x);
    assert_eq!(d.y, two_g.y);
    assert_eq!(d.infinity, two_g.infinity);
    // adding the generator to itself takes the doubling path
    let s = point_add(&g, &g, &c);
    assert_eq!(s.x, d.x);
    assert_eq!(s.y, d.y);
}

#[test]
fn addition_laws_hold_for_infinity() {
    let c = p384_params();
    let g = p384_generator_point();
    let inf = scalar_mul(&vec![0u8; 48], &g, &c);
    let left = point_add(&inf, &g, &c);
    assert_eq!(left.x, g.x);
    assert_eq!(left.y, g.y);
    assert!(!left.infinity);
    let both = point_add(&inf, &inf, &c);
    assert!(both.infinity);
}

#[test]
fn scalar_mul_is_additive_on_small_scalars() {
    // 3G + 2G == 5G: a group-law consistency check on the engine
    let c = p384_params();
    let g = p384_generator_point();
    let g2 = scalar_mul(&scalar48(2), &g, &c);
    let g3 = scalar_mul(&scalar48(3), &g, &c);
    let g5 = scalar_mul(&scalar48(5), &g, &c);
    let sum = point_add(&g3, &g2, &c);
    assert_eq!(sum.x, g5.x);
    assert_eq!(sum.y, g5.y);
}
