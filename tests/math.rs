use amm_core::Math;
use num_bigint::BigUint;

fn isqrt(n: u64) -> BigUint {
    Math::sqrt(BigUint::from(n))
}

fn is_floor_sqrt(n: &BigUint, r: &BigUint) -> bool {
    let r1 = r + 1u32;
    r * r <= *n && *n < &r1 * &r1
}

#[test]
fn sqrt_small_values() {
    assert_eq!(isqrt(0), BigUint::from(0u32));
    assert_eq!(isqrt(1), BigUint::from(1u32));
    assert_eq!(isqrt(2), BigUint::from(1u32));
    assert_eq!(isqrt(3), BigUint::from(1u32));
    assert_eq!(isqrt(4), BigUint::from(2u32));
    assert_eq!(isqrt(8), BigUint::from(2u32));
    assert_eq!(isqrt(9), BigUint::from(3u32));
}

#[test]
fn sqrt_of_a_million() {
    assert_eq!(isqrt(1_000_000), BigUint::from(1000u32));
    assert_eq!(isqrt(999_999), BigUint::from(999u32));
}

#[test]
fn sqrt_bounds_hold_on_sample_values() {
    for n in [0u64, 1, 2, 3, 4, 5, 15, 16, 17, 1_000_000, u64::MAX] {
        let big = BigUint::from(n);
        let r = Math::sqrt(big.clone());
        assert!(is_floor_sqrt(&big, &r));
    }
}

#[test]
fn sqrt_of_256_bit_value() {
    let bytes: Vec<u8> = (0u8..32).map(|i| i.wrapping_mul(97).wrapping_add(13)).collect();
    let n = BigUint::from_bytes_le(&bytes);
    assert_eq!(n.bits(), 256);
    let r = Math::sqrt(n.clone());
    assert!(is_floor_sqrt(&n, &r));
}

#[test]
fn sqrt_of_perfect_square_and_neighbour() {
    let x = BigUint::from(u128::MAX) - 12345u32;
    let sq = &x * &x;
    assert_eq!(Math::sqrt(sq.clone()), x);
    assert_eq!(Math::sqrt(sq - 1u32), x - 1u32);
}

#[test]
fn sqrt_prices_first_deposit_shares() {
    let product = BigUint::from(5_000u64) * BigUint::from(20_000u64);
    assert_eq!(Math::sqrt(product), BigUint::from(10_000u32));
}

#[test]
fn sqrt_is_deterministic() {
    let n = BigUint::from(123_456_789_012_345u64);
    assert_eq!(Math::sqrt(n.clone()), Math::sqrt(n));
}
