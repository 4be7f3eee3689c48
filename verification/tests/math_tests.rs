use hero_dex::math::sqrt;

#[test]
fn sqrt_exact_values() {
    assert_eq!(sqrt(0), 0);
    assert_eq!(sqrt(1), 1);
    assert_eq!(sqrt(3), 1);
    assert_eq!(sqrt(4), 2);
    assert_eq!(sqrt(999_999), 999);
    assert_eq!(sqrt(1_000_000), 1000);
    assert_eq!(sqrt(1_001_000_000_000), 1_000_499);
}

#[test]
fn sqrt_of_max_is_largest_root() {
    assert_eq!(sqrt(u128::MAX), (1u128 << 64) - 1);
}
