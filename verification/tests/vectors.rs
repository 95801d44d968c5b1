//! Fixed-point vector and scalar arithmetic.

use boids::math::{isqrt, mul_div};
use boids::vec2::Vec2;

#[test]
fn isqrt_small_values() {
    assert_eq!(isqrt(0), 0);
    assert_eq!(isqrt(1), 1);
    assert_eq!(isqrt(2), 1);
    assert_eq!(isqrt(3), 1);
    assert_eq!(isqrt(4), 2);
    assert_eq!(isqrt(10), 3);
    assert_eq!(isqrt(99), 9);
    assert_eq!(isqrt(100), 10);
}

#[test]
fn isqrt_large_values() {
    assert_eq!(isqrt(1_000_000_000_000), 1_000_000);
    assert_eq!(isqrt((1u128 << 40) - 1), (1u64 << 20) - 1);
    assert_eq!(isqrt(1u128 << 40), 1u64 << 20);
}

#[test]
fn mul_div_truncates_toward_zero() {
    assert_eq!(mul_div(7, 3, 2), 10);
    assert_eq!(mul_div(-7, 3, 2), -10);
    assert_eq!(mul_div(7, -3, 2), -10);
    assert_eq!(mul_div(-7, -3, 2), 10);
    assert_eq!(mul_div(0, 5, 9), 0);
    assert_eq!(mul_div(1, 1, 2), 0);
    assert_eq!(mul_div(-1, 1, 2), 0);
}

#[test]
fn magnitude_of_pythagorean_vector() {
    assert_eq!(Vec2::new(3, 4).mag(), 5);
    assert_eq!(Vec2::new(-3, 4).mag(), 5);
    assert_eq!(Vec2::new(3000, 4000).mag(), 5000);
    assert_eq!(Vec2::new(0, 0).mag(), 0);
    assert_eq!(Vec2::new(10, 0).mag(), 10);
}

#[test]
fn normalize_scales_to_unit() {
    assert_eq!(Vec2::new(3000, 4000).normalize(), Vec2::new(600, 800));
    assert_eq!(Vec2::new(5, 0).normalize(), Vec2::new(1000, 0));
    assert_eq!(Vec2::new(0, -70000).normalize(), Vec2::new(0, -1000));
    // zero-safe: the zero vector maps to the zero vector
    assert_eq!(Vec2::new(0, 0).normalize(), Vec2::new(0, 0));
}

#[test]
fn clamp_len_max_caps_long_vectors() {
    // already inside the cap: unchanged
    assert_eq!(Vec2::new(300, 400).clamp_len_max(500), Vec2::new(300, 400));
    // too long: scaled down onto the cap
    assert_eq!(Vec2::new(1000, 0).clamp_len_max(500), Vec2::new(500, 0));
    assert_eq!(Vec2::new(3000, 4000).clamp_len_max(500), Vec2::new(300, 400));
    let clamped = Vec2::new(123_456, -654_321).clamp_len_max(700);
    assert!(clamped.mag() <= 700);
}

#[test]
fn clamp_len_range_enforces_both_bounds() {
    // too slow: scaled up onto the floor
    assert_eq!(Vec2::new(1, 0).clamp_len_range(3000, 6000), Vec2::new(3000, 0));
    // too fast: scaled down onto the ceiling
    assert_eq!(Vec2::new(0, 12000).clamp_len_range(3000, 6000), Vec2::new(0, 6000));
    // inside the band: unchanged
    assert_eq!(Vec2::new(3000, 3000).clamp_len_range(3000, 6000), Vec2::new(3000, 3000));
    // the zero vector has no direction: it becomes the reference direction
    assert_eq!(Vec2::new(0, 0).clamp_len_range(3000, 6000), Vec2::new(3000, 0));
    let v = Vec2::new(1, 1).clamp_len_range(3000, 6000);
    let m = v.mag();
    assert!(3000 <= m && m <= 6000);
}

#[test]
fn dot_product() {
    assert_eq!(Vec2::new(1000, 0).dot(Vec2::new(1000, 0)), 1_000_000);
    assert_eq!(Vec2::new(1000, 0).dot(Vec2::new(-1000, 0)), -1_000_000);
    assert_eq!(Vec2::new(1000, 0).dot(Vec2::new(0, 1000)), 0);
}
