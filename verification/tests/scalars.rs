//! Fixed-point arithmetic and spatial-dimension helpers.

use mri::fixed::{Fix, FIX_SCALE};
use mri::SpatialDims;

#[test]
fn fix_constants() {
    assert_eq!(FIX_SCALE, 1_000_000);
    assert_eq!(Fix::zero(), Fix(0));
    assert_eq!(Fix::one(), Fix(1_000_000));
}

#[test]
fn fix_add_sub_neg() {
    assert_eq!(Fix(2_500_000).add(Fix(1_500_000)), Some(Fix(4_000_000)));
    assert_eq!(Fix(2_500_000).sub(Fix(4_000_000)), Some(Fix(-1_500_000)));
    assert_eq!(Fix(-3_000_000).neg(), Some(Fix(3_000_000)));
    assert_eq!(Fix(i64::MAX).add(Fix(1)), None);
    assert_eq!(Fix(i64::MIN).neg(), None);
}

#[test]
fn fix_mul_exact_and_truncated() {
    // 2.5 * 4.0 == 10.0 exactly
    assert_eq!(Fix(2_500_000).mul(Fix(4_000_000)), Some(Fix(10_000_000)));
    // multiplication by one and zero change nothing
    assert_eq!(Fix(123_456).mul(Fix::one()), Some(Fix(123_456)));
    assert_eq!(Fix(123_456).mul(Fix(0)), Some(Fix(0)));
    // truncation is toward zero: -1.5 * 0.333333 == -0.499999...,
    // stored as -0.499999 (not the floor -0.500000)
    assert_eq!(Fix(-1_500_000).mul(Fix(333_333)), Some(Fix(-499_999)));
    assert_eq!(Fix(i64::MAX).mul(Fix(i64::MAX)), None);
}

#[test]
fn fix_div_and_recip() {
    // 1.0 / 3.0 truncates to 0.333333
    assert_eq!(Fix(1_000_000).div(Fix(3_000_000)), Some(Fix(333_333)));
    assert_eq!(Fix(1_000_000).div(Fix(0)), None);
    // 1 / 0.2 == 5.0 exactly
    assert_eq!(Fix(200_000).recip(), Some(Fix(5_000_000)));
    assert_eq!(Fix(0).recip(), None);
}

#[test]
fn fix_from_int_and_mul_int() {
    assert_eq!(Fix::from_int(3), Some(Fix(3_000_000)));
    assert_eq!(Fix::from_int(i64::MAX), None);
    assert_eq!(Fix(2_000_000).mul_int(3), Some(Fix(6_000_000)));
    assert_eq!(Fix(2).mul_int(i64::MAX), None);
}

#[test]
fn spatialdims_accessors() {
    let one: SpatialDims<usize> = SpatialDims::OneD(4);
    let two: SpatialDims<usize> = SpatialDims::TwoD(4, 5);
    let three: SpatialDims<usize> = SpatialDims::ThreeD(4, 5, 6);
    assert_eq!(one.len(), 1);
    assert_eq!(two.len(), 2);
    assert_eq!(three.len(), 3);
    assert_eq!(one.x(), Some(4));
    assert_eq!(one.y(), None);
    assert_eq!(one.z(), None);
    assert_eq!(two.y(), Some(5));
    assert_eq!(two.z(), None);
    assert_eq!(three.z(), Some(6));
    assert_eq!(one.product(), 4);
    assert_eq!(two.product(), 20);
    assert_eq!(three.product(), 120);
    assert_eq!(three.checked_product(), Some(120));
    let big: SpatialDims<usize> = SpatialDims::TwoD(usize::MAX, 2);
    assert_eq!(big.checked_product(), None);
}

#[test]
fn spatialdims_invert() {
    let fov: SpatialDims<Fix> = SpatialDims::TwoD(Fix(200_000), Fix(500_000));
    assert_eq!(
        fov.invert(),
        Some(SpatialDims::TwoD(Fix(5_000_000), Fix(2_000_000)))
    );
    let zero: SpatialDims<Fix> = SpatialDims::TwoD(Fix(200_000), Fix(0));
    assert_eq!(zero.invert(), None);
}

#[test]
fn spatialdims_iterator() {
    let three: SpatialDims<usize> = SpatialDims::ThreeD(7, 8, 9);
    let mut it = three.into_iter();
    assert_eq!(it.next(), Some(7));
    assert_eq!(it.next(), Some(8));
    assert_eq!(it.next(), Some(9));
    assert_eq!(it.next(), None);
    let one: SpatialDims<usize> = SpatialDims::OneD(7);
    let mut it1 = one.into_iter();
    assert_eq!(it1.next(), Some(7));
    assert_eq!(it1.next(), None);
    assert_eq!(it1.next(), None);
}
