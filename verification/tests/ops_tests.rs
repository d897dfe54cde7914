//! Tests for batched inversion and the arithmetic capability traits,
//! driven by the development scalar and point types.

use crypto_traits::dev::{DevPoint, DevScalar};
use crypto_traits::ops::{lincomb, BatchInvert, FieldElement, Reduce, ReduceNonZero};

fn unit(k: u64) -> DevScalar {
    DevScalar::Unit(k)
}

fn invert_single(x: DevScalar) -> Option<DevScalar> {
    let (inv, ok) = x.invert();
    if ok {
        Some(inv)
    } else {
        None
    }
}

#[test]
fn multiplication_and_identity() {
    assert_eq!(unit(3).multiply(unit(5)), unit(8));
    assert_eq!(unit(0).multiply(unit(7)), unit(7));
    assert_eq!(DevScalar::Zero.multiply(unit(7)), DevScalar::Zero);
    assert_eq!(unit(7).multiply(DevScalar::Zero), DevScalar::Zero);
}

#[test]
fn single_inversion() {
    assert_eq!(invert_single(unit(0)), Some(unit(0)));
    assert_eq!(invert_single(unit(1)), Some(unit(u64::MAX)));
    assert_eq!(invert_single(unit(5)), Some(unit(u64::MAX - 4)));
    assert_eq!(invert_single(DevScalar::Zero), None);
    // an element times its inverse is the identity
    assert_eq!(unit(5).multiply(invert_single(unit(5)).unwrap()), unit(0));
}

#[test]
fn batch_invert_matches_single_inversion() {
    for n in [1usize, 2, 5, 100] {
        let elements: Vec<DevScalar> = (0..n).map(|i| unit(3 * i as u64 + 7)).collect();
        let inverses = DevScalar::batch_invert(&elements).expect("batch should invert");
        assert_eq!(inverses.len(), n);
        for (e, inv) in elements.iter().zip(inverses.iter()) {
            assert_eq!(invert_single(*e), Some(*inv));
            assert_eq!(e.multiply(*inv), unit(0));
        }
    }
}

#[test]
fn batch_invert_exact_values() {
    let elements = [unit(2), unit(3), unit(10)];
    let inverses = DevScalar::batch_invert(&elements).unwrap();
    assert_eq!(inverses, vec![unit(u64::MAX - 1), unit(u64::MAX - 2), unit(u64::MAX - 9)]);
}

#[test]
fn batch_with_a_zero_anywhere_fails_as_a_unit() {
    let n = 7usize;
    for zero_at in 0..n {
        let elements: Vec<DevScalar> = (0..n)
            .map(|i| if i == zero_at { DevScalar::Zero } else { unit(i as u64 + 2) })
            .collect();
        assert!(
            DevScalar::batch_invert(&elements).is_none(),
            "zero at position {zero_at} was not detected"
        );
    }
}

#[test]
fn batch_with_several_zeros_fails() {
    let elements = [DevScalar::Zero, unit(5), DevScalar::Zero];
    assert!(DevScalar::batch_invert(&elements).is_none());
}

#[test]
fn empty_batch_is_a_failure() {
    let elements: [DevScalar; 0] = [];
    assert!(DevScalar::batch_invert(&elements).is_none());
}

#[test]
fn conditional_select_picks_by_flag() {
    let a = unit(17);
    let b = unit(99);
    assert_eq!(DevScalar::conditional_select(&a, &b, false), a);
    assert_eq!(DevScalar::conditional_select(&a, &b, true), b);
}

#[test]
fn lincomb_of_empty_is_identity() {
    let pairs: [(DevPoint, u64); 0] = [];
    assert_eq!(lincomb(&pairs), DevPoint(0));
}

#[test]
fn lincomb_sums_scalar_multiples() {
    let pairs = [(DevPoint(2), 3u64), (DevPoint(5), 10), (DevPoint(100), 2)];
    // 2 * 3 + 5 * 10 + 100 * 2
    assert_eq!(lincomb(&pairs), DevPoint(256));
}

#[test]
fn lincomb_wraps_around() {
    let pairs = [(DevPoint(u64::MAX), 2u64), (DevPoint(3), 1)];
    // (2^64 - 1) * 2 wraps to 2^64 - 2; adding 3 wraps to 1
    assert_eq!(lincomb(&pairs), DevPoint(1));
}

#[test]
fn reduce_maps_integers_and_bytes() {
    assert_eq!(DevScalar::reduce(5), unit(5));
    assert_eq!(DevScalar::reduce_bytes(&[0x34, 0x12]), unit(0x1234));
}

#[test]
fn reduce_nonzero_never_returns_zero() {
    for n in 0..100u64 {
        assert_ne!(DevScalar::reduce_nonzero(n), DevScalar::Zero);
    }
    assert_ne!(DevScalar::reduce_nonzero_bytes(&[0, 0]), DevScalar::Zero);
}
