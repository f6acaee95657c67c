//! Decimal values: canonicalization, comparison and printing.

use barh::num::Dec;
use barh::text::{dec_to_string, u64_to_string};

#[test]
fn new_strips_trailing_zeros() {
    let d = Dec::new(false, 500, 2).unwrap();
    assert_eq!(d, Dec { neg: false, m: 5, e: 0 });
    let d = Dec::new(false, 1250, 3).unwrap();
    assert_eq!(d, Dec { neg: false, m: 125, e: 2 });
}

#[test]
fn new_normalizes_zero() {
    let d = Dec::new(true, 0, 7).unwrap();
    assert_eq!(d, Dec { neg: false, m: 0, e: 0 });
}

#[test]
fn new_rejects_out_of_range() {
    assert!(Dec::new(false, 10_000_000_000_001, 0).is_none());
    assert!(Dec::new(false, 7, 13).is_none());
}

#[test]
fn comparison_is_exact() {
    let a = Dec::new(false, 12, 1).unwrap();  // 1.2
    let b = Dec::new(false, 125, 2).unwrap();  // 1.25
    assert!(a.lt(&b));
    assert!(a.le(&b));
    assert!(!b.le(&a));
    let neg = Dec::new(true, 1, 0).unwrap();  // -1
    assert!(neg.lt(&a));
    assert!(!a.lt(&neg));
    let same = Dec::new(false, 12, 1).unwrap();
    assert!(a.le(&same) && same.le(&a));
}

#[test]
fn unsigned_number_printing() {
    assert_eq!(u64_to_string(0), "0");
    assert_eq!(u64_to_string(7), "7");
    assert_eq!(u64_to_string(19684), "19684");
}

#[test]
fn decimal_printing() {
    assert_eq!(dec_to_string(&Dec::new(false, 42, 0).unwrap()), "42");
    assert_eq!(dec_to_string(&Dec::new(false, 125, 1).unwrap()), "12.5");
    assert_eq!(dec_to_string(&Dec::new(false, 2, 1).unwrap()), "0.2");
    assert_eq!(dec_to_string(&Dec::new(false, 5, 3).unwrap()), "0.005");
    assert_eq!(dec_to_string(&Dec::new(true, 35, 1).unwrap()), "-3.5");
    assert_eq!(dec_to_string(&Dec::new(false, 0, 0).unwrap()), "0");
}
