use recipe_ratio::errors::ResolveError;
use recipe_ratio::ratio::{gcd, Ratio};

#[test]
fn gcd_of_small_numbers() {
    assert_eq!(gcd(12, 8), 4);
    assert_eq!(gcd(7, 3), 1);
    assert_eq!(gcd(6, 6), 6);
    assert_eq!(gcd(1, 9), 1);
}

#[test]
fn new_reduces_to_lowest_terms() {
    let r = Ratio::new(6, 8);
    assert_eq!(r.num, 3);
    assert_eq!(r.den, 4);
    let z = Ratio::new(0, 5);
    assert_eq!(z.num, 0);
    assert_eq!(z.den, 1);
}

#[test]
fn add_is_exact() {
    let a = Ratio::new(1, 6);
    let b = Ratio::new(1, 10);
    let s = a.add(b).unwrap();
    assert_eq!((s.num, s.den), (4, 15));
}

#[test]
fn mul_is_exact() {
    let a = Ratio::new(2, 3);
    let b = Ratio::new(9, 4);
    let p = a.mul(b).unwrap();
    assert_eq!((p.num, p.den), (3, 2));
}

#[test]
fn div_is_exact() {
    let a = Ratio::new(1, 2);
    let b = Ratio::new(3, 4);
    let q = a.div(b).unwrap();
    assert_eq!((q.num, q.den), (2, 3));
}

#[test]
fn overflow_is_an_error_not_a_wrap() {
    let big = Ratio::from_int(u64::MAX);
    let half = Ratio::new(1, 2);
    assert_eq!(big.div(half), Err(ResolveError::ArithmeticOverflow));
    assert_eq!(big.add(big), Err(ResolveError::ArithmeticOverflow));
    assert_eq!(big.mul(big), Err(ResolveError::ArithmeticOverflow));
}
