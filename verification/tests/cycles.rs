use rust_decimal::Decimal;
use std::str::FromStr;

use mhrono::cycles::Cycles;
use mhrono::duration::Duration;
use mhrono::span::endpoint::{EndpointConversion, EndpointSide};

fn dec(s: &str) -> Decimal {
    Decimal::from_str(s).unwrap()
}

#[test]
fn new_and_accessors() {
    let c = Cycles::new(dec("5"));
    assert_eq!(c.count(), dec("5"));

    let c = Cycles::zero();
    assert_eq!(c.count(), dec("0"));

    let c = Cycles::one();
    assert_eq!(c.count(), dec("1"));

    let c = Cycles::from_count(42);
    assert_eq!(c.count(), dec("42"));
}

#[test]
fn cycles_addition() {
    let a = Cycles::new(dec("3"));
    let b = Cycles::new(dec("5"));
    let c = a + b;
    assert_eq!(c.count(), dec("8"));

    let mut a = Cycles::new(dec("10"));
    a = a + Cycles::new(dec("5"));
    assert_eq!(a.count(), dec("15"));
}

#[test]
fn cycles_subtraction() {
    let a = Cycles::new(dec("10"));
    let b = Cycles::new(dec("3"));
    let c = a - b;
    assert_eq!(c.count(), dec("7"));

    let mut a = Cycles::new(dec("10"));
    a = a - Cycles::new(dec("3"));
    assert_eq!(a.count(), dec("7"));
}

#[test]
fn cycles_division() {
    let a = Cycles::new(dec("10"));
    let b = Cycles::new(dec("2"));
    let result = a / b;
    assert_eq!(result, dec("5"));
}

#[test]
fn cycles_multiplication_with_i64() {
    let c = Cycles::new(dec("5"));
    let result = c * 3_i64;
    assert_eq!(result.count(), dec("15"));

    let result = 3_i64 * c;
    assert_eq!(result.count(), dec("15"));

    let mut c = Cycles::new(dec("5"));
    c = c * 3_i64;
    assert_eq!(c.count(), dec("15"));
}

#[test]
fn division_with_i64() {
    let c = Cycles::new(dec("15"));
    let result = c / 3_i64;
    assert_eq!(result.count(), dec("5"));

    let mut c = Cycles::new(dec("15"));
    c = c / 3_i64;
    assert_eq!(c.count(), dec("5"));
}

#[test]
fn cycles_multiplication_with_decimal() {
    let c = Cycles::new(dec("5"));
    let result = c * dec("2.5");
    assert_eq!(result.count(), dec("12.5"));

    let result = dec("2.5") * c;
    assert_eq!(result.count(), dec("12.5"));
}

#[test]
fn cycles_duration_ops() {
    let c = Cycles::new(dec("10"));
    let d = Duration::sec();
    let result = c * d;
    assert_eq!(result, Duration::new(dec("10")));

    let result = d * c;
    assert_eq!(result, Duration::new(dec("10")));
}

#[test]
fn cycles_divide_duration() {
    let c = Cycles::new(dec("10"));
    let d = Duration::sec();
    let freq = c / d;
    assert_eq!(freq.hz(), dec("10"));
}

#[test]
fn cycles_ordering() {
    let a = Cycles::new(dec("5"));
    let b = Cycles::new(dec("10"));
    let c = Cycles::new(dec("5"));

    assert!(a < b);
    assert!(b > a);
    assert_eq!(a, c);
    assert!(a <= c);
    assert!(a >= c);
}

#[test]
fn to_primitive() {
    let c = Cycles::new(dec("42"));
    assert_eq!(c.to_i64(), Some(42));
    assert_eq!(c.to_u64(), Some(42));

    let c = Cycles::new(dec("42.5"));
    assert_eq!(c.to_i64(), Some(42));
    assert_eq!(Cycles::new(dec("-1.5")).to_u64(), None);
}

#[test]
fn cycles_endpoint_conversion() {
    let c = Cycles::new(dec("5"));

    assert!(c.to_open(EndpointSide::Left).unwrap().count() < c.count());
    assert!(c.to_open(EndpointSide::Right).unwrap().count() > c.count());
    assert!(c.to_closed(EndpointSide::Left).unwrap().count() > c.count());
    assert!(c.to_closed(EndpointSide::Right).unwrap().count() < c.count());
}

#[test]
fn zero_cycles() {
    let zero = Cycles::zero();
    let non_zero = Cycles::new(dec("5"));

    assert_eq!(zero + non_zero, non_zero);
    assert_eq!(non_zero + zero, non_zero);
    assert_eq!(non_zero - zero, non_zero);
}

#[test]
fn negative_cycles() {
    let pos = Cycles::new(dec("5"));
    let neg = Cycles::new(dec("-3"));

    let result = pos + neg;
    assert_eq!(result.count(), dec("2"));

    let result = neg - pos;
    assert_eq!(result.count(), dec("-8"));
}

#[test]
fn equal_values_are_equal_cycles() {
    assert_eq!(Cycles::new(dec("2.50")), Cycles::new(dec("2.5")));
    assert_eq!(Cycles::new(dec("2.50")).count_parts(), (25, 1));
}
