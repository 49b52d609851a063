use engine::amount::{Amount, MAX_MANTISSA, MAX_SCALE};

fn dec(text: &str) -> Amount {
    text.parse().unwrap()
}

fn parts(amount: Amount) -> (i128, u32) {
    (amount.mantissa(), amount.scale())
}

#[test]
fn new_accepts_what_a_decimal_holds() {
    assert_eq!(parts(Amount::new(15099, 2).unwrap()), (15099, 2));
    assert_eq!(parts(Amount::new(-1, 28).unwrap()), (-1, 28));
    assert_eq!(parts(Amount::new(MAX_MANTISSA, 0).unwrap()), (MAX_MANTISSA, 0));
    assert_eq!(parts(Amount::new(-MAX_MANTISSA, MAX_SCALE).unwrap()), (-MAX_MANTISSA, 28));
}

#[test]
fn new_refuses_what_a_decimal_cannot_hold() {
    assert!(Amount::new(MAX_MANTISSA + 1, 0).is_none());
    assert!(Amount::new(-MAX_MANTISSA - 1, 0).is_none());
    assert!(Amount::new(i128::MAX, 0).is_none());
    assert!(Amount::new(i128::MIN, 0).is_none());
    assert!(Amount::new(1, 29).is_none());
    assert!(Amount::new(0, u32::MAX).is_none());
}

#[test]
fn zero_and_default_are_plain_zero() {
    assert_eq!(parts(Amount::zero()), (0, 0));
    assert_eq!(parts(Amount::default()), (0, 0));
    assert_eq!(Amount::zero().to_text(), "0");
}

#[test]
fn parse_keeps_the_digits_as_written() {
    assert_eq!(parts(dec("150.99")), (15099, 2));
    assert_eq!(parts(dec("100.1234")), (1001234, 4));
    assert_eq!(parts(dec("50")), (50, 0));
    assert_eq!(parts(dec("0.1")), (1, 1));
    assert_eq!(parts(dec("1.50")), (150, 2));
    assert_eq!(parts(dec("-2.5")), (-25, 1));
}

#[test]
fn parse_refuses_what_is_no_decimal() {
    assert!(Amount::parse("").is_err());
    assert!(Amount::parse("abc").is_err());
    assert!(Amount::parse("1.2.3").is_err());
    assert!("12x".parse::<Amount>().is_err());
}

#[test]
fn text_shows_every_fractional_digit() {
    assert_eq!(dec("150.99").to_text(), "150.99");
    assert_eq!(dec("1.50").to_text(), "1.50");
    assert_eq!(Amount::new(0, 3).unwrap().to_text(), "0.000");
    assert_eq!(Amount::new(-25, 1).unwrap().to_text(), "-2.5");
    assert_eq!(Amount::new(234, 4).unwrap().to_text(), "0.0234");
    assert_eq!(Amount::new(MAX_MANTISSA, 0).unwrap().to_text(), "79228162514264337593543950335");
}

#[test]
fn text_round_trips_four_decimal_places() {
    for text in ["0.0001", "12.3456", "100.1000", "99999.9999", "0.0000"] {
        assert_eq!(dec(text).to_text(), text);
    }
}

#[test]
fn equality_is_by_value_not_by_scale() {
    assert_eq!(dec("1.50"), dec("1.5"));
    assert_eq!(dec("0"), dec("0.000"));
    assert_ne!(dec("1.5"), dec("1.6"));
    assert_ne!(dec("1.5"), dec("-1.5"));
}

#[test]
fn less_than_orders_by_value() {
    assert!(dec("1.5").less_than(dec("1.51")));
    assert!(dec("-3").less_than(dec("2")));
    assert!(dec("0.999").less_than(dec("1")));
    assert!(!dec("1.50").less_than(dec("1.5")));
    assert!(!dec("2").less_than(dec("1.99")));
    assert!(!dec("150.99").less_than(dec("10")));
}

#[test]
fn checked_add_is_exact_and_keeps_the_larger_scale() {
    assert_eq!(parts(dec("1.5").checked_add(dec("2.25")).unwrap()), (375, 2));
    assert_eq!(parts(dec("0.0234").checked_add(dec("12.92")).unwrap()), (129434, 4));
    assert_eq!(parts(dec("-50.0000").checked_add(dec("100.1234")).unwrap()), (501234, 4));
    assert_eq!(parts(dec("7").checked_add(dec("-7")).unwrap()), (0, 0));
}

#[test]
fn checked_add_of_zero_hands_the_other_operand_back() {
    assert_eq!(parts(dec("0.0000").checked_add(dec("12.92")).unwrap()), (1292, 2));
    assert_eq!(parts(dec("202.582").checked_add(dec("0.000")).unwrap()), (202582, 3));
}

#[test]
fn checked_sub_is_exact_and_keeps_the_larger_scale() {
    assert_eq!(parts(dec("150.99").checked_sub(dec("10")).unwrap()), (14099, 2));
    assert_eq!(parts(dec("50.1234").checked_sub(dec("100.1234")).unwrap()), (-500000, 4));
    assert_eq!(parts(dec("101.291").checked_sub(dec("101.291")).unwrap()), (0, 3));
    assert_eq!(parts(dec("20").checked_sub(dec("20")).unwrap()), (0, 0));
    assert_eq!(parts(dec("0.1234").checked_sub(dec("0.1")).unwrap()), (234, 4));
}

#[test]
fn checked_add_refuses_overflow() {
    let max = Amount::new(MAX_MANTISSA, 0).unwrap();
    assert!(max.checked_add(dec("1")).is_none());
    assert!(max.checked_add(max).is_none());
    let min = Amount::new(-MAX_MANTISSA, 0).unwrap();
    assert!(min.checked_sub(dec("1")).is_none());
    assert!(max.checked_sub(dec("-1")).is_none());
    assert_eq!(parts(max.checked_add(min).unwrap()), (0, 0));
}

#[test]
fn checked_add_refuses_a_rounded_sum() {
    let large = Amount::new(MAX_MANTISSA - 1, 0).unwrap();
    assert!(large.checked_add(dec("0.5")).is_none());
    assert!(large.checked_add(dec("0.4")).is_none());
    assert!(large.checked_sub(dec("0.4")).is_none());
    let tiny = Amount::new(1, 28).unwrap();
    assert!(dec("8").checked_add(tiny).is_none());
    assert_eq!(parts(dec("7").checked_add(tiny).unwrap()), (70000000000000000000000000001, 28));
}

#[test]
fn accept_sum_takes_the_exact_sum_only() {
    let a = dec("1.5");
    let b = dec("2.25");
    assert_eq!(parts(Amount::accept_sum(a, b, Some(dec("3.75"))).unwrap()), (375, 2));
    assert_eq!(parts(Amount::accept_sum(a, b, Some(dec("3.750"))).unwrap()), (3750, 3));
    assert!(Amount::accept_sum(a, b, Some(dec("3.76"))).is_none());
    assert!(Amount::accept_sum(a, b, Some(dec("3.7"))).is_none());
    assert!(Amount::accept_sum(a, b, Some(a)).is_none());
    assert!(Amount::accept_sum(a, b, None).is_none());
}

#[test]
fn accept_sum_compares_beyond_the_range_of_a_decimal() {
    let max = Amount::new(MAX_MANTISSA, 0).unwrap();
    let min = Amount::new(-MAX_MANTISSA, 0).unwrap();
    let tiny = Amount::new(1, 28).unwrap();
    assert!(Amount::accept_sum(max, tiny, Some(max)).is_none());
    assert!(Amount::accept_sum(max, max, Some(max)).is_none());
    assert!(Amount::accept_sum(max, min, Some(tiny)).is_none());
    assert_eq!(parts(Amount::accept_sum(max, min, Some(Amount::new(0, 28).unwrap())).unwrap()), (0, 28));
    assert_eq!(parts(Amount::accept_sum(max, Amount::zero(), Some(max)).unwrap()), (MAX_MANTISSA, 0));
}

#[test]
fn accept_difference_takes_the_exact_difference_only() {
    let a = dec("150.99");
    let b = dec("10");
    assert_eq!(parts(Amount::accept_difference(a, b, Some(dec("140.99"))).unwrap()), (14099, 2));
    assert!(Amount::accept_difference(a, b, Some(dec("160.99"))).is_none());
    assert!(Amount::accept_difference(a, b, Some(a)).is_none());
    assert!(Amount::accept_difference(a, b, None).is_none());
    assert_eq!(parts(Amount::accept_difference(b, a, Some(dec("-140.990"))).unwrap()), (-140990, 3));
}
