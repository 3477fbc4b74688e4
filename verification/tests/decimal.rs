use trader::decimal::Decimal;

#[test]
fn a_decimal_is_its_mantissa_and_scale() {
    let d = Decimal::new(7777, 3);
    assert_eq!(d.mantissa(), 7777);
    assert_eq!(d.scale(), 3);
    let d = Decimal::new(i64::MIN, 28);
    assert_eq!(d.mantissa(), i64::MIN as i128);
    assert_eq!(d.scale(), 28);
}

#[test]
fn only_numbers_that_fit_are_made() {
    assert!(Decimal::try_new(1, 28).is_some());
    assert!(Decimal::try_new(1, 29).is_none());
    assert!(Decimal::try_new(i64::MAX, 0).is_some());
    let max = 0xFFFF_FFFF_FFFF_FFFF_FFFF_FFFFi128;
    assert!(Decimal::try_from_i128_with_scale(max, 0).is_some());
    assert!(Decimal::try_from_i128_with_scale(-max, 28).is_some());
    assert!(Decimal::try_from_i128_with_scale(max + 1, 0).is_none());
    assert!(Decimal::try_from_i128_with_scale(-max - 1, 0).is_none());
    assert!(Decimal::try_from_i128_with_scale(0, 29).is_none());
    assert!(Decimal::try_from_i128_with_scale(i128::MIN, 0).is_none());
    let d = Decimal::try_from_i128_with_scale(-max, 5).unwrap();
    assert_eq!((d.mantissa(), d.scale()), (-max, 5));
}

#[test]
fn equal_numbers_are_equal_however_they_are_written() {
    assert_eq!(Decimal::new(100, 0), Decimal::new(10000, 2));
    assert_eq!(Decimal::new(-15, 1), Decimal::new(-1500, 3));
    assert_eq!(Decimal::new(0, 0), Decimal::new(0, 28));
    assert_eq!(Decimal::new(777, 2), Decimal::new(777, 2));
    assert_ne!(Decimal::new(777, 2), Decimal::new(778, 2));
    assert_ne!(Decimal::new(777, 2), Decimal::new(777, 3));
    assert_ne!(Decimal::new(15, 1), Decimal::new(-15, 1));
    assert_ne!(Decimal::new(10, 0), Decimal::new(1, 0));
    assert!(Decimal::new(100, 0).same_number(&Decimal::new(1000, 1)));
    assert!(!Decimal::new(100, 0).same_number(&Decimal::new(1001, 1)));
}

#[test]
fn normalizing_strips_trailing_zeros_after_the_point() {
    let cases = [
        ((10000, 2), (100, 0)),
        ((100, 0), (100, 0)),
        ((-1500, 3), (-15, 1)),
        ((0, 28), (0, 0)),
        ((7777, 3), (7777, 3)),
        ((1200, 1), (120, 0)),
        ((-10, 1), (-1, 0)),
    ];
    for ((m, s), (em, es)) in cases {
        let n = Decimal::new(m, s).normalize();
        assert_eq!((n.mantissa(), n.scale()), (em, es));
    }
}
