use leptos_chartistry::aligned_floats::{AlignedFloatsGen, AlignedState};

/// Formats a float at the state's precision, then zero pads it, as the chart
/// does when labelling aligned ticks.
fn format(scale: isize, value: f64) -> String {
    if value.is_nan() {
        return "-".to_string();
    }
    let state = AlignedState::new(scale);
    let precision = state.precision();
    state.zero_pad(&format!("{value:.precision$}"))
}

#[test]
fn test_format() {
    // Significant digits
    assert_eq!(format(0, 1.0), "1");
    assert_eq!(format(0, 1.23456789), "1");
    assert_eq!(format(0, 123_456.123), "123456");
    assert_eq!(format(1, 12.345_678), "10");
    assert_eq!(format(1, 123_456.123_456), "123450");
    assert_eq!(format(3, 123_456.123_456), "123000");
    assert_eq!(format(8, 123_456_789.0), "100000000");
    assert_eq!(format(1, 0.123_456_789), "0");
    assert_eq!(format(10, 0.123_456_789), "0");
    // Decimal places
    assert_eq!(format(-1, 0.123_456_789), "0.1");
    assert_eq!(format(-5, 0.123_456_789), "0.12346"); // Rounding
    assert_eq!(format(-5, 0.123_44), "0.12344");
    // Negative
    assert_eq!(format(0, -1.0), "-1");
    assert_eq!(format(3, -123_456.789), "-123000");
    assert_eq!(format(-3, -123_456.789123), "-123456.789");
    assert_eq!(format(1, -0.123_456_789), "-0");

    // Scale too large? Clamp to just leave first digit
    assert_eq!(format(6, 123_456.123_456), "100000");
    assert_eq!(format(6, -123_456.123_456), "-100000");
    assert_eq!(format(5, 123_456.123_456), "100000");
    assert_eq!(format(9, 123_456.123_456), "100000");

    // Extremes
    let v = format(3, f64::MAX);
    assert!(v.starts_with("1797"));
    assert!(v.ends_with("858000"));
    assert_eq!(v.len(), f64::MAX_10_EXP as usize + 1);
    let v = format(3, f64::MIN);
    assert!(v.starts_with("-1797"));
    assert!(v.ends_with("858000"));
    assert_eq!(v.len(), f64::MAX_10_EXP as usize + 2);
    assert_eq!(format(-3, f64::MIN_POSITIVE), "0.000");
    assert_eq!(format(3, f64::MIN_POSITIVE), "0");
}

#[test]
fn test_derived() {
    assert_eq!(AlignedFloatsGen::new(), AlignedFloatsGen::new().clone());
    assert_eq!(AlignedState::new(-2), AlignedState::new(-2).clone());
}

#[test]
fn zero_pad_keeps_leading_digit() {
    let state = AlignedState::new(4);
    assert_eq!(state.zero_pad("987"), "900");
    assert_eq!(state.zero_pad("-987"), "-900");
    assert_eq!(state.zero_pad("7"), "7");
    assert_eq!(AlignedState::new(0).zero_pad("1.25"), "1.25");
    assert_eq!(AlignedState::new(-2).precision(), 2);
    assert_eq!(AlignedState::new(3).precision(), 0);
}
