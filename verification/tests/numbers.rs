use game_core::json::JsonNum;
use game_core::numtext::{is_float_string, is_i32_string};

#[test]
fn integer_strings_in_range_are_accepted() {
    assert!(is_i32_string("0"));
    assert!(is_i32_string("42"));
    assert!(is_i32_string("+7"));
    assert!(is_i32_string("-2147483648"));
    assert!(is_i32_string("2147483647"));
    assert!(is_i32_string("007"));
}

#[test]
fn integer_strings_out_of_range_or_malformed_are_rejected() {
    assert!(!is_i32_string("2147483648"));
    assert!(!is_i32_string("-2147483649"));
    assert!(!is_i32_string("99999999999999999999"));
    assert!(!is_i32_string(""));
    assert!(!is_i32_string("-"));
    assert!(!is_i32_string("+"));
    assert!(!is_i32_string("1.5"));
    assert!(!is_i32_string("lots"));
    assert!(!is_i32_string("4 2"));
}

#[test]
fn i32_recognizer_agrees_with_the_standard_parser() {
    for s in [
        "0",
        "-1",
        "2147483647",
        "2147483648",
        "-2147483648",
        "-2147483649",
        "12x",
        "",
        "+",
        "3.0",
        "00000000000000000042",
    ] {
        assert_eq!(is_i32_string(s), s.parse::<i32>().is_ok(), "diverged on {:?}", s);
    }
}

#[test]
fn float_strings_are_accepted() {
    assert!(is_float_string("1"));
    assert!(is_float_string("1.5"));
    assert!(is_float_string(".5"));
    assert!(is_float_string("5."));
    assert!(is_float_string("-1.5"));
    assert!(is_float_string("+2"));
    assert!(is_float_string("1e3"));
    assert!(is_float_string("1.5E-3"));
    assert!(is_float_string("-2.5e+10"));
    assert!(is_float_string("inf"));
    assert!(is_float_string("-Inf"));
    assert!(is_float_string("infinity"));
    assert!(is_float_string("NaN"));
}

#[test]
fn malformed_float_strings_are_rejected() {
    assert!(!is_float_string(""));
    assert!(!is_float_string("."));
    assert!(!is_float_string("-"));
    assert!(!is_float_string("1e"));
    assert!(!is_float_string("e3"));
    assert!(!is_float_string("1.2.3"));
    assert!(!is_float_string("soon"));
    assert!(!is_float_string("1 "));
    assert!(!is_float_string("in"));
}

#[test]
fn float_recognizer_agrees_with_the_standard_parser() {
    for s in [
        "1", "1.5", ".5", "5.", "-1.5", "+2", "1e3", "1.5E-3", "-2.5e+10", "inf", "-Inf",
        "infinity", "NaN", "", ".", "-", "1e", "e3", "1.2.3", "soon", "1 ",
    ] {
        assert_eq!(is_float_string(s), s.parse::<f32>().is_ok(), "diverged on {:?}", s);
    }
}

#[test]
fn number_integer_views() {
    assert_eq!(JsonNum::PosInt(5).as_int(), Some(5));
    assert_eq!(JsonNum::NegInt(-5).as_int(), Some(-5));
    assert_eq!(JsonNum::PosInt(u64::MAX).as_int(), None);
    assert_eq!(JsonNum::FloatBits(1.5f64.to_bits()).as_int(), None);
}
