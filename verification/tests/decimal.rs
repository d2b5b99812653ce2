use hug_shell::decimal::{has_float_shape, i64_to_string, parse_i64, push_decimal};
use hug_shell::text::{chars_of, push_chars, push_text, same_text, string_of};

#[test]
fn decimal_text_of_integers() {
    assert_eq!(i64_to_string(0), "0");
    assert_eq!(i64_to_string(7), "7");
    assert_eq!(i64_to_string(10), "10");
    assert_eq!(i64_to_string(-1), "-1");
    assert_eq!(i64_to_string(1234567890), "1234567890");
    assert_eq!(i64_to_string(i64::MAX), "9223372036854775807");
    assert_eq!(i64_to_string(i64::MIN), "-9223372036854775808");
}

#[test]
fn decimal_text_is_appended() {
    let mut out = "n=".to_string();
    push_decimal(&mut out, -305);
    assert_eq!(out, "n=-305");
}

#[test]
fn integers_of_decimal_text() {
    assert_eq!(parse_i64("0"), Some(0));
    assert_eq!(parse_i64("123"), Some(123));
    assert_eq!(parse_i64("-123"), Some(-123));
    assert_eq!(parse_i64("+123"), Some(123));
    assert_eq!(parse_i64("000"), Some(0));
    assert_eq!(parse_i64("-0"), Some(0));
    assert_eq!(parse_i64("9223372036854775807"), Some(i64::MAX));
    assert_eq!(parse_i64("-9223372036854775808"), Some(i64::MIN));
    assert_eq!(parse_i64("00000000000000000000000001"), Some(1));
}

#[test]
fn texts_that_are_no_integers() {
    for text in [
        "",
        "-",
        "+",
        "--1",
        "1-",
        "12a",
        "a12",
        " 1",
        "1 ",
        "1.0",
        "1_000",
        "٣",
        "9223372036854775808",
        "-9223372036854775809",
        "99999999999999999999999",
    ] {
        assert_eq!(parse_i64(text), None, "{:?}", text);
    }
}

#[test]
fn integers_survive_the_round_trip() {
    for i in [0, 1, -1, 9, 10, -10, 99, 100, 4096, -65535, i64::MAX, i64::MIN] {
        assert_eq!(parse_i64(&i64_to_string(i)), Some(i));
    }
}

#[test]
fn texts_with_the_shape_of_a_float() {
    for text in [
        "3.14", "0", "42", "-1", "+1.5", "5.", ".5", "-.5", "1e5", "1E5", "1.5e-3", "2.e+10",
        ".1e1", "007.250",
    ] {
        assert!(has_float_shape(text), "{:?}", text);
        assert!(text.parse::<f64>().is_ok(), "{:?}", text);
    }
}

#[test]
fn texts_without_the_shape_of_a_float() {
    for text in [
        "", ".", "-", "+.", "e5", ".e5", "1e", "1e+", "1.2.3", "1,5", "abc", "1.5f", " 1", "1 ",
        "--1", "1e5.0", "0x10",
    ] {
        assert!(!has_float_shape(text), "{:?}", text);
    }
}

#[test]
fn text_helpers() {
    assert_eq!(chars_of("añb"), vec!['a', 'ñ', 'b']);
    assert_eq!(chars_of(""), Vec::<char>::new());
    let chars = vec!['h', 'e', 'l', 'l', 'o'];
    assert_eq!(string_of(&chars, 1, 4), "ell");
    assert_eq!(string_of(&chars, 2, 2), "");
    let mut out = "x".to_string();
    push_chars(&mut out, &chars, 0, 2);
    push_text(&mut out, "→!");
    assert_eq!(out, "xhe→!");
    assert!(same_text("ab", "ab"));
    assert!(!same_text("ab", "abc"));
    assert!(!same_text("ab", "aB"));
}
