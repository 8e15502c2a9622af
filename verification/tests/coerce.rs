use ourairports::coerce::{
    bool_from_str, decimal_from_str, opt_decimal_from_str, opt_i32_from_str, opt_u32_from_str,
    vec_string_from_string,
};
use ourairports::ConvertError;

#[test]
fn bool_yes_variants_are_true() {
    assert_eq!(bool_from_str("yes").unwrap(), true);
    assert_eq!(bool_from_str("Yes").unwrap(), true);
    assert_eq!(bool_from_str("YES").unwrap(), true);
    assert_eq!(bool_from_str("yEs").unwrap(), true);
    assert_eq!(bool_from_str("1").unwrap(), true);
}

#[test]
fn bool_no_variants_are_false() {
    assert_eq!(bool_from_str("no").unwrap(), false);
    assert_eq!(bool_from_str("No").unwrap(), false);
    assert_eq!(bool_from_str("NO").unwrap(), false);
    assert_eq!(bool_from_str("0").unwrap(), false);
}

#[test]
fn bool_other_tokens_are_rejected() {
    for tok in ["", "maybe", "true", "false", "y", "n", "10", "yess", " yes"] {
        match bool_from_str(tok) {
            Err(ConvertError::BadBool(t)) => assert_eq!(t, tok),
            other => panic!("expected a boolean failure for {:?}, got {:?}", tok, other.is_ok()),
        }
    }
}

#[test]
fn bool_error_message_names_the_token() {
    let err = bool_from_str("maybe").unwrap_err();
    assert_eq!(err.message(), "value must be yes or no, found: maybe");
}

#[test]
fn opt_i32_parses_plain_integers() {
    assert_eq!(opt_i32_from_str("0"), Some(0));
    assert_eq!(opt_i32_from_str("123"), Some(123));
    assert_eq!(opt_i32_from_str("-42"), Some(-42));
    assert_eq!(opt_i32_from_str("+7"), Some(7));
    assert_eq!(opt_i32_from_str("007"), Some(7));
    assert_eq!(opt_i32_from_str("2147483647"), Some(i32::MAX));
    assert_eq!(opt_i32_from_str("-2147483648"), Some(i32::MIN));
}

#[test]
fn opt_i32_is_absent_on_bad_or_oversized_input() {
    assert_eq!(opt_i32_from_str(""), None);
    assert_eq!(opt_i32_from_str("abc"), None);
    assert_eq!(opt_i32_from_str("12.5"), None);
    assert_eq!(opt_i32_from_str("12 "), None);
    assert_eq!(opt_i32_from_str("2147483648"), None);
    assert_eq!(opt_i32_from_str("-2147483649"), None);
    assert_eq!(opt_i32_from_str("99999999999999999999999999"), None);
}

#[test]
fn opt_u32_parses_unsigned_integers() {
    assert_eq!(opt_u32_from_str("0"), Some(0));
    assert_eq!(opt_u32_from_str("8000"), Some(8000));
    assert_eq!(opt_u32_from_str("4294967295"), Some(u32::MAX));
}

#[test]
fn opt_u32_rejects_signs_and_overflow() {
    assert_eq!(opt_u32_from_str("-1"), None);
    assert_eq!(opt_u32_from_str("-0"), None);
    assert_eq!(opt_u32_from_str("4294967296"), None);
    assert_eq!(opt_u32_from_str(""), None);
    assert_eq!(opt_u32_from_str("12ft"), None);
}

#[test]
fn mandatory_decimal_keeps_text_verbatim() {
    assert_eq!(decimal_from_str("52.308601").unwrap(), "52.308601");
    assert_eq!(decimal_from_str("-0.247500002384").unwrap(), "-0.247500002384");
    assert_eq!(decimal_from_str("207").unwrap(), "207");
    assert_eq!(decimal_from_str("1e5").unwrap(), "1e5");
    assert_eq!(decimal_from_str("1.5E-3").unwrap(), "1.5E-3");
}

#[test]
fn mandatory_decimal_rejects_bad_text() {
    for tok in ["", "abc", "1.", ".5", "--1", "1.2.3", "1e", "52,3"] {
        match decimal_from_str(tok) {
            Err(ConvertError::BadNumber(t)) => assert_eq!(t, tok),
            other => panic!("expected a number failure for {:?}, got {:?}", tok, other.is_ok()),
        }
    }
}

#[test]
fn optional_decimal_is_absent_on_bad_text() {
    assert_eq!(opt_decimal_from_str("12.5"), Some("12.5".to_string()));
    assert_eq!(opt_decimal_from_str(""), None);
    assert_eq!(opt_decimal_from_str("abc"), None);
}

#[test]
fn keywords_empty_string_gives_empty_list() {
    let ks = vec_string_from_string("");
    assert!(ks.is_empty());
}

#[test]
fn keywords_split_and_trim() {
    assert_eq!(vec_string_from_string("a, b"), vec!["a", "b"]);
    assert_eq!(vec_string_from_string("a,b"), vec!["a", "b"]);
    assert_eq!(vec_string_from_string("  padded  , x"), vec!["padded", "x"]);
    assert_eq!(vec_string_from_string("one"), vec!["one"]);
    assert_eq!(vec_string_from_string("a,,b"), vec!["a", "", "b"]);
    assert_eq!(vec_string_from_string(" , "), vec!["", ""]);
    assert_eq!(vec_string_from_string("Flughafen Berlin, BER, airport"), vec![
        "Flughafen Berlin",
        "BER",
        "airport"
    ]);
}
