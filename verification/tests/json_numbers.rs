use flowgrid::json::JsonValue;
use flowgrid::numbers::{i64_to_string, parse_i64, parse_u64, u32_to_string, u64_to_string};

fn chars(x: &str) -> Vec<char> {
    x.chars().collect()
}

#[test]
fn parse_numbers() {
    assert_eq!(parse_u64(&chars("42")), Some(42));
    assert_eq!(parse_u64(&chars("+7")), Some(7));
    assert_eq!(parse_u64(&chars("18446744073709551615")), Some(u64::MAX));
    assert_eq!(parse_u64(&chars("18446744073709551616")), None);
    assert_eq!(parse_u64(&chars("-1")), None);
    assert_eq!(parse_u64(&chars("")), None);
    assert_eq!(parse_u64(&chars("+")), None);
    assert_eq!(parse_u64(&chars("1 ")), None);
    assert_eq!(parse_i64(&chars("-9223372036854775808")), Some(i64::MIN));
    assert_eq!(parse_i64(&chars("9223372036854775808")), None);
    assert_eq!(parse_i64(&chars("-0")), Some(0));
    assert_eq!(parse_i64(&chars("-")), None);
}

#[test]
fn print_numbers() {
    assert_eq!(u32_to_string(0), "0");
    assert_eq!(u32_to_string(4294967295), "4294967295");
    assert_eq!(u64_to_string(10), "10");
    assert_eq!(i64_to_string(-42), "-42");
    assert_eq!(i64_to_string(i64::MIN), "-9223372036854775808");
    assert_eq!(i64_to_string(0), "0");
}

#[test]
fn json_text_is_compact() {
    let v = JsonValue::Object(vec![
        ("a".to_string(), JsonValue::Array(vec![JsonValue::Bool(true), JsonValue::Null, JsonValue::Number("1.5".to_string())])),
        ("b\u{1}".to_string(), JsonValue::String("\t\u{8}\u{c}\r\\/é".to_string())),
        ("c".to_string(), JsonValue::Object(vec![])),
        ("d".to_string(), JsonValue::Array(vec![])),
    ]);
    assert_eq!(
        v.to_json_string(),
        "{\"a\":[true,null,1.5],\"b\\u0001\":\"\\t\\b\\f\\r\\\\/é\",\"c\":{},\"d\":[]}"
    );
    assert_eq!(JsonValue::Bool(false).to_json_string(), "false");
}

#[test]
fn json_access() {
    let v = JsonValue::Object(vec![
        ("n".to_string(), JsonValue::Number("12".to_string())),
        ("s".to_string(), JsonValue::String("x".to_string())),
        ("s".to_string(), JsonValue::String("second".to_string())),
    ]);
    assert_eq!(v.get("n").and_then(|x| x.as_u64()), Some(12));
    assert_eq!(v.get_str("s"), Some("x"));
    assert_eq!(v.get_str("n"), None);
    assert!(v.get("missing").is_none());
    assert_eq!(JsonValue::Number("-1".to_string()).as_u64(), None);
    assert_eq!(JsonValue::Number("1.0".to_string()).as_u64(), None);
    assert_eq!(JsonValue::Number("+1".to_string()).as_u64(), None);
    assert!(JsonValue::Array(vec![]).as_array().unwrap().is_empty());
}
