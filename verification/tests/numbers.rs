use r_resources::model::NumberType;
use r_resources::model::NumberValue;
use r_resources::number::count_significant_digits;
use r_resources::number::escape_literal;
use r_resources::number::looks_like_integer;
use r_resources::number::parse_explicit_number;
use r_resources::number::parse_number_value;
use r_resources::number::requires_big_decimal_precision;

#[test]
fn number_type_as_str_i8() {
    assert_eq!(NumberType::I8.as_str(), "i8");
}

#[test]
fn number_type_as_str_i16() {
    assert_eq!(NumberType::I16.as_str(), "i16");
}

#[test]
fn number_type_as_str_i32() {
    assert_eq!(NumberType::I32.as_str(), "i32");
}

#[test]
fn number_type_as_str_i64() {
    assert_eq!(NumberType::I64.as_str(), "i64");
}

#[test]
fn number_type_as_str_u8() {
    assert_eq!(NumberType::U8.as_str(), "u8");
}

#[test]
fn number_type_as_str_u16() {
    assert_eq!(NumberType::U16.as_str(), "u16");
}

#[test]
fn number_type_as_str_u32() {
    assert_eq!(NumberType::U32.as_str(), "u32");
}

#[test]
fn number_type_as_str_u64() {
    assert_eq!(NumberType::U64.as_str(), "u64");
}

#[test]
fn number_type_as_str_f32() {
    assert_eq!(NumberType::F32.as_str(), "f32");
}

#[test]
fn number_type_as_str_f64() {
    assert_eq!(NumberType::F64.as_str(), "f64");
}

#[test]
fn number_type_equality() {
    assert_eq!(NumberType::I32, NumberType::I32);
    assert_ne!(NumberType::I32, NumberType::I64);
}

#[test]
fn test_looks_like_integer() {
    assert!(looks_like_integer("42"));
    assert!(looks_like_integer("-42"));
    assert!(looks_like_integer("0"));
    assert!(!looks_like_integer("3.14"));
    assert!(!looks_like_integer("1.5e10"));
    assert!(!looks_like_integer("1E10"));
}

#[test]
fn test_requires_big_decimal_precision() {
    assert!(!requires_big_decimal_precision("12345678901234.5"));
    assert!(!requires_big_decimal_precision("1234567890123.56"));
    assert!(requires_big_decimal_precision("123456789012345.5"));
    assert!(requires_big_decimal_precision("123456789012345678901234567890.123456789"));
    assert!(requires_big_decimal_precision(
        "31212120129092108928901289001982890120988902190812098.218128128191289012077198209812908"
    ));
}

#[test]
fn test_count_significant_digits() {
    assert_eq!(count_significant_digits("123"), 3);
    assert_eq!(count_significant_digits("123.456"), 6);
    assert_eq!(count_significant_digits("123456789012345"), 15);
    assert_eq!(count_significant_digits("1234567890123456"), 16);
    assert_eq!(count_significant_digits("1.5e10"), 2);
    assert_eq!(count_significant_digits("123.456e10"), 6);
}

#[test]
fn test_escape_literal() {
    assert_eq!(escape_literal("hello"), "hello");
    assert_eq!(escape_literal(r#"hello"world"#), r#"hello\"world"#);
    assert_eq!(escape_literal(r#"path\to\file"#), r#"path\\to\\file"#);
    assert_eq!(escape_literal(r#"test\"quote"#), r#"test\\\"quote"#);
}

#[test]
fn test_parse_integer() {
    let result = parse_number_value("42", None).unwrap();
    assert!(matches!(result, NumberValue::Int(42)));
}

#[test]
fn test_parse_large_integer() {
    let result = parse_number_value("9223372036854775807", None).unwrap();
    assert!(matches!(result, NumberValue::Int(9223372036854775807)));
}

#[test]
fn test_parse_integer_too_large_for_i64() {
    let result = parse_number_value("9223372036854775808", None).unwrap();
    assert!(matches!(result, NumberValue::BigDecimal(_)));
}

#[test]
fn test_parse_negative_integer() {
    let result = parse_number_value("-42", None).unwrap();
    assert!(matches!(result, NumberValue::Int(-42)));
}

#[test]
fn test_parse_float() {
    let result = parse_number_value("3.14", None).unwrap();
    assert!(matches!(result, NumberValue::Float(_)));
    if let NumberValue::Float(lit) = result {
        assert_eq!(lit, "3.14");
    }
}

#[test]
fn test_parse_float_scientific_notation() {
    let result = parse_number_value("1.5e10", None).unwrap();
    assert!(matches!(result, NumberValue::Float(_)));
}

#[test]
fn test_parse_float_within_precision() {
    let result = parse_number_value("12345678901234.5", None).unwrap();
    assert!(matches!(result, NumberValue::Float(_)));
}

#[test]
fn test_parse_big_decimal_automatic() {
    let result = parse_number_value(
        "31212120129092108928901289001982890120988902190812098.218128128191289012077198209812908",
        None,
    )
    .unwrap();
    assert!(matches!(result, NumberValue::BigDecimal(_)));
    if let NumberValue::BigDecimal(s) = result {
        assert!(s.contains("31212120129092108928901289001982890120988902190812098"));
        assert!(s.contains("218128128191289012077198209812908"));
    }
}

#[test]
fn test_parse_big_decimal_many_digits() {
    let result = parse_number_value("123456789012345678901234567890.123456789", None).unwrap();
    assert!(matches!(result, NumberValue::BigDecimal(_)));
}

#[test]
fn test_parse_big_decimal_explicit() {
    let result = parse_number_value("123.456", Some("bigdecimal")).unwrap();
    assert!(matches!(result, NumberValue::BigDecimal(_)));
    if let NumberValue::BigDecimal(s) = result {
        assert_eq!(s, "123.456");
    }
}

#[test]
fn test_parse_explicit_i8() {
    let result = parse_explicit_number("127", "i8").unwrap();
    assert!(matches!(result, NumberValue::Typed { ty: NumberType::I8, .. }));
    if let NumberValue::Typed { literal, ty: _ } = result {
        assert_eq!(literal, "127");
    }
}

#[test]
fn test_parse_explicit_i8_overflow() {
    let result = parse_explicit_number("128", "i8");
    assert!(result.is_err());
}

#[test]
fn test_parse_explicit_i16() {
    let result = parse_explicit_number("32767", "i16").unwrap();
    assert!(matches!(result, NumberValue::Typed { ty: NumberType::I16, .. }));
}

#[test]
fn test_parse_explicit_i32() {
    let result = parse_explicit_number("2147483647", "i32").unwrap();
    assert!(matches!(result, NumberValue::Typed { ty: NumberType::I32, .. }));
}

#[test]
fn test_parse_explicit_i64() {
    let result = parse_explicit_number("9223372036854775807", "i64").unwrap();
    assert!(matches!(result, NumberValue::Typed { ty: NumberType::I64, .. }));
}

#[test]
fn test_parse_explicit_u8() {
    let result = parse_explicit_number("255", "u8").unwrap();
    assert!(matches!(result, NumberValue::Typed { ty: NumberType::U8, .. }));
}

#[test]
fn test_parse_explicit_u16() {
    let result = parse_explicit_number("65535", "u16").unwrap();
    assert!(matches!(result, NumberValue::Typed { ty: NumberType::U16, .. }));
}

#[test]
fn test_parse_explicit_u32() {
    let result = parse_explicit_number("4294967295", "u32").unwrap();
    assert!(matches!(result, NumberValue::Typed { ty: NumberType::U32, .. }));
}

#[test]
fn test_parse_explicit_u64() {
    let result = parse_explicit_number("18446744073709551615", "u64").unwrap();
    assert!(matches!(result, NumberValue::Typed { ty: NumberType::U64, .. }));
}

#[test]
fn test_parse_explicit_f32() {
    let result = parse_explicit_number("3.14", "f32").unwrap();
    assert!(matches!(result, NumberValue::Typed { ty: NumberType::F32, .. }));
    if let NumberValue::Typed { literal, ty: _ } = result {
        assert!(literal.contains("3.14"));
    }
}

#[test]
fn test_parse_explicit_f64() {
    let result = parse_explicit_number("3.141592653589793", "f64").unwrap();
    assert!(matches!(result, NumberValue::Typed { ty: NumberType::F64, .. }));
}

#[test]
fn test_parse_explicit_unsupported_type() {
    let result = parse_explicit_number("123", "invalid");
    assert!(result.is_err());
    assert!(result.unwrap_err().contains("Unsupported number type"));
}

#[test]
fn test_parse_empty_string() {
    let result = parse_number_value("", None);
    assert!(result.is_err());
}

#[test]
fn test_parse_with_whitespace() {
    let result = parse_number_value("  42  ", None).unwrap();
    assert!(matches!(result, NumberValue::Int(42)));
}

#[test]
fn invalid_literal_reports_error() {
    let result = parse_number_value("not_a_number", None);
    assert!(result.is_err());
    assert!(result.unwrap_err().contains("Invalid number literal"));
}

#[test]
fn sixteen_digits_need_big_decimal() {
    let result = parse_number_value("123456789012345.6", None).unwrap();
    assert!(matches!(result, NumberValue::BigDecimal(_)));
    let result = parse_number_value("12345678901234.5", None).unwrap();
    assert!(matches!(result, NumberValue::Float(_)));
}

#[test]
fn leading_zeros_are_not_significant() {
    assert_eq!(count_significant_digits("0.0000012345678901234"), 14);
    assert_eq!(count_significant_digits("000123"), 3);
    assert_eq!(count_significant_digits("0.000"), 0);
    let result = parse_number_value("0.0000012345678901234", None).unwrap();
    assert!(matches!(result, NumberValue::Float(_)));
}
