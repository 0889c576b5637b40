use structmap::FieldValue;

#[test]
fn null_renders_empty() {
    assert_eq!(FieldValue::Null.to_string(), "");
}

#[test]
fn booleans_render_their_words() {
    assert_eq!(FieldValue::Bool(true).to_string(), "true");
    assert_eq!(FieldValue::Bool(false).to_string(), "false");
}

#[test]
fn integers_render_in_decimal() {
    assert_eq!(FieldValue::Int(0).to_string(), "0");
    assert_eq!(FieldValue::Int(-42).to_string(), "-42");
    assert_eq!(FieldValue::Int(9_007_199_254_740_993).to_string(), "9007199254740993");
    assert_eq!(FieldValue::Int(i64::MIN).to_string(), "-9223372036854775808");
}

#[test]
fn floats_render_their_bit_pattern() {
    assert_eq!(FieldValue::Float(5).to_string(), "5");
    assert_eq!(FieldValue::Float(u64::MAX).to_string(), "18446744073709551615");
}

#[test]
fn strings_render_as_themselves() {
    assert_eq!(FieldValue::String("hi there".to_string()).to_string(), "hi there");
}

#[test]
fn arrays_concatenate_their_elements_in_order() {
    let v = FieldValue::Array(vec![
        FieldValue::Int(1),
        FieldValue::String("x".to_string()),
        FieldValue::Null,
        FieldValue::Bool(false),
    ]);
    assert_eq!(v.to_string(), "1xfalse");
}

#[test]
fn mappings_concatenate_key_then_value() {
    let v = FieldValue::Mapping(vec![
        ("k".to_string(), FieldValue::Int(7)),
        ("m".to_string(), FieldValue::Bool(true)),
    ]);
    assert_eq!(v.to_string(), "k7mtrue");
}

#[test]
fn nested_structures_render_recursively() {
    let v = FieldValue::Array(vec![
        FieldValue::Mapping(vec![("a".to_string(), FieldValue::Int(1))]),
        FieldValue::Array(vec![FieldValue::Int(2), FieldValue::Int(3)]),
    ]);
    assert_eq!(v.to_string(), "a123");
}
