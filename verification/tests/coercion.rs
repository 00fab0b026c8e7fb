use holter_host::tree::{string_to_value, ValueParseError};
use holter_host::value::{TypeTag, TypedValue};

#[test]
fn unit_takes_empty_text() {
    assert_eq!(string_to_value("", TypeTag::UNIT), Ok(TypedValue::UNIT));
    assert_eq!(string_to_value("()", TypeTag::UNIT), Ok(TypedValue::UNIT));
}

#[test]
fn unit_rejects_other_text() {
    assert_eq!(string_to_value("x", TypeTag::UNIT), Err(ValueParseError::Unit));
    assert_eq!(string_to_value(" ", TypeTag::UNIT), Err(ValueParseError::Unit));
    assert_eq!(string_to_value("0", TypeTag::UNIT), Err(ValueParseError::Unit));
}

#[test]
fn integers_take_their_own_suffix_or_none() {
    assert_eq!(string_to_value("42", TypeTag::U8), Ok(TypedValue::U8(42)));
    assert_eq!(string_to_value("42u8", TypeTag::U8), Ok(TypedValue::U8(42)));
    assert_eq!(string_to_value("42u16", TypeTag::U8), Err(ValueParseError::Suffix));
    assert_eq!(string_to_value("0x10", TypeTag::U16), Ok(TypedValue::U16(16)));
    assert_eq!(string_to_value("1_000", TypeTag::I32), Ok(TypedValue::I32(1000)));
    assert_eq!(string_to_value("-5", TypeTag::I8), Ok(TypedValue::I8(-5)));
    assert_eq!(string_to_value("-128i8", TypeTag::I8), Ok(TypedValue::I8(-128)));
    assert_eq!(string_to_value("4294967295", TypeTag::U32), Ok(TypedValue::U32(u32::MAX)));
}

#[test]
fn integers_out_of_range_are_rejected() {
    assert_eq!(string_to_value("256", TypeTag::U8), Err(ValueParseError::Range));
    assert_eq!(string_to_value("-1", TypeTag::U8), Err(ValueParseError::Range));
    assert_eq!(string_to_value("-0", TypeTag::U32), Err(ValueParseError::Range));
    assert_eq!(string_to_value("128", TypeTag::I8), Err(ValueParseError::Range));
    assert_eq!(string_to_value("4294967296", TypeTag::U32), Err(ValueParseError::Range));
    assert_eq!(
        string_to_value("99999999999999999999999999", TypeTag::I32),
        Err(ValueParseError::Range)
    );
}

#[test]
fn text_that_is_no_literal_is_rejected() {
    assert_eq!(string_to_value("abc", TypeTag::U8), Err(ValueParseError::Literal));
    assert_eq!(string_to_value(" ", TypeTag::I32), Err(ValueParseError::Literal));
    assert_eq!(string_to_value("1 2", TypeTag::I32), Err(ValueParseError::Literal));
    assert_eq!(string_to_value("1.5", TypeTag::I32), Err(ValueParseError::Literal));
    assert_eq!(string_to_value("c\"x\"", TypeTag::I32), Err(ValueParseError::Literal));
    assert_eq!(string_to_value("yes", TypeTag::BOOL), Err(ValueParseError::Literal));
}

#[test]
fn booleans_are_boolean_literals() {
    assert_eq!(string_to_value("true", TypeTag::BOOL), Ok(TypedValue::BOOL(true)));
    assert_eq!(string_to_value("false", TypeTag::BOOL), Ok(TypedValue::BOOL(false)));
}

#[test]
fn strings_are_read_between_quotes() {
    assert_eq!(
        string_to_value("hello", TypeTag::STR),
        Ok(TypedValue::STR(String::from("hello")))
    );
    assert_eq!(string_to_value(" ", TypeTag::STR), Ok(TypedValue::STR(String::from(" "))));
    assert_eq!(
        string_to_value("a\\nb", TypeTag::STR),
        Ok(TypedValue::STR(String::from("a\nb")))
    );
    assert_eq!(string_to_value("a\"b", TypeTag::STR), Err(ValueParseError::Literal));
}

#[test]
fn bytes_are_read_between_brackets() {
    assert_eq!(
        string_to_value("1, 2, 0xff", TypeTag::BYTES),
        Ok(TypedValue::BYTES(vec![1, 2, 255]))
    );
    assert_eq!(string_to_value(" ", TypeTag::BYTES), Ok(TypedValue::BYTES(vec![])));
    assert_eq!(string_to_value("7u32,", TypeTag::BYTES), Ok(TypedValue::BYTES(vec![7])));
    assert_eq!(string_to_value("1, 256", TypeTag::BYTES), Err(ValueParseError::Range));
    assert_eq!(string_to_value("1, x", TypeTag::BYTES), Err(ValueParseError::Element));
    assert_eq!(string_to_value("-1", TypeTag::BYTES), Err(ValueParseError::Element));
    assert_eq!(string_to_value("x, 256", TypeTag::BYTES), Err(ValueParseError::Element));
    assert_eq!(string_to_value("1 2", TypeTag::BYTES), Err(ValueParseError::Literal));
}

#[test]
fn coerced_value_has_the_tag_of_the_leaf() {
    let cases = [
        ("", TypeTag::UNIT),
        ("true", TypeTag::BOOL),
        ("-3", TypeTag::I8),
        ("-300", TypeTag::I16),
        ("-70000", TypeTag::I32),
        ("3", TypeTag::U8),
        ("300", TypeTag::U16),
        ("70000", TypeTag::U32),
        ("text", TypeTag::STR),
        ("1,2", TypeTag::BYTES),
    ];
    for (text, ty) in cases {
        let value = string_to_value(text, ty).unwrap();
        assert_eq!(value.type_tag(), ty);
    }
}

#[test]
fn empty_text_is_for_unit_only() {
    let others = [
        TypeTag::BOOL,
        TypeTag::I8,
        TypeTag::I16,
        TypeTag::I32,
        TypeTag::U8,
        TypeTag::U16,
        TypeTag::U32,
        TypeTag::STR,
        TypeTag::BYTES,
    ];
    for ty in others {
        assert_eq!(string_to_value("", ty), Err(ValueParseError::Empty));
    }
    assert_eq!(string_to_value("", TypeTag::UNIT), Ok(TypedValue::UNIT));
}

#[test]
fn text_with_too_many_brackets_is_not_read() {
    let at_limit = "(".repeat(64);
    let over_limit = "[".repeat(65);
    for ty in [TypeTag::BOOL, TypeTag::I32, TypeTag::U8] {
        assert_eq!(string_to_value(&at_limit, ty), Err(ValueParseError::Literal));
        assert_eq!(string_to_value(&over_limit, ty), Err(ValueParseError::Nesting));
    }
    let balanced = format!("{}1{}", "(".repeat(64), ")".repeat(64));
    assert_eq!(string_to_value(&balanced, TypeTag::I32), Err(ValueParseError::Literal));
    let mixed = format!("{}1{}", "{[(".repeat(22), ")]}".repeat(22));
    assert_eq!(string_to_value(&mixed, TypeTag::I32), Err(ValueParseError::Nesting));
    assert_eq!(string_to_value("42 /* ( */", TypeTag::U8), Ok(TypedValue::U8(42)));
}

#[test]
fn a_string_without_quotes_may_hold_any_brackets() {
    let many = "([{".repeat(1000);
    assert_eq!(string_to_value(&many, TypeTag::STR), Ok(TypedValue::STR(many.clone())));
    let quoted = format!("say \\\"{}\\\"", "(".repeat(64));
    assert_eq!(
        string_to_value(&quoted, TypeTag::STR),
        Ok(TypedValue::STR(format!("say \"{}\"", "(".repeat(64))))
    );
    let deep = format!("a\" {} \"b", "(".repeat(65));
    assert_eq!(string_to_value(&deep, TypeTag::STR), Err(ValueParseError::Nesting));
    let open = format!("a\" {} \"b", "(".repeat(64));
    assert_eq!(string_to_value(&open, TypeTag::STR), Err(ValueParseError::Literal));
}

#[test]
fn a_byte_sequence_is_a_flat_list() {
    assert_eq!(string_to_value("1, (2)", TypeTag::BYTES), Err(ValueParseError::Element));
    assert_eq!(string_to_value("1, [2]", TypeTag::BYTES), Err(ValueParseError::Element));
    assert_eq!(string_to_value("1 /* c */, 2", TypeTag::BYTES), Err(ValueParseError::Element));
    assert_eq!(string_to_value("1, 2]", TypeTag::BYTES), Err(ValueParseError::Element));
    assert_eq!(string_to_value("1, 'a'", TypeTag::BYTES), Err(ValueParseError::Element));
    assert_eq!(
        string_to_value("break break break 1", TypeTag::BYTES),
        Err(ValueParseError::Element)
    );
    assert_eq!(string_to_value("1,, 2", TypeTag::BYTES), Err(ValueParseError::Literal));
    let long = format!("0x{}ff", "0".repeat(28));
    assert_eq!(long.len(), 32);
    assert_eq!(string_to_value(&long, TypeTag::BYTES), Ok(TypedValue::BYTES(vec![255])));
    let longer = format!("0x{}ff", "0".repeat(29));
    assert_eq!(string_to_value(&longer, TypeTag::BYTES), Err(ValueParseError::Element));
    let list: Vec<String> = (0..=255).map(|n| format!("{}", n)).collect();
    let all: Vec<u8> = (0..=255).collect();
    assert_eq!(string_to_value(&list.join(", "), TypeTag::BYTES), Ok(TypedValue::BYTES(all)));
}
