use deprecated_class::error::{DecodeError, StarknetApiError};
use deprecated_class::hex::{hex_string_try_into_usize, usize_to_hex, HexError};
use deprecated_class::json::{JsonNumber, JsonValue};
use deprecated_class::offset::{number_or_string, EntryPointOffset};

fn text(s: &str) -> JsonValue {
    JsonValue::String(s.to_string())
}

#[test]
fn hex_offset_decodes_and_reencodes() {
    let off = EntryPointOffset::deserialize(&text("0x1a")).unwrap();
    assert_eq!(off, EntryPointOffset(26));
    assert_eq!(off.serialize(), "0x1a");
}

#[test]
fn numeric_offset_decodes_and_reencodes_as_hex() {
    let off = EntryPointOffset::deserialize(&JsonValue::Number(JsonNumber::PosInt(42))).unwrap();
    assert_eq!(off, EntryPointOffset(42));
    assert_eq!(off.serialize(), "0x2a");
}

#[test]
fn round_trip_through_canonical_hex() {
    for x in [0usize, 1, 15, 16, 255, 4096, 123456789, usize::MAX] {
        let encoded = usize_to_hex(x);
        assert_eq!(number_or_string(&JsonValue::String(encoded)), Ok(x));
    }
}

#[test]
fn number_and_hex_forms_agree() {
    for x in [0usize, 10, 26, 42, 65535] {
        let a = number_or_string(&JsonValue::Number(JsonNumber::PosInt(x as u64)));
        let b = number_or_string(&JsonValue::String(usize_to_hex(x)));
        assert_eq!(a, b);
        assert_eq!(a, Ok(x));
    }
}

#[test]
fn negative_fractional_bool_null_are_refused() {
    assert_eq!(
        number_or_string(&JsonValue::Number(JsonNumber::NegInt(-1))),
        Err(DecodeError::NumericOverflow)
    );
    assert_eq!(
        number_or_string(&JsonValue::Number(JsonNumber::Other("1.5".to_string()))),
        Err(DecodeError::NumericOverflow)
    );
    assert_eq!(
        number_or_string(&JsonValue::Number(JsonNumber::Other(
            "340282366920938463463374607431768211456".to_string()
        ))),
        Err(DecodeError::NumericOverflow)
    );
    assert_eq!(number_or_string(&JsonValue::Number(JsonNumber::NegInt(7))), Ok(7));
    assert_eq!(number_or_string(&JsonValue::Bool(true)), Err(DecodeError::MalformedValue));
    assert_eq!(number_or_string(&JsonValue::Null), Err(DecodeError::MalformedValue));
    assert_eq!(number_or_string(&JsonValue::Array(vec![])), Err(DecodeError::MalformedValue));
    assert_eq!(number_or_string(&JsonValue::Object(vec![])), Err(DecodeError::MalformedValue));
}

#[test]
fn hex_strings_with_and_without_prefix() {
    assert_eq!(hex_string_try_into_usize("0x1a"), Ok(26));
    assert_eq!(hex_string_try_into_usize("1a"), Ok(26));
    assert_eq!(hex_string_try_into_usize("0x1A"), Ok(26));
    assert_eq!(hex_string_try_into_usize("0"), Ok(0));
    assert_eq!(hex_string_try_into_usize("0x0"), Ok(0));
}

#[test]
fn malformed_hex_strings() {
    assert_eq!(hex_string_try_into_usize(""), Err(HexError::Empty));
    assert_eq!(hex_string_try_into_usize("0x"), Err(HexError::Empty));
    assert_eq!(hex_string_try_into_usize("0xzz"), Err(HexError::InvalidDigit));
    assert_eq!(hex_string_try_into_usize("0x0x1"), Err(HexError::InvalidDigit));
    assert_eq!(hex_string_try_into_usize("+1"), Err(HexError::InvalidDigit));
    assert_eq!(
        number_or_string(&text("0xg")),
        Err(DecodeError::MalformedHex(HexError::InvalidDigit))
    );
}

#[test]
fn hex_overflow() {
    let too_big = format!("0x1{}", "0".repeat(std::mem::size_of::<usize>() * 2));
    assert_eq!(hex_string_try_into_usize(&too_big), Err(HexError::Overflow));
    let max = format!("0x{}", "f".repeat(std::mem::size_of::<usize>() * 2));
    assert_eq!(hex_string_try_into_usize(&max), Ok(usize::MAX));
}

#[test]
fn canonical_rendering() {
    assert_eq!(usize_to_hex(0), "0x0");
    assert_eq!(usize_to_hex(255), "0xff");
    assert_eq!(usize_to_hex(256), "0x100");
    assert_eq!(usize_to_hex(0xdeadbeef), "0xdeadbeef");
}

#[test]
fn offset_from_string() {
    assert_eq!(EntryPointOffset::try_from("0x10".to_string()), Ok(EntryPointOffset(16)));
    assert_eq!(
        EntryPointOffset::try_from("xyz".to_string()),
        Err(StarknetApiError::ParseInt(HexError::InvalidDigit))
    );
}

#[test]
fn offsets_are_ordered_by_value() {
    assert!(EntryPointOffset(3) < EntryPointOffset(10));
    assert_eq!(EntryPointOffset::default(), EntryPointOffset(0));
}
