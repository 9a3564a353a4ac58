use deprecated_class::entry_point::{CompiledEntryPoint, EntryPoint, EntryPointType};
use deprecated_class::error::{DecodeError, StarknetApiError};
use deprecated_class::hex::HexError;
use deprecated_class::json::{JsonNumber, JsonValue};
use deprecated_class::offset::EntryPointOffset;
use deprecated_class::selector::EntryPointSelector;

fn text(s: &str) -> JsonValue {
    JsonValue::String(s.to_string())
}

fn obj(members: Vec<(&str, JsonValue)>) -> JsonValue {
    JsonValue::Object(members.into_iter().map(|(k, v)| (k.to_string(), v)).collect())
}

#[test]
fn entry_point_type_tags() {
    assert_eq!(EntryPointType::from_tag("EXTERNAL"), Ok(EntryPointType::default()));
    assert_eq!(EntryPointType::default(), EntryPointType::External);
    assert_eq!(EntryPointType::from_tag("CONSTRUCTOR"), Ok(EntryPointType::Constructor));
    assert_eq!(EntryPointType::from_tag("L1_HANDLER"), Ok(EntryPointType::L1Handler));
    assert_eq!(EntryPointType::from_tag("external"), Err(DecodeError::UnknownTag));
    assert_eq!(EntryPointType::from_tag(""), Err(DecodeError::UnknownTag));
    assert_eq!(EntryPointType::L1Handler.tag(), "L1_HANDLER");
    assert!(EntryPointType::Constructor < EntryPointType::External);
    assert!(EntryPointType::External < EntryPointType::L1Handler);
}

#[test]
fn compiled_entry_point_converts() {
    let ep = EntryPoint::try_from(CompiledEntryPoint { selector_hex: "ff".to_string(), offset: 10 })
        .unwrap();
    assert_eq!(ep.selector, EntryPointSelector::from_hex_str("ff").unwrap());
    assert_eq!(ep.selector, EntryPointSelector { high: 0, low: 255 });
    assert_eq!(ep.offset, EntryPointOffset(10));
}

#[test]
fn compiled_entry_point_with_bad_selector_fails() {
    let too_large = format!("1{}", "0".repeat(63));
    assert_eq!(
        EntryPoint::try_from(CompiledEntryPoint { selector_hex: too_large, offset: 0 }),
        Err(StarknetApiError::OutOfRange)
    );
    let too_long = "1".repeat(65);
    assert_eq!(
        EntryPoint::try_from(CompiledEntryPoint { selector_hex: too_long, offset: 0 }),
        Err(StarknetApiError::ParseInt(HexError::Overflow))
    );
    assert_eq!(
        EntryPoint::try_from(CompiledEntryPoint { selector_hex: "q".to_string(), offset: 0 }),
        Err(StarknetApiError::ParseInt(HexError::InvalidDigit))
    );
}

#[test]
fn selector_halves() {
    let s = EntryPointSelector::from_hex_str(&format!("0x{}{}", "ab", "0".repeat(32))).unwrap();
    assert_eq!(s, EntryPointSelector { high: 0xab, low: 0 });
    let max = format!("0x{}", "f".repeat(63));
    let s = EntryPointSelector::from_hex_str(&max).unwrap();
    assert_eq!(s.high, (1u128 << 124) - 1);
    assert_eq!(s.low, u128::MAX);
    assert_eq!(EntryPointSelector::from_hex_str("0x"), Err(StarknetApiError::ParseInt(HexError::Empty)));
}

#[test]
fn entry_point_from_wire() {
    let v = obj(vec![("selector", text("0x12")), ("offset", JsonValue::Number(JsonNumber::PosInt(7)))]);
    let ep = EntryPoint::deserialize(&v).unwrap();
    assert_eq!(ep.selector, EntryPointSelector { high: 0, low: 0x12 });
    assert_eq!(ep.offset, EntryPointOffset(7));
    let v = obj(vec![("selector", text("0x12")), ("offset", text("0x7"))]);
    assert_eq!(EntryPoint::deserialize(&v).unwrap().offset, EntryPointOffset(7));
    let v = obj(vec![("selector", text("0x12"))]);
    assert_eq!(EntryPoint::deserialize(&v), Err(DecodeError::MissingField("offset".to_string())));
    let v = obj(vec![("selector", text("0xzz")), ("offset", text("0x7"))]);
    assert_eq!(
        EntryPoint::deserialize(&v),
        Err(DecodeError::InvalidSelector(StarknetApiError::ParseInt(HexError::InvalidDigit)))
    );
    assert_eq!(EntryPoint::deserialize(&JsonValue::Null), Err(DecodeError::MalformedValue));
}

#[test]
fn selector_renders_in_canonical_hex() {
    assert_eq!(EntryPointSelector { high: 0, low: 255 }.to_hex(), "0xff");
    assert_eq!(EntryPointSelector { high: 0, low: 0 }.to_hex(), "0x0");
    let s = EntryPointSelector { high: 0xab, low: 1 };
    assert_eq!(s.to_hex(), format!("0xab{}1", "0".repeat(31)));
    assert_eq!(EntryPointSelector::from_hex_str(&s.to_hex()), Ok(s));
}

#[test]
fn entry_point_wire_round_trip() {
    let ep = EntryPoint {
        selector: EntryPointSelector { high: 3, low: 0x1234 },
        offset: EntryPointOffset(42),
    };
    let v = ep.to_json();
    match &v {
        JsonValue::Object(fs) => {
            assert_eq!(fs.len(), 2);
            assert_eq!(fs[0].0, "selector");
            assert!(matches!(&fs[1].1, JsonValue::String(o) if o == "0x2a"));
        }
        other => panic!("unexpected {:?}", other),
    }
    assert_eq!(EntryPoint::deserialize(&v), Ok(ep));
}
