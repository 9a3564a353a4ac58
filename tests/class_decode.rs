use deprecated_class::class::{
    decode_entry_points_by_type, deserialize_optional_contract_class_abi_entry_vector,
    ContractClass, Program,
};
use deprecated_class::entry_point::{EntryPoint, EntryPointType};
use deprecated_class::error::DecodeError;
use deprecated_class::json::{JsonNumber, JsonValue};
use deprecated_class::offset::EntryPointOffset;
use deprecated_class::selector::EntryPointSelector;

fn text(s: &str) -> JsonValue {
    JsonValue::String(s.to_string())
}

fn obj(members: Vec<(&str, JsonValue)>) -> JsonValue {
    JsonValue::Object(members.into_iter().map(|(k, v)| (k.to_string(), v)).collect())
}

fn program() -> JsonValue {
    obj(vec![
        ("builtins", JsonValue::Array(vec![text("pedersen")])),
        ("data", JsonValue::Array(vec![text("0x1")])),
        ("debug_info", JsonValue::Null),
        ("hints", obj(vec![])),
        ("identifiers", obj(vec![])),
        ("main_scope", text("__main__")),
        ("prime", text("0x800000000000011000000000000000000000000000000000000000000000001")),
        ("reference_manager", obj(vec![])),
    ])
}

fn entry_points() -> JsonValue {
    obj(vec![
        (
            "EXTERNAL",
            JsonValue::Array(vec![obj(vec![
                ("selector", text("0x1")),
                ("offset", JsonValue::Number(JsonNumber::PosInt(3))),
            ])]),
        ),
        ("CONSTRUCTOR", JsonValue::Array(vec![])),
    ])
}

#[test]
fn malformed_abi_is_dropped() {
    let class = obj(vec![
        ("abi", text("not an array")),
        ("program", program()),
        ("entry_points_by_type", entry_points()),
    ]);
    let c = ContractClass::deserialize(class).unwrap();
    assert!(c.abi.is_none());
    assert!(matches!(&c.program.main_scope, JsonValue::String(s) if s == "__main__"));
    assert!(matches!(c.program.attributes, JsonValue::Null));
    assert_eq!(c.entry_points_by_type.len(), 2);
    assert_eq!(c.entry_points_by_type[0].0, EntryPointType::External);
    assert_eq!(
        c.entry_points_by_type[0].1,
        vec![EntryPoint {
            selector: EntryPointSelector { high: 0, low: 1 },
            offset: EntryPointOffset(3)
        }]
    );
    assert_eq!(c.entry_points_by_type[1].0, EntryPointType::Constructor);
    assert!(c.entry_points_by_type[1].1.is_empty());
}

#[test]
fn well_formed_abi_is_kept() {
    let class = obj(vec![
        ("abi", JsonValue::Array(vec![])),
        ("program", program()),
        ("entry_points_by_type", entry_points()),
    ]);
    let c = ContractClass::deserialize(class).unwrap();
    assert_eq!(c.abi, Some(vec![]));
}

#[test]
fn absent_abi_is_none() {
    let class = obj(vec![("program", program()), ("entry_points_by_type", entry_points())]);
    assert!(ContractClass::deserialize(class).unwrap().abi.is_none());
    assert!(deserialize_optional_contract_class_abi_entry_vector(None).is_none());
}

#[test]
fn class_without_program_fails() {
    let class = obj(vec![("entry_points_by_type", entry_points())]);
    assert_eq!(
        ContractClass::deserialize(class).err(),
        Some(DecodeError::MissingField("program".to_string()))
    );
    assert_eq!(
        ContractClass::deserialize(JsonValue::Null).err(),
        Some(DecodeError::MalformedValue)
    );
}

#[test]
fn program_requires_its_members() {
    let p = obj(vec![("builtins", JsonValue::Array(vec![]))]);
    assert_eq!(
        Program::deserialize(p).err(),
        Some(DecodeError::MissingField("data".to_string()))
    );
    let p = Program::deserialize(program()).unwrap();
    assert!(matches!(p.compiler_version, JsonValue::Null));
}

#[test]
fn entry_point_types_are_checked() {
    let v = obj(vec![("VIEW", JsonValue::Array(vec![]))]);
    assert_eq!(decode_entry_points_by_type(&v), Err(DecodeError::UnknownTag));
    let v = obj(vec![("EXTERNAL", JsonValue::Array(vec![])), ("EXTERNAL", JsonValue::Array(vec![]))]);
    assert_eq!(decode_entry_points_by_type(&v), Err(DecodeError::MalformedValue));
    let v = obj(vec![("L1_HANDLER", JsonValue::Array(vec![]))]);
    assert_eq!(
        decode_entry_points_by_type(&v),
        Ok(vec![(EntryPointType::L1Handler, vec![])])
    );
}

#[test]
fn wide_numbers_in_program_are_kept() {
    let wide = "340282366920938463463374607431768211456";
    let mut p = program();
    if let JsonValue::Object(fields) = &mut p {
        fields[4].1 = obj(vec![("bound", JsonValue::Number(JsonNumber::Other(wide.to_string())))]);
    }
    let p = Program::deserialize(p).unwrap();
    assert_eq!(
        p.identifiers,
        obj(vec![("bound", JsonValue::Number(JsonNumber::Other(wide.to_string())))])
    );
    assert_eq!(Program::default().prime, JsonValue::Null);
}

#[test]
fn class_encodes_and_decodes_back() {
    let class = obj(vec![
        ("abi", JsonValue::Array(vec![])),
        ("program", program()),
        ("entry_points_by_type", entry_points()),
    ]);
    let c = ContractClass::deserialize(class).unwrap();
    let expected = ContractClass::deserialize(obj(vec![
        ("abi", JsonValue::Array(vec![])),
        ("program", program()),
        ("entry_points_by_type", entry_points()),
    ]))
    .unwrap();
    let encoded = c.to_json();
    if let JsonValue::Object(fs) = &encoded {
        assert_eq!(fs[0].0, "abi");
        assert_eq!(fs.len(), 3);
    }
    let back = ContractClass::deserialize(encoded).unwrap();
    assert_eq!(back, expected);
    let no_abi = ContractClass { abi: None, ..ContractClass::deserialize(obj(vec![
        ("program", program()),
        ("entry_points_by_type", entry_points()),
    ])).unwrap() };
    if let JsonValue::Object(fs) = no_abi.to_json() {
        assert!(fs.iter().all(|(k, _)| k != "abi"));
    }
}
