use deprecated_class::abi::{
    decode_abi_entry, ContractClassAbiEntry, FunctionAbiEntry, FunctionStateMutability,
    StructAbiEntry, StructMember, TypedParameter,
};
use deprecated_class::class::decode_abi;
use deprecated_class::error::DecodeError;
use deprecated_class::json::{JsonNumber, JsonValue};

fn text(s: &str) -> JsonValue {
    JsonValue::String(s.to_string())
}

fn obj(members: Vec<(&str, JsonValue)>) -> JsonValue {
    JsonValue::Object(members.into_iter().map(|(k, v)| (k.to_string(), v)).collect())
}

fn param(name: &str, ty: &str) -> JsonValue {
    obj(vec![("name", text(name)), ("type", text(ty))])
}

fn function_entry(tag: &str, name: &str) -> JsonValue {
    obj(vec![
        ("type", text(tag)),
        ("name", text(name)),
        ("inputs", JsonValue::Array(vec![param("a", "felt")])),
        ("outputs", JsonValue::Array(vec![])),
    ])
}

fn tp(name: &str, ty: &str) -> TypedParameter {
    TypedParameter { name: name.to_string(), ty: ty.to_string() }
}

#[test]
fn abi_with_every_variant_keeps_order() {
    let abi = JsonValue::Array(vec![
        obj(vec![
            ("type", text("event")),
            ("name", text("Transfer")),
            ("keys", JsonValue::Array(vec![])),
            ("data", JsonValue::Array(vec![param("amount", "felt")])),
        ]),
        function_entry("function", "f"),
        function_entry("constructor", "c"),
        function_entry("l1_handler", "h"),
        obj(vec![
            ("type", text("struct")),
            ("name", text("Point")),
            ("size", JsonValue::Number(JsonNumber::PosInt(2))),
            (
                "members",
                JsonValue::Array(vec![obj(vec![
                    ("name", text("x")),
                    ("type", text("felt")),
                    ("offset", JsonValue::Number(JsonNumber::PosInt(0))),
                ])]),
            ),
        ]),
    ]);
    let entries = decode_abi(&abi).unwrap();
    assert_eq!(entries.len(), 5);
    match &entries[0] {
        ContractClassAbiEntry::Event(e) => {
            assert_eq!(e.name, "Transfer");
            assert!(e.keys.is_empty());
            assert_eq!(e.data, vec![tp("amount", "felt")]);
        }
        other => panic!("unexpected {:?}", other),
    }
    let f = FunctionAbiEntry {
        name: "f".to_string(),
        inputs: vec![tp("a", "felt")],
        outputs: vec![],
        state_mutability: None,
    };
    assert_eq!(entries[1], ContractClassAbiEntry::Function(f));
    assert!(matches!(&entries[2], ContractClassAbiEntry::Constructor(x) if x.name == "c"));
    assert!(matches!(&entries[3], ContractClassAbiEntry::L1Handler(x) if x.name == "h"));
    assert_eq!(
        entries[4],
        ContractClassAbiEntry::Struct(StructAbiEntry {
            name: "Point".to_string(),
            size: 2,
            members: vec![StructMember { param: tp("x", "felt"), offset: 0 }],
        })
    );
}

#[test]
fn undeclared_field_is_refused() {
    let mut entry = function_entry("function", "f");
    if let JsonValue::Object(fields) = &mut entry {
        fields.push(("foo".to_string(), JsonValue::Bool(true)));
    }
    assert_eq!(decode_abi_entry(&entry), Err(DecodeError::UnexpectedField("foo".to_string())));
    assert!(decode_abi(&JsonValue::Array(vec![entry])).is_err());
}

#[test]
fn unknown_tag_is_refused() {
    let entry = function_entry("method", "f");
    assert_eq!(decode_abi_entry(&entry), Err(DecodeError::UnknownTag));
}

#[test]
fn missing_tag_and_missing_field() {
    let missing = |f: &str| Err(DecodeError::MissingField(f.to_string()));
    let entry = obj(vec![("name", text("f"))]);
    assert_eq!(decode_abi_entry(&entry), missing("type"));
    let entry = obj(vec![("type", text("event")), ("keys", JsonValue::Array(vec![]))]);
    assert_eq!(decode_abi_entry(&entry), missing("name"));
    let entry = obj(vec![
        ("type", text("event")),
        ("name", text("E")),
        ("keys", JsonValue::Array(vec![])),
    ]);
    assert_eq!(decode_abi_entry(&entry), missing("data"));
    let entry = obj(vec![("type", text("struct")), ("name", text("S")), ("size", JsonValue::Number(JsonNumber::PosInt(1)))]);
    assert_eq!(decode_abi_entry(&entry), missing("members"));
    let entry = obj(vec![("type", text("event")), ("name", JsonValue::Bool(true))]);
    assert_eq!(decode_abi_entry(&entry), Err(DecodeError::MalformedValue));
    assert_eq!(decode_abi_entry(&JsonValue::Null), missing("type"));
}

#[test]
fn state_mutability_view() {
    let entry = obj(vec![
        ("type", text("function")),
        ("name", text("get")),
        ("inputs", JsonValue::Array(vec![])),
        ("outputs", JsonValue::Array(vec![param("r", "felt")])),
        ("stateMutability", text("view")),
    ]);
    match decode_abi_entry(&entry).unwrap() {
        ContractClassAbiEntry::Function(f) => {
            assert_eq!(f.state_mutability, Some(FunctionStateMutability::View));
            assert_eq!(f.outputs, vec![tp("r", "felt")]);
        }
        other => panic!("unexpected {:?}", other),
    }
    let entry = obj(vec![
        ("type", text("function")),
        ("name", text("get")),
        ("inputs", JsonValue::Array(vec![])),
        ("outputs", JsonValue::Array(vec![])),
        ("stateMutability", text("pure")),
    ]);
    assert_eq!(decode_abi_entry(&entry), Err(DecodeError::MalformedValue));
}

#[test]
fn struct_size_is_a_plain_integer() {
    let entry = obj(vec![
        ("type", text("struct")),
        ("name", text("S")),
        ("size", text("0x2")),
        ("members", JsonValue::Array(vec![])),
    ]);
    assert_eq!(decode_abi_entry(&entry), Err(DecodeError::MalformedValue));
}

#[test]
fn abi_must_be_an_array() {
    assert_eq!(decode_abi(&text("not an abi")), Err(DecodeError::MalformedValue));
    assert_eq!(decode_abi(&JsonValue::Array(vec![])), Ok(vec![]));
}

#[test]
fn abi_entries_encode_and_decode_back() {
    let entries = vec![
        ContractClassAbiEntry::Function(FunctionAbiEntry {
            name: "get".to_string(),
            inputs: vec![tp("a", "felt")],
            outputs: vec![],
            state_mutability: Some(FunctionStateMutability::View),
        }),
        ContractClassAbiEntry::L1Handler(FunctionAbiEntry {
            name: "h".to_string(),
            inputs: vec![],
            outputs: vec![],
            state_mutability: None,
        }),
        ContractClassAbiEntry::Struct(StructAbiEntry {
            name: "P".to_string(),
            size: 1,
            members: vec![StructMember { param: tp("x", "felt"), offset: 0 }],
        }),
    ];
    let v = deprecated_class::encode::abi_to_json(&entries);
    assert_eq!(decode_abi(&v), Ok(entries.clone()));
    if let JsonValue::Array(items) = &v {
        // No `stateMutability` member where it is `None`.
        assert!(matches!(&items[1], JsonValue::Object(fs) if fs.len() == 4));
        assert!(matches!(&items[0], JsonValue::Object(fs) if fs.len() == 5));
        // Struct members are flattened.
        let member = obj(vec![
            ("name", text("x")),
            ("type", text("felt")),
            ("offset", JsonValue::Number(JsonNumber::PosInt(0))),
        ]);
        assert!(matches!(&items[2], JsonValue::Object(fs) if fs[3].1 == JsonValue::Array(vec![member])));
    } else {
        panic!("not an array");
    }
}
