//! The class ABI: its entry shapes and a strict decoder from structured
//! values. An entry is routed by its `type` tag, and a field that its shape
//! does not declare is refused.
use vstd::prelude::*;

use crate::error::{err_view, missing_field, DecodeError, DecodeErrorView};
use crate::json::{field, get_field, lemma_member_of_present, str_eq, JsonNumber, JsonValue};

verus! {

/// A named, typed parameter. The type is a type name, not checked further.
#[derive(Debug, Clone, Default, PartialEq, Eq)]
pub struct TypedParameter {
    pub name: String,
    pub ty: String,
}

/// A member of a struct ABI entry: a typed parameter at an offset.
#[derive(Debug, Clone, Default, PartialEq, Eq)]
pub struct StructMember {
    pub param: TypedParameter,
    pub offset: usize,
}

/// An event ABI entry.
#[derive(Debug, Clone, Default, PartialEq, Eq)]
pub struct EventAbiEntry {
    pub name: String,
    pub keys: Vec<TypedParameter>,
    pub data: Vec<TypedParameter>,
}

/// The state mutability of a function.
#[derive(Debug, Clone, Copy, Default, PartialEq, Eq, Structural)]
pub enum FunctionStateMutability {
    #[default]
    View,
}

/// A function, constructor or L1 handler ABI entry.
#[derive(Debug, Clone, Default, PartialEq, Eq)]
pub struct FunctionAbiEntry {
    pub name: String,
    pub inputs: Vec<TypedParameter>,
    pub outputs: Vec<TypedParameter>,
    pub state_mutability: Option<FunctionStateMutability>,
}

/// A struct ABI entry.
#[derive(Debug, Clone, Default, PartialEq, Eq)]
pub struct StructAbiEntry {
    pub name: String,
    pub size: usize,
    pub members: Vec<StructMember>,
}

/// An ABI entry, by the value of its `type` tag.
#[derive(Debug, Clone, PartialEq, Eq)]
pub enum ContractClassAbiEntry {
    Event(EventAbiEntry),
    Function(FunctionAbiEntry),
    Constructor(FunctionAbiEntry),
    L1Handler(FunctionAbiEntry),
    Struct(StructAbiEntry),
}

/// The text of a string value.
pub open spec fn json_str(v: Option<JsonValue>) -> Option<Seq<char>> {
    match v {
        Some(JsonValue::String(s)) => Some(s@),
        _ => None,
    }
}

/// A plain non-negative integer that fits in a `usize`.
pub open spec fn json_uint(v: Option<JsonValue>) -> Option<usize> {
    match v {
        Some(JsonValue::Number(JsonNumber::PosInt(n))) => if n <= usize::MAX {
            Some(n as usize)
        } else {
            None
        },
        _ => None,
    }
}

pub open spec fn is_function_tag(t: Seq<char>) -> bool {
    t == "function"@ || t == "constructor"@ || t == "l1_handler"@
}

pub open spec fn is_known_tag(t: Seq<char>) -> bool {
    t == "event"@ || is_function_tag(t) || t == "struct"@
}

/// `k` is a field that the shape tagged `tag` declares.
pub open spec fn declared_field(tag: Seq<char>, k: Seq<char>) -> bool {
    k == "type"@ || k == "name"@ || (tag == "event"@ && (k == "keys"@ || k == "data"@)) || (
    is_function_tag(tag) && (k == "inputs"@ || k == "outputs"@ || k == "stateMutability"@)) || (
    tag == "struct"@ && (k == "size"@ || k == "members"@))
}

/// Every member of the object `v` is declared by the shape tagged `tag`.
pub open spec fn only_declared_fields(v: JsonValue, tag: Seq<char>) -> bool {
    match v {
        JsonValue::Object(fields) => all_declared(fields@, tag),
        _ => false,
    }
}

pub open spec fn all_declared(fields: Seq<(String, JsonValue)>, tag: Seq<char>) -> bool {
    forall|i: int| 0 <= i < fields.len() ==> declared_field(tag, (#[trigger] fields[i]).0@)
}

/// `p` is what the object `v` describes as a typed parameter.
pub open spec fn param_matches(v: JsonValue, p: TypedParameter) -> bool {
    json_str(field(v, "name"@)) == Some(p.name@) && json_str(field(v, "type"@)) == Some(
        p.ty@,
    )
}

pub open spec fn param_valid(v: JsonValue) -> bool {
    json_str(field(v, "name"@)) is Some && json_str(field(v, "type"@)) is Some
}

pub open spec fn member_matches(v: JsonValue, m: StructMember) -> bool {
    param_matches(v, m.param) && json_uint(field(v, "offset"@)) == Some(m.offset)
}

pub open spec fn member_valid(v: JsonValue) -> bool {
    param_valid(v) && json_uint(field(v, "offset"@)) is Some
}

/// `v` is an array of typed parameters.
pub open spec fn params_valid(v: Option<JsonValue>) -> bool {
    match v {
        Some(JsonValue::Array(items)) => all_params_valid(items@),
        _ => false,
    }
}

pub open spec fn all_params_valid(items: Seq<JsonValue>) -> bool {
    forall|i: int| 0 <= i < items.len() ==> param_valid(#[trigger] items[i])
}

/// `ps` are, in order, the typed parameters of the array `v`.
pub open spec fn params_match(v: Option<JsonValue>, ps: Seq<TypedParameter>) -> bool {
    match v {
        Some(JsonValue::Array(items)) => all_params_match(items@, ps),
        _ => false,
    }
}

pub open spec fn all_params_match(items: Seq<JsonValue>, ps: Seq<TypedParameter>) -> bool {
    items.len() == ps.len() && forall|i: int|
        0 <= i < ps.len() ==> param_matches(#[trigger] items[i], ps[i])
}

pub open spec fn members_valid(v: Option<JsonValue>) -> bool {
    match v {
        Some(JsonValue::Array(items)) => all_members_valid(items@),
        _ => false,
    }
}

pub open spec fn all_members_valid(items: Seq<JsonValue>) -> bool {
    forall|i: int| 0 <= i < items.len() ==> member_valid(#[trigger] items[i])
}

pub open spec fn members_match(v: Option<JsonValue>, ms: Seq<StructMember>) -> bool {
    match v {
        Some(JsonValue::Array(items)) => all_members_match(items@, ms),
        _ => false,
    }
}

pub open spec fn all_members_match(items: Seq<JsonValue>, ms: Seq<StructMember>) -> bool {
    items.len() == ms.len() && forall|i: int|
        0 <= i < ms.len() ==> member_matches(#[trigger] items[i], ms[i])
}

/// The optional `stateMutability` is absent or `"view"`.
pub open spec fn mutability_valid(v: JsonValue) -> bool {
    field(v, "stateMutability"@) is None || json_str(field(v, "stateMutability"@)) == Some(
        "view"@,
    )
}

pub open spec fn function_valid(v: JsonValue) -> bool {
    json_str(field(v, "name"@)) is Some && params_valid(field(v, "inputs"@)) && params_valid(
        field(v, "outputs"@),
    ) && mutability_valid(v)
}

pub open spec fn function_matches(v: JsonValue, f: FunctionAbiEntry) -> bool {
    json_str(field(v, "name"@)) == Some(f.name@) && params_match(field(v, "inputs"@), f.inputs@)
        && params_match(field(v, "outputs"@), f.outputs@) && (if field(
        v,
        "stateMutability"@,
    ) is None {
        f.state_mutability is None
    } else {
        f.state_mutability == Some(FunctionStateMutability::View)
    })
}

/// The value of the `type` tag of `v`.
pub open spec fn entry_tag(v: JsonValue) -> Option<Seq<char>> {
    json_str(field(v, "type"@))
}

/// `v` is a well-formed ABI entry.
pub open spec fn abi_entry_valid(v: JsonValue) -> bool {
    match entry_tag(v) {
        Some(t) => is_known_tag(t) && only_declared_fields(v, t) && json_str(field(v, "name"@)) is Some
            && (if t == "event"@ {
            params_valid(field(v, "keys"@)) && params_valid(field(v, "data"@))
        } else if t == "struct"@ {
            json_uint(field(v, "size"@)) is Some && members_valid(field(v, "members"@))
        } else {
            function_valid(v)
        }),
        None => false,
    }
}

/// `e` is the ABI entry that `v` describes.
pub open spec fn abi_entry_matches(v: JsonValue, e: ContractClassAbiEntry) -> bool {
    match e {
        ContractClassAbiEntry::Event(x) => entry_tag(v) == Some("event"@) && json_str(
            field(v, "name"@),
        ) == Some(x.name@) && params_match(field(v, "keys"@), x.keys@) && params_match(
            field(v, "data"@),
            x.data@,
        ),
        ContractClassAbiEntry::Function(x) => entry_tag(v) == Some("function"@)
            && function_matches(v, x),
        ContractClassAbiEntry::Constructor(x) => entry_tag(v) == Some("constructor"@)
            && function_matches(v, x),
        ContractClassAbiEntry::L1Handler(x) => entry_tag(v) == Some("l1_handler"@)
            && function_matches(v, x),
        ContractClassAbiEntry::Struct(x) => entry_tag(v) == Some("struct"@) && json_str(
            field(v, "name"@),
        ) == Some(x.name@) && json_uint(field(v, "size"@)) == Some(x.size) && members_match(
            field(v, "members"@),
            x.members@,
        ),
    }
}

/// A copy of the string member `key` of `v`.
fn get_str(v: &JsonValue, key: &str) -> (r: Option<String>)
    ensures
        r is Some <==> json_str(field(*v, key@)) is Some,
        r is Some ==> json_str(field(*v, key@)) == Some(r.unwrap()@),
{
    match get_field(v, key) {
        Some(JsonValue::String(s)) => Some(s.clone()),
        _ => None,
    }
}

/// The plain integer member `key` of `v`.
fn get_uint(v: &JsonValue, key: &str) -> (r: Option<usize>)
    ensures
        r == json_uint(field(*v, key@)),
{
    match get_field(v, key) {
        Some(JsonValue::Number(JsonNumber::PosInt(n))) => {
            if *n as u128 <= usize::MAX as u128 {
                Some(*n as usize)
            } else {
                None
            }
        },
        _ => None,
    }
}

/// A `MissingField` error names a field that `v` lacks.
pub open spec fn missing_names_absent<T>(r: Result<T, DecodeError>, v: JsonValue) -> bool {
    r matches Err(DecodeError::MissingField(f)) ==> field(v, f@) is None
}

pub open spec fn no_unexpected_field<T>(r: Result<T, DecodeError>) -> bool {
    !(r matches Err(DecodeError::UnexpectedField(_)))
}

/// The member `key` of `v`; its absence is a `MissingField` error naming it.
fn require_field<'a>(v: &'a JsonValue, key: &str) -> (r: Result<&'a JsonValue, DecodeError>)
    ensures
        r is Ok <==> field(*v, key@) is Some,
        r is Ok ==> field(*v, key@) == Some(*r.unwrap()),
        r is Err ==> err_view(r) == Err::<&JsonValue, DecodeErrorView>(
            DecodeErrorView::MissingField(key@),
        ),
{
    match get_field(v, key) {
        Some(x) => Ok(x),
        None => Err(missing_field(key)),
    }
}

/// A copy of the string member `key` of `v`.
fn require_str(v: &JsonValue, key: &str) -> (r: Result<String, DecodeError>)
    ensures
        r is Ok <==> json_str(field(*v, key@)) is Some,
        r is Ok ==> json_str(field(*v, key@)) == Some(r.unwrap()@),
        missing_names_absent(r, *v),
        no_unexpected_field(r),
        field(*v, key@) is None ==> err_view(r) == Err::<String, DecodeErrorView>(
            DecodeErrorView::MissingField(key@),
        ),
{
    match require_field(v, key)? {
        JsonValue::String(s) => Ok(s.clone()),
        _ => Err(DecodeError::MalformedValue),
    }
}

fn decode_typed_parameter(v: &JsonValue) -> (r: Option<TypedParameter>)
    ensures
        r is Some <==> param_valid(*v),
        r is Some ==> param_matches(*v, r.unwrap()),
{
    let name = get_str(v, "name")?;
    let ty = get_str(v, "type")?;
    Some(TypedParameter { name, ty })
}

/// The typed parameters of the array member `key` of `v`.
fn decode_params(v: &JsonValue, key: &str) -> (r: Result<Vec<TypedParameter>, DecodeError>)
    ensures
        r is Ok <==> params_valid(field(*v, key@)),
        r is Ok ==> params_match(field(*v, key@), r.unwrap()@),
        missing_names_absent(r, *v),
        no_unexpected_field(r),
{
    let items = match require_field(v, key)? {
        JsonValue::Array(items) => items,
        _ => return Err(DecodeError::MalformedValue),
    };
    let mut out: Vec<TypedParameter> = Vec::new();
    let mut i: usize = 0;
    while i < items.len()
        invariant
            i <= items@.len(),
            out@.len() == i,
            field(*v, key@) == Some(JsonValue::Array(*items)),
            forall|j: int| 0 <= j < i ==> param_valid(#[trigger] items@[j]),
            forall|j: int| 0 <= j < i ==> param_matches(#[trigger] items@[j], out@[j]),
        decreases items.len() - i,
    {
        match decode_typed_parameter(&items[i]) {
            Some(p) => out.push(p),
            None => {
                assert(!param_valid((*items)@[i as int]));
                assert(!all_params_valid(items@));
                return Err(DecodeError::MalformedValue);
            },
        }
        i = i + 1;
    }
    Ok(out)
}

/// The struct members of the array member `members` of `v`.
fn decode_members(v: &JsonValue) -> (r: Result<Vec<StructMember>, DecodeError>)
    ensures
        r is Ok <==> members_valid(field(*v, "members"@)),
        r is Ok ==> members_match(field(*v, "members"@), r.unwrap()@),
        missing_names_absent(r, *v),
        no_unexpected_field(r),
{
    let items = match require_field(v, "members")? {
        JsonValue::Array(items) => items,
        _ => return Err(DecodeError::MalformedValue),
    };
    let mut out: Vec<StructMember> = Vec::new();
    let mut i: usize = 0;
    while i < items.len()
        invariant
            i <= items@.len(),
            out@.len() == i,
            field(*v, "members"@) == Some(JsonValue::Array(*items)),
            forall|j: int| 0 <= j < i ==> member_valid(#[trigger] items@[j]),
            forall|j: int| 0 <= j < i ==> member_matches(#[trigger] items@[j], out@[j]),
        decreases items.len() - i,
    {
        let param = match decode_typed_parameter(&items[i]) {
            Some(p) => p,
            None => {
                assert(!member_valid((*items)@[i as int]));
                assert(!all_members_valid(items@));
                return Err(DecodeError::MalformedValue);
            },
        };
        let offset = match get_uint(&items[i], "offset") {
            Some(o) => o,
            None => {
                assert(!member_valid((*items)@[i as int]));
                assert(!all_members_valid(items@));
                return Err(DecodeError::MalformedValue);
            },
        };
        out.push(StructMember { param, offset });
        i = i + 1;
    }
    Ok(out)
}

fn is_function_tag_exec(t: &str) -> (r: bool)
    ensures
        r == is_function_tag(t@),
{
    str_eq(t, "function") || str_eq(t, "constructor") || str_eq(t, "l1_handler")
}

fn declared_field_exec(tag: &str, k: &str) -> (r: bool)
    ensures
        r == declared_field(tag@, k@),
{
    if str_eq(k, "type") || str_eq(k, "name") {
        return true;
    }
    if str_eq(tag, "event") {
        if str_eq(k, "keys") || str_eq(k, "data") {
            return true;
        }
    }
    if is_function_tag_exec(tag) {
        if str_eq(k, "inputs") || str_eq(k, "outputs") || str_eq(k, "stateMutability") {
            return true;
        }
    }
    if str_eq(tag, "struct") {
        if str_eq(k, "size") || str_eq(k, "members") {
            return true;
        }
    }
    false
}

/// The name of the first member of the object `v` that the shape tagged
/// `tag` does not declare, if any.
fn first_undeclared_field(v: &JsonValue, tag: &str) -> (r: Option<String>)
    requires
        v is Object,
    ensures
        r is None <==> only_declared_fields(*v, tag@),
        r is Some ==> !declared_field(tag@, r.unwrap()@) && field(*v, r.unwrap()@) is Some,
{
    let fields = match v {
        JsonValue::Object(fields) => fields,
        _ => return None,
    };
    let mut i: usize = 0;
    while i < fields.len()
        invariant
            i <= fields@.len(),
            *v == JsonValue::Object(*fields),
            forall|j: int| 0 <= j < i ==> declared_field(tag@, (#[trigger] fields@[j]).0@),
        decreases fields.len() - i,
    {
        if !declared_field_exec(tag, fields[i].0.as_str()) {
            assert(!declared_field(tag@, (*fields)@[i as int].0@));
            assert(!all_declared(fields@, tag@));
            proof {
                lemma_member_of_present(fields@, fields@[i as int].0@, i as int);
            }
            return Some(fields[i].0.clone());
        }
        i = i + 1;
    }
    None
}

fn decode_function(v: &JsonValue) -> (r: Result<FunctionAbiEntry, DecodeError>)
    ensures
        r is Ok <==> function_valid(*v),
        r is Ok ==> function_matches(*v, r.unwrap()),
        missing_names_absent(r, *v),
        no_unexpected_field(r),
{
    let name = require_str(v, "name")?;
    let inputs = decode_params(v, "inputs")?;
    let outputs = decode_params(v, "outputs")?;
    let state_mutability = match get_field(v, "stateMutability") {
        None => None,
        Some(JsonValue::String(s)) => {
            if str_eq(s.as_str(), "view") {
                Some(FunctionStateMutability::View)
            } else {
                return Err(DecodeError::MalformedValue);
            }
        },
        Some(_) => return Err(DecodeError::MalformedValue),
    };
    Ok(FunctionAbiEntry { name, inputs, outputs, state_mutability })
}

/// Decodes one ABI entry, routed by its `type` tag. An unknown tag and a
/// field that the tagged shape does not declare are refused; a missing or
/// undeclared field is named in the error.
pub fn decode_abi_entry(v: &JsonValue) -> (r: Result<ContractClassAbiEntry, DecodeError>)
    ensures
        r is Ok <==> abi_entry_valid(*v),
        r is Ok ==> abi_entry_matches(*v, r.unwrap()),
        field(*v, "type"@) is None ==> err_view(r) == Err::<
            ContractClassAbiEntry,
            DecodeErrorView,
        >(DecodeErrorView::MissingField("type"@)),
        (field(*v, "type"@) is Some && entry_tag(*v) is None) ==> r == Err::<
            ContractClassAbiEntry,
            DecodeError,
        >(DecodeError::MalformedValue),
        (entry_tag(*v) matches Some(t) && !is_known_tag(t)) ==> r == Err::<
            ContractClassAbiEntry,
            DecodeError,
        >(DecodeError::UnknownTag),
        (entry_tag(*v) matches Some(t) && is_known_tag(t) && !only_declared_fields(*v, t)) ==> r
            matches Err(DecodeError::UnexpectedField(_)),
        missing_names_absent(r, *v),
        r matches Err(DecodeError::UnexpectedField(f)) ==> (entry_tag(*v) matches Some(t)
            && !declared_field(t, f@) && field(*v, f@) is Some),
{
    let tag = match require_field(v, "type")? {
        JsonValue::String(t) => t.as_str(),
        _ => return Err(DecodeError::MalformedValue),
    };
    let is_event = str_eq(tag, "event");
    let is_struct = str_eq(tag, "struct");
    let is_function = str_eq(tag, "function");
    let is_constructor = str_eq(tag, "constructor");
    let is_l1_handler = str_eq(tag, "l1_handler");
    if !(is_event || is_struct || is_function || is_constructor || is_l1_handler) {
        return Err(DecodeError::UnknownTag);
    }
    if let Some(f) = first_undeclared_field(v, tag) {
        return Err(DecodeError::UnexpectedField(f));
    }
    if is_event {
        let name = require_str(v, "name")?;
        let keys = decode_params(v, "keys")?;
        let data = decode_params(v, "data")?;
        return Ok(ContractClassAbiEntry::Event(EventAbiEntry { name, keys, data }));
    }
    if is_struct {
        let name = require_str(v, "name")?;
        let size = match require_field(v, "size")? {
            JsonValue::Number(JsonNumber::PosInt(n)) => {
                if *n as u128 <= usize::MAX as u128 {
                    *n as usize
                } else {
                    return Err(DecodeError::MalformedValue);
                }
            },
            _ => return Err(DecodeError::MalformedValue),
        };
        let members = decode_members(v)?;
        return Ok(ContractClassAbiEntry::Struct(StructAbiEntry { name, size, members }));
    }
    let f = decode_function(v)?;
    if is_function {
        Ok(ContractClassAbiEntry::Function(f))
    } else if is_constructor {
        Ok(ContractClassAbiEntry::Constructor(f))
    } else {
        Ok(ContractClassAbiEntry::L1Handler(f))
    }
}

} // verus!

verus! {

/// An entry with a known tag and a field that its shape does not declare is
/// no well-formed entry, whatever its other fields hold.
pub proof fn lemma_undeclared_field_refused(v: JsonValue, t: Seq<char>)
    requires
        entry_tag(v) == Some(t),
        is_known_tag(t),
        !only_declared_fields(v, t),
    ensures
        !abi_entry_valid(v),
{
}

} // verus!
