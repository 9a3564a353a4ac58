//! The contract class: its ABI, its program and its entry points, and the
//! decoding of a class from a structured value. A malformed ABI does not
//! fail the class: it is dropped.
use vstd::prelude::*;

use crate::abi::{abi_entry_matches, abi_entry_valid, decode_abi_entry, ContractClassAbiEntry};
use crate::entry_point::{
    decode_entry_point, entry_point_type_of, EntryPoint, EntryPointType,
};
use crate::error::{missing_field, DecodeError};
use crate::json::{field, find_member, str_eq, take_member, JsonValue};

verus! {

/// `v` is an array of well-formed ABI entries.
pub open spec fn abi_valid(v: JsonValue) -> bool {
    match v {
        JsonValue::Array(items) => all_abi_entries_valid(items@),
        _ => false,
    }
}

pub open spec fn all_abi_entries_valid(items: Seq<JsonValue>) -> bool {
    forall|i: int| 0 <= i < items.len() ==> abi_entry_valid(#[trigger] items[i])
}

/// `es` are, in order, the ABI entries of the array `v`.
pub open spec fn abi_matches(v: JsonValue, es: Seq<ContractClassAbiEntry>) -> bool {
    match v {
        JsonValue::Array(items) => all_abi_entries_match(items@, es),
        _ => false,
    }
}

pub open spec fn all_abi_entries_match(items: Seq<JsonValue>, es: Seq<ContractClassAbiEntry>) -> bool {
    items.len() == es.len() && forall|i: int|
        0 <= i < es.len() ==> abi_entry_matches(#[trigger] items[i], es[i])
}

/// Decodes an array of ABI entries, keeping their order.
pub fn decode_abi(v: &JsonValue) -> (r: Result<Vec<ContractClassAbiEntry>, DecodeError>)
    ensures
        r is Ok <==> abi_valid(*v),
        r is Ok ==> abi_matches(*v, r.unwrap()@),
        !(v is Array) ==> r == Err::<Vec<ContractClassAbiEntry>, DecodeError>(
            DecodeError::MalformedValue,
        ),
{
    let items = match v {
        JsonValue::Array(items) => items,
        _ => return Err(DecodeError::MalformedValue),
    };
    let mut out: Vec<ContractClassAbiEntry> = Vec::new();
    let mut i: usize = 0;
    while i < items.len()
        invariant
            i <= items@.len(),
            *v == JsonValue::Array(*items),
            out@.len() == i,
            forall|j: int| 0 <= j < i ==> abi_entry_valid(#[trigger] items@[j]),
            forall|j: int| 0 <= j < i ==> abi_entry_matches(#[trigger] items@[j], out@[j]),
        decreases items.len() - i,
    {
        match decode_abi_entry(&items[i]) {
            Ok(e) => out.push(e),
            Err(e) => {
                assert(!abi_entry_valid((*items)@[i as int]));
                assert(!all_abi_entries_valid(items@));
                return Err(e);
            },
        }
        i = i + 1;
    }
    assert(all_abi_entries_match(items@, out@));
    Ok(out)
}

/// Decodes the optional ABI of a class. An absent or malformed ABI gives
/// `None`: the ABI is advisory and does not fail the class.
pub fn deserialize_optional_contract_class_abi_entry_vector(v: Option<&JsonValue>) -> (r: Option<
    Vec<ContractClassAbiEntry>,
>)
    ensures
        r is Some <==> (v is Some && abi_valid(*v.unwrap())),
        r is Some ==> abi_matches(*v.unwrap(), r.unwrap()@),
{
    match v {
        Some(a) => match decode_abi(a) {
            Ok(es) => Some(es),
            Err(_) => None,
        },
        None => None,
    }
}

/// The program of a class: opaque values, carried through as they came.
#[derive(Debug, Default, PartialEq, Eq)]
pub struct Program {
    pub attributes: JsonValue,
    pub builtins: JsonValue,
    pub compiler_version: JsonValue,
    pub data: JsonValue,
    pub debug_info: JsonValue,
    pub hints: JsonValue,
    pub identifiers: JsonValue,
    pub main_scope: JsonValue,
    pub prime: JsonValue,
    pub reference_manager: JsonValue,
}

/// The member `key` of `v`, or `null` where it is absent.
pub open spec fn field_or_null(v: JsonValue, key: Seq<char>) -> JsonValue {
    match field(v, key) {
        Some(x) => x,
        None => JsonValue::Null,
    }
}

/// `v` is an object with every required member of a program.
pub open spec fn program_valid(v: JsonValue) -> bool {
    v is Object && field(v, "builtins"@) is Some && field(v, "data"@) is Some && field(
        v,
        "debug_info"@,
    ) is Some && field(v, "hints"@) is Some && field(v, "identifiers"@) is Some && field(
        v,
        "main_scope"@,
    ) is Some && field(v, "prime"@) is Some && field(v, "reference_manager"@) is Some
}

/// `p` holds the members of the program object `v`.
pub open spec fn program_matches(v: JsonValue, p: Program) -> bool {
    p.attributes == field_or_null(v, "attributes"@) && p.compiler_version == field_or_null(
        v,
        "compiler_version"@,
    ) && Some(p.builtins) == field(v, "builtins"@) && Some(p.data) == field(v, "data"@) && Some(
        p.debug_info,
    ) == field(v, "debug_info"@) && Some(p.hints) == field(v, "hints"@) && Some(p.identifiers)
        == field(v, "identifiers"@) && Some(p.main_scope) == field(v, "main_scope"@) && Some(
        p.prime,
    ) == field(v, "prime"@) && Some(p.reference_manager) == field(v, "reference_manager"@)
}

pub proof fn lemma_program_keys_distinct()
    ensures
        "attributes"@ != "builtins"@,
        "attributes"@ != "compiler_version"@,
        "attributes"@ != "data"@,
        "attributes"@ != "debug_info"@,
        "attributes"@ != "hints"@,
        "attributes"@ != "identifiers"@,
        "attributes"@ != "main_scope"@,
        "attributes"@ != "prime"@,
        "attributes"@ != "reference_manager"@,
        "builtins"@ != "compiler_version"@,
        "builtins"@ != "data"@,
        "builtins"@ != "debug_info"@,
        "builtins"@ != "hints"@,
        "builtins"@ != "identifiers"@,
        "builtins"@ != "main_scope"@,
        "builtins"@ != "prime"@,
        "builtins"@ != "reference_manager"@,
        "compiler_version"@ != "data"@,
        "compiler_version"@ != "debug_info"@,
        "compiler_version"@ != "hints"@,
        "compiler_version"@ != "identifiers"@,
        "compiler_version"@ != "main_scope"@,
        "compiler_version"@ != "prime"@,
        "compiler_version"@ != "reference_manager"@,
        "data"@ != "debug_info"@,
        "data"@ != "hints"@,
        "data"@ != "identifiers"@,
        "data"@ != "main_scope"@,
        "data"@ != "prime"@,
        "data"@ != "reference_manager"@,
        "debug_info"@ != "hints"@,
        "debug_info"@ != "identifiers"@,
        "debug_info"@ != "main_scope"@,
        "debug_info"@ != "prime"@,
        "debug_info"@ != "reference_manager"@,
        "hints"@ != "identifiers"@,
        "hints"@ != "main_scope"@,
        "hints"@ != "prime"@,
        "hints"@ != "reference_manager"@,
        "identifiers"@ != "main_scope"@,
        "identifiers"@ != "prime"@,
        "identifiers"@ != "reference_manager"@,
        "main_scope"@ != "prime"@,
        "main_scope"@ != "reference_manager"@,
        "prime"@ != "reference_manager"@,
{
    reveal_strlit("attributes");
    reveal_strlit("builtins");
    reveal_strlit("compiler_version");
    reveal_strlit("data");
    reveal_strlit("debug_info");
    reveal_strlit("hints");
    reveal_strlit("identifiers");
    reveal_strlit("main_scope");
    reveal_strlit("prime");
    reveal_strlit("reference_manager");
    assert("attributes"@.len() == 10);
    assert("builtins"@.len() == 8);
    assert("compiler_version"@.len() == 16);
    assert("data"@.len() == 4);
    assert("debug_info"@.len() == 10);
    assert("hints"@.len() == 5);
    assert("identifiers"@.len() == 11);
    assert("main_scope"@.len() == 10);
    assert("prime"@.len() == 5);
    assert("reference_manager"@.len() == 17);
    assert("attributes"@[0] != "debug_info"@[0]);
    assert("attributes"@[0] != "main_scope"@[0]);
    assert("debug_info"@[0] != "main_scope"@[0]);
    assert("hints"@[0] != "prime"@[0]);
}

impl Program {
    /// Decodes a program from an object. `attributes` and
    /// `compiler_version` are `null` where absent; the other members are
    /// required.
    pub fn deserialize(v: JsonValue) -> (r: Result<Program, DecodeError>)
        ensures
            r is Ok <==> program_valid(v),
            r is Ok ==> program_matches(v, r.unwrap()),
            !(v is Object) ==> r == Err::<Program, DecodeError>(DecodeError::MalformedValue),
            (v is Object && !program_valid(v)) ==> (r matches Err(DecodeError::MissingField(f))
                && field(v, f@) is None),
    {
        let ghost v0 = v;
        let mut fields = match v {
            JsonValue::Object(fields) => fields,
            _ => return Err(DecodeError::MalformedValue),
        };
        proof {
            lemma_program_keys_distinct();
        }
        let attributes = take_member(&mut fields, "attributes");
        let builtins = take_member(&mut fields, "builtins");
        let compiler_version = take_member(&mut fields, "compiler_version");
        let data = take_member(&mut fields, "data");
        let debug_info = take_member(&mut fields, "debug_info");
        let hints = take_member(&mut fields, "hints");
        let identifiers = take_member(&mut fields, "identifiers");
        let main_scope = take_member(&mut fields, "main_scope");
        let prime = take_member(&mut fields, "prime");
        let reference_manager = take_member(&mut fields, "reference_manager");
        let builtins = match builtins {
            Some(x) => x,
            None => return Err(missing_field("builtins")),
        };
        let data = match data {
            Some(x) => x,
            None => return Err(missing_field("data")),
        };
        let debug_info = match debug_info {
            Some(x) => x,
            None => return Err(missing_field("debug_info")),
        };
        let hints = match hints {
            Some(x) => x,
            None => return Err(missing_field("hints")),
        };
        let identifiers = match identifiers {
            Some(x) => x,
            None => return Err(missing_field("identifiers")),
        };
        let main_scope = match main_scope {
            Some(x) => x,
            None => return Err(missing_field("main_scope")),
        };
        let prime = match prime {
            Some(x) => x,
            None => return Err(missing_field("prime")),
        };
        let reference_manager = match reference_manager {
            Some(x) => x,
            None => return Err(missing_field("reference_manager")),
        };
        Ok(
            Program {
                attributes: match attributes {
                    Some(a) => a,
                    None => JsonValue::Null,
                },
                builtins,
                compiler_version: match compiler_version {
                    Some(c) => c,
                    None => JsonValue::Null,
                },
                data,
                debug_info,
                hints,
                identifiers,
                main_scope,
                prime,
                reference_manager,
            },
        )
    }
}

/// `e` is the entry point that `v` describes.
pub open spec fn entry_point_matches(v: JsonValue, e: EntryPoint) -> bool {
    decode_entry_point(v) == Ok::<(nat, usize), crate::error::DecodeErrorView>((e.selector.value(), e.offset.0))
        && e.selector.wf()
}

pub open spec fn all_entry_points_valid(items: Seq<JsonValue>) -> bool {
    forall|i: int| 0 <= i < items.len() ==> (#[trigger] decode_entry_point(items[i])) is Ok
}

pub open spec fn all_entry_points_match(items: Seq<JsonValue>, eps: Seq<EntryPoint>) -> bool {
    items.len() == eps.len() && forall|i: int|
        0 <= i < eps.len() ==> entry_point_matches(#[trigger] items[i], eps[i])
}

/// A member of `entry_points_by_type`: a known type and an array of entry points.
pub open spec fn group_valid(f: (String, JsonValue)) -> bool {
    entry_point_type_of(f.0@) is Some && match f.1 {
        JsonValue::Array(items) => all_entry_points_valid(items@),
        _ => false,
    }
}

pub open spec fn group_matches(f: (String, JsonValue), g: (EntryPointType, Vec<EntryPoint>)) -> bool {
    entry_point_type_of(f.0@) == Some(g.0) && match f.1 {
        JsonValue::Array(items) => all_entry_points_match(items@, g.1@),
        _ => false,
    }
}

pub open spec fn distinct_names(fields: Seq<(String, JsonValue)>) -> bool {
    forall|i: int, j: int| 0 <= i < j < fields.len() ==> (#[trigger] fields[i]).0@ != (
    #[trigger] fields[j]).0@
}

pub open spec fn all_groups_valid(fields: Seq<(String, JsonValue)>) -> bool {
    forall|i: int| 0 <= i < fields.len() ==> group_valid(#[trigger] fields[i])
}

pub open spec fn all_groups_match(
    fields: Seq<(String, JsonValue)>,
    gs: Seq<(EntryPointType, Vec<EntryPoint>)>,
) -> bool {
    fields.len() == gs.len() && forall|i: int|
        0 <= i < gs.len() ==> group_matches(#[trigger] fields[i], gs[i])
}

/// `v` maps each entry point type, at most once, to an array of entry points.
pub open spec fn by_type_valid(v: JsonValue) -> bool {
    match v {
        JsonValue::Object(fields) => all_groups_valid(fields@) && distinct_names(fields@),
        _ => false,
    }
}

pub open spec fn by_type_matches(v: JsonValue, gs: Seq<(EntryPointType, Vec<EntryPoint>)>) -> bool {
    match v {
        JsonValue::Object(fields) => all_groups_match(fields@, gs),
        _ => false,
    }
}

fn decode_entry_point_list(v: &JsonValue) -> (r: Result<Vec<EntryPoint>, DecodeError>)
    ensures
        r is Ok <==> (v matches JsonValue::Array(items) && all_entry_points_valid(items@)),
        r is Ok ==> (v matches JsonValue::Array(items) && all_entry_points_match(
            items@,
            r.unwrap()@,
        )),
{
    let items = match v {
        JsonValue::Array(items) => items,
        _ => return Err(DecodeError::MalformedValue),
    };
    let mut out: Vec<EntryPoint> = Vec::new();
    let mut i: usize = 0;
    while i < items.len()
        invariant
            i <= items@.len(),
            *v == JsonValue::Array(*items),
            out@.len() == i,
            forall|j: int| 0 <= j < i ==> (#[trigger] decode_entry_point(items@[j])) is Ok,
            forall|j: int| 0 <= j < i ==> entry_point_matches(#[trigger] items@[j], out@[j]),
        decreases items.len() - i,
    {
        match EntryPoint::deserialize(&items[i]) {
            Ok(e) => out.push(e),
            Err(e) => {
                assert(!(decode_entry_point((*items)@[i as int]) is Ok));
                assert(!all_entry_points_valid(items@));
                return Err(e);
            },
        }
        i = i + 1;
    }
    assert(all_entry_points_match(items@, out@));
    Ok(out)
}

/// Decodes `entry_points_by_type`: an object from entry point type names to
/// arrays of entry points, each type at most once, in the order given.
pub fn decode_entry_points_by_type(v: &JsonValue) -> (r: Result<
    Vec<(EntryPointType, Vec<EntryPoint>)>,
    DecodeError,
>)
    ensures
        r is Ok <==> by_type_valid(*v),
        r is Ok ==> by_type_matches(*v, r.unwrap()@),
{
    let fields = match v {
        JsonValue::Object(fields) => fields,
        _ => return Err(DecodeError::MalformedValue),
    };
    let mut out: Vec<(EntryPointType, Vec<EntryPoint>)> = Vec::new();
    let mut i: usize = 0;
    while i < fields.len()
        invariant
            i <= fields@.len(),
            *v == JsonValue::Object(*fields),
            out@.len() == i,
            forall|j: int| 0 <= j < i ==> group_valid(#[trigger] fields@[j]),
            forall|j: int| 0 <= j < i ==> group_matches(#[trigger] fields@[j], out@[j]),
            forall|a: int, b: int| 0 <= a < b < i ==> (#[trigger] fields@[a]).0@ != (
            #[trigger] fields@[b]).0@,
        decreases fields.len() - i,
    {
        let t = match EntryPointType::from_tag(fields[i].0.as_str()) {
            Ok(t) => t,
            Err(e) => {
                assert(!group_valid((*fields)@[i as int]));
                assert(!all_groups_valid(fields@));
                return Err(e);
            },
        };
        let mut j: usize = 0;
        while j < i
            invariant
                j <= i < fields@.len(),
                *v == JsonValue::Object(*fields),
                forall|a: int| 0 <= a < j ==> (#[trigger] fields@[a]).0@ != fields@[i as int].0@,
            decreases i - j,
        {
            if str_eq(fields[j].0.as_str(), fields[i].0.as_str()) {
                assert(!distinct_names(fields@)) by {
                    assert((*fields)@[j as int].0@ == (*fields)@[i as int].0@);
                }
                return Err(DecodeError::MalformedValue);
            }
            j = j + 1;
        }
        let eps = match decode_entry_point_list(&fields[i].1) {
            Ok(eps) => eps,
            Err(e) => {
                assert(!group_valid((*fields)@[i as int]));
                assert(!all_groups_valid(fields@));
                return Err(e);
            },
        };
        out.push((t, eps));
        i = i + 1;
    }
    assert(all_groups_valid(fields@));
    assert(all_groups_match(fields@, out@));
    Ok(out)
}

/// A legacy contract class.
#[derive(Debug, Default, PartialEq, Eq)]
pub struct ContractClass {
    /// `None` where the ABI was absent or malformed.
    pub abi: Option<Vec<ContractClassAbiEntry>>,
    pub program: Program,
    /// Entry points by type, each type at most once.
    pub entry_points_by_type: Vec<(EntryPointType, Vec<EntryPoint>)>,
}

impl ContractClass {
    /// Each entry point type appears at most once.
    pub open spec fn wf(self) -> bool {
        forall|i: int, j: int|
            0 <= i < j < self.entry_points_by_type@.len() ==> (
            #[trigger] self.entry_points_by_type@[i]).0 != (
            #[trigger] self.entry_points_by_type@[j]).0
    }
}

/// `v` is a class with a program and entry points; its ABI does not count.
pub open spec fn class_valid(v: JsonValue) -> bool {
    v is Object && (field(v, "entry_points_by_type"@) matches Some(e) && by_type_valid(e)) && (
    field(v, "program"@) matches Some(p) && program_valid(p))
}

/// The ABI that a class `v` carries: its entries where they are well-formed.
pub open spec fn class_abi_matches(v: JsonValue, abi: Option<Vec<ContractClassAbiEntry>>) -> bool {
    match field(v, "abi"@) {
        Some(a) => if abi_valid(a) {
            abi is Some && abi_matches(a, abi.unwrap()@)
        } else {
            abi is None
        },
        None => abi is None,
    }
}

/// `c` is the class that `v` describes.
pub open spec fn class_matches(v: JsonValue, c: ContractClass) -> bool {
    class_abi_matches(v, c.abi) && program_matches(field(v, "program"@).unwrap(), c.program)
        && by_type_matches(field(v, "entry_points_by_type"@).unwrap(), c.entry_points_by_type@)
}

proof fn lemma_groups_distinct_types(
    fields: Seq<(String, JsonValue)>,
    gs: Seq<(EntryPointType, Vec<EntryPoint>)>,
)
    requires
        all_groups_match(fields, gs),
        distinct_names(fields),
    ensures
        forall|i: int, j: int| 0 <= i < j < gs.len() ==> (#[trigger] gs[i]).0 != (#[trigger] gs[j]).0,
{
    assert forall|i: int, j: int| 0 <= i < j < gs.len() implies (#[trigger] gs[i]).0 != (
    #[trigger] gs[j]).0 by {
        assert(group_matches(fields[i], gs[i]));
        assert(group_matches(fields[j], gs[j]));
        assert(fields[i].0@ != fields[j].0@);
        let a = fields[i].0@;
        let b = fields[j].0@;
        if gs[i].0 == gs[j].0 {
            assert(entry_point_type_of(a) == entry_point_type_of(b));
        }
    }
}

impl ContractClass {
    /// Decodes a class. A missing or malformed program or entry point map
    /// fails the class; a malformed ABI only leaves `abi` as `None`.
    pub fn deserialize(v: JsonValue) -> (r: Result<ContractClass, DecodeError>)
        ensures
            r is Ok <==> class_valid(v),
            r is Ok ==> class_matches(v, r.unwrap()) && r.unwrap().wf(),
            !(v is Object) ==> r matches Err(DecodeError::MalformedValue),
            (v is Object && field(v, "entry_points_by_type"@) is None) ==> (r matches Err(
                DecodeError::MissingField(f),
            ) && f@ == "entry_points_by_type"@),
            (v is Object && (field(v, "entry_points_by_type"@) matches Some(e) && by_type_valid(e))
                && field(v, "program"@) is None) ==> (r matches Err(DecodeError::MissingField(f))
                && f@ == "program"@),
    {
        let mut fields = match v {
            JsonValue::Object(fields) => fields,
            _ => return Err(DecodeError::MalformedValue),
        };
        let abi = deserialize_optional_contract_class_abi_entry_vector(
            find_member(&fields, "abi"),
        );
        let entry_points_by_type = match find_member(&fields, "entry_points_by_type") {
            Some(e) => decode_entry_points_by_type(e)?,
            None => return Err(missing_field("entry_points_by_type")),
        };
        let program = match take_member(&mut fields, "program") {
            Some(p) => Program::deserialize(p)?,
            None => return Err(missing_field("program")),
        };
        let c = ContractClass { abi, program, entry_points_by_type };
        proof {
            let e = field(v, "entry_points_by_type"@).unwrap();
            if let JsonValue::Object(ef) = e {
                lemma_groups_distinct_types(ef@, c.entry_points_by_type@);
            }
        }
        Ok(c)
    }
}

} // verus!

verus! {

/// Where the `abi` member of a class is malformed, the class decoded from it
/// has no ABI. (`class_valid`, which says when a class decodes, does not read
/// that member.)
pub proof fn lemma_malformed_abi_dropped(v: JsonValue, c: ContractClass)
    requires
        class_matches(v, c),
        field(v, "abi"@) matches Some(a) && !abi_valid(a),
    ensures
        c.abi is None,
{
}

} // verus!
