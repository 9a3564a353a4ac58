//! Writing ABI entries and programs back to structured values. Each encoder
//! is stated by its round trip: the decoder reads back what was written.
use vstd::prelude::*;

use crate::abi::{
    abi_entry_matches, abi_entry_valid, entry_tag, function_matches, function_valid,
    is_function_tag, only_declared_fields, EventAbiEntry, StructAbiEntry, all_declared, all_members_match, all_members_valid,
    all_params_match, all_params_valid, declared_field, ContractClassAbiEntry,
    FunctionAbiEntry, FunctionStateMutability, StructMember, TypedParameter,
};
use crate::class::{lemma_program_keys_distinct, program_matches, program_valid, Program};
use crate::class::{
    abi_matches, abi_valid, all_abi_entries_match, all_abi_entries_valid, all_entry_points_match,
    all_entry_points_valid, all_groups_match, all_groups_valid, by_type_matches, by_type_valid,
    class_matches, class_valid, distinct_names, entry_point_matches, group_matches, group_valid,
    ContractClass,
};
use crate::entry_point::{
    decode_entry_point, entry_point_type_of, entry_point_type_tag, lemma_entry_point_round_trip,
    lemma_entry_point_type_tag_round_trip, EntryPoint, EntryPointType,
};
use crate::json::{member_of, JsonNumber, JsonValue};

verus! {

/// Looking a name up in an object with one more member at the end.
pub proof fn lemma_member_of_push(s: Seq<(String, JsonValue)>, p: (String, JsonValue), k: Seq<char>)
    ensures
        member_of(s.push(p), k) == (if member_of(s, k) is Some {
            member_of(s, k)
        } else if p.0@ == k {
            Some(p.1)
        } else {
            None
        }),
    decreases s.len(),
{
    if s.len() == 0 {
        assert(s.push(p)[0] == p);
        assert(s.push(p).drop_first() =~= Seq::<(String, JsonValue)>::empty());
        assert(member_of(Seq::<(String, JsonValue)>::empty(), k) is None);
        assert(member_of(s, k) is None);
    } else {
        assert(s.push(p)[0] == s[0]);
        assert(s.push(p).drop_first() =~= s.drop_first().push(p));
        lemma_member_of_push(s.drop_first(), p, k);
    }
}

/// An object with no members yet.
fn no_members() -> (r: Vec<(String, JsonValue)>)
    ensures
        r@.len() == 0,
        forall|k: Seq<char>| #[trigger] member_of(r@, k) is None,
{
    Vec::new()
}

/// Appends the member `key: v` to `fields`.
fn push_member(fields: &mut Vec<(String, JsonValue)>, key: &str, v: JsonValue)
    ensures
        final(fields)@.len() == old(fields)@.len() + 1,
        forall|k: Seq<char>| #[trigger]
            member_of(final(fields)@, k) == (if member_of(old(fields)@, k) is Some {
                member_of(old(fields)@, k)
            } else if key@ == k {
                Some(v)
            } else {
                None
            }),
        forall|i: int| 0 <= i < old(fields)@.len() ==> #[trigger] final(fields)@[i] == old(fields)@[i],
        final(fields)@.last().0@ == key@,
        final(fields)@.last().1 == v,
{
    let ghost s = fields@;
    let ghost vv = v;
    let k = String::from_str(key);
    fields.push((k, v));
    proof {
        assert forall|q: Seq<char>| #[trigger]
            member_of(fields@, q) == (if member_of(s, q) is Some {
                member_of(s, q)
            } else if key@ == q {
                Some(vv)
            } else {
                None
            }) by {
            lemma_member_of_push(s, (k, vv), q);
        }
    }
}

proof fn lemma_keys_distinct()
    ensures
        "type"@ != "name"@,
        "type"@ != "keys"@,
        "type"@ != "data"@,
        "type"@ != "size"@,
        "name"@ != "keys"@,
        "name"@ != "data"@,
        "name"@ != "size"@,
        "keys"@ != "data"@,
        "size"@ != "members"@,
        "name"@ != "inputs"@,
        "name"@ != "outputs"@,
        "type"@ != "inputs"@,
        "type"@ != "outputs"@,
        "inputs"@ != "outputs"@,
        "type"@ != "stateMutability"@,
        "name"@ != "stateMutability"@,
        "inputs"@ != "stateMutability"@,
        "outputs"@ != "stateMutability"@,
        "type"@ != "members"@,
        "name"@ != "members"@,
        "name"@ != "offset"@,
        "type"@ != "offset"@,
        "data"@ != "stateMutability"@,
        "keys"@ != "stateMutability"@,
        "size"@ != "stateMutability"@,
        "members"@ != "stateMutability"@,
{
    reveal_strlit("type");
    reveal_strlit("name");
    reveal_strlit("keys");
    reveal_strlit("data");
    reveal_strlit("size");
    reveal_strlit("members");
    reveal_strlit("inputs");
    reveal_strlit("outputs");
    reveal_strlit("stateMutability");
    reveal_strlit("offset");
    assert("type"@[0] != "name"@[0]);
    assert("type"@[0] != "keys"@[0]);
    assert("type"@[0] != "data"@[0]);
    assert("type"@[0] != "size"@[0]);
    assert("name"@[0] != "keys"@[0]);
    assert("name"@[0] != "data"@[0]);
    assert("name"@[0] != "size"@[0]);
    assert("keys"@[0] != "data"@[0]);
    assert("size"@.len() != "members"@.len());
    assert("inputs"@[0] != "outputs"@[0]);
}

impl TypedParameter {
    /// The wire form `{"name": .., "type": ..}`.
    pub fn to_json(&self) -> (r: JsonValue)
        ensures
            crate::abi::param_valid(r),
            crate::abi::param_matches(r, *self),
            r is Object,
    {
        proof {
            lemma_keys_distinct();
        }
        let mut fs = no_members();
        push_member(&mut fs, "name", JsonValue::String(self.name.clone()));
        push_member(&mut fs, "type", JsonValue::String(self.ty.clone()));
        JsonValue::Object(fs)
    }
}

/// The wire form of a list of typed parameters: an array of their objects.
pub fn params_to_json(ps: &Vec<TypedParameter>) -> (r: JsonValue)
    ensures
        r matches JsonValue::Array(items) && all_params_valid(items@) && all_params_match(
            items@,
            ps@,
        ),
{
    let mut out: Vec<JsonValue> = Vec::new();
    let mut i: usize = 0;
    while i < ps.len()
        invariant
            i <= ps@.len(),
            out@.len() == i,
            forall|j: int| 0 <= j < i ==> crate::abi::param_valid(#[trigger] out@[j]),
            forall|j: int| 0 <= j < i ==> crate::abi::param_matches(#[trigger] out@[j], ps@[j]),
        decreases ps.len() - i,
    {
        out.push(ps[i].to_json());
        i = i + 1;
    }
    JsonValue::Array(out)
}

impl StructMember {
    /// The wire form `{"name": .., "type": .., "offset": ..}`: the parameter's
    /// fields flattened beside the offset.
    pub fn to_json(&self) -> (r: JsonValue)
        ensures
            crate::abi::member_valid(r),
            crate::abi::member_matches(r, *self),
    {
        proof {
            lemma_keys_distinct();
        }
        let mut fs = no_members();
        push_member(&mut fs, "name", JsonValue::String(self.param.name.clone()));
        push_member(&mut fs, "type", JsonValue::String(self.param.ty.clone()));
        push_member(&mut fs, "offset", JsonValue::Number(JsonNumber::PosInt(self.offset as u64)));
        JsonValue::Object(fs)
    }
}

/// The wire form of a list of struct members.
pub fn members_to_json(ms: &Vec<StructMember>) -> (r: JsonValue)
    ensures
        r matches JsonValue::Array(items) && all_members_valid(items@) && all_members_match(
            items@,
            ms@,
        ),
{
    let mut out: Vec<JsonValue> = Vec::new();
    let mut i: usize = 0;
    while i < ms.len()
        invariant
            i <= ms@.len(),
            out@.len() == i,
            forall|j: int| 0 <= j < i ==> crate::abi::member_valid(#[trigger] out@[j]),
            forall|j: int| 0 <= j < i ==> crate::abi::member_matches(#[trigger] out@[j], ms@[j]),
        decreases ms.len() - i,
    {
        out.push(ms[i].to_json());
        i = i + 1;
    }
    JsonValue::Array(out)
}

/// The wire form of a function-shaped entry under the tag `tag`.
fn function_to_json(tag: &str, f: &FunctionAbiEntry) -> (r: JsonValue)
    requires
        is_function_tag(tag@),
    ensures
        entry_tag(r) == Some(tag@),
        only_declared_fields(r, tag@),
        function_valid(r),
        function_matches(r, *f),
{
    proof {
        lemma_keys_distinct();
    }
    let mut fs = no_members();
    push_member(&mut fs, "type", JsonValue::String(String::from_str(tag)));
    push_member(&mut fs, "name", JsonValue::String(f.name.clone()));
    push_member(&mut fs, "inputs", params_to_json(&f.inputs));
    push_member(&mut fs, "outputs", params_to_json(&f.outputs));
    let ghost before = fs@;
    match f.state_mutability {
        Some(FunctionStateMutability::View) => {
            proof {
                reveal_strlit("view");
            }
            push_member(&mut fs, "stateMutability", JsonValue::String(String::from_str("view")));
        },
        None => {},
    }
    proof {
        assert(forall|j: int| 0 <= j < before.len() ==> #[trigger] fs@[j] == before[j]);
        assert forall|j: int| 0 <= j < fs@.len() implies declared_field(
            tag@,
            (#[trigger] fs@[j]).0@,
        ) by {
            if j < 4 {
                assert(fs@[j] == before[j]);
            }
        }
        assert(all_declared(fs@, tag@));
        if f.state_mutability is Some {
            assert(f.state_mutability == Some(FunctionStateMutability::View));
        }
    }
    JsonValue::Object(fs)
}

impl ContractClassAbiEntry {
    /// The wire form of the entry: its fields and its `type` tag;
    /// `stateMutability` is left out where it is `None`.
    pub fn to_json(&self) -> (r: JsonValue)
        ensures
            abi_entry_valid(r),
            abi_entry_matches(r, *self),
    {
        proof {
            lemma_keys_distinct();
            reveal_strlit("event");
            reveal_strlit("struct");
            reveal_strlit("function");
            reveal_strlit("constructor");
            reveal_strlit("l1_handler");
            assert("event"@.len() == 5);
            assert("struct"@.len() == 6);
            assert("function"@.len() == 8);
            assert("constructor"@.len() == 11);
            assert("l1_handler"@.len() == 10);
        }
        match self {
            ContractClassAbiEntry::Event(e) => {
                let mut fs = no_members();
                push_member(&mut fs, "type", JsonValue::String(String::from_str("event")));
                push_member(&mut fs, "name", JsonValue::String(e.name.clone()));
                push_member(&mut fs, "keys", params_to_json(&e.keys));
                push_member(&mut fs, "data", params_to_json(&e.data));
                proof {
                    assert forall|j: int| 0 <= j < fs@.len() implies declared_field(
                        "event"@,
                        (#[trigger] fs@[j]).0@,
                    ) by {}
                    assert(all_declared(fs@, "event"@));
                }
                JsonValue::Object(fs)
            },
            ContractClassAbiEntry::Struct(e) => {
                let mut fs = no_members();
                push_member(&mut fs, "type", JsonValue::String(String::from_str("struct")));
                push_member(&mut fs, "name", JsonValue::String(e.name.clone()));
                push_member(&mut fs, "size", JsonValue::Number(JsonNumber::PosInt(e.size as u64)));
                push_member(&mut fs, "members", members_to_json(&e.members));
                proof {
                    assert forall|j: int| 0 <= j < fs@.len() implies declared_field(
                        "struct"@,
                        (#[trigger] fs@[j]).0@,
                    ) by {}
                    assert(all_declared(fs@, "struct"@));
                }
                JsonValue::Object(fs)
            },
            ContractClassAbiEntry::Function(f) => function_to_json("function", f),
            ContractClassAbiEntry::Constructor(f) => function_to_json("constructor", f),
            ContractClassAbiEntry::L1Handler(f) => function_to_json("l1_handler", f),
        }
    }
}

impl Program {
    /// The wire form of the program: an object of its ten members.
    pub fn to_json(self) -> (r: JsonValue)
        ensures
            program_valid(r),
            program_matches(r, self),
    {
        proof {
            lemma_program_keys_distinct();
        }
        let mut fs = no_members();
        push_member(&mut fs, "attributes", self.attributes);
        push_member(&mut fs, "builtins", self.builtins);
        push_member(&mut fs, "compiler_version", self.compiler_version);
        push_member(&mut fs, "data", self.data);
        push_member(&mut fs, "debug_info", self.debug_info);
        push_member(&mut fs, "hints", self.hints);
        push_member(&mut fs, "identifiers", self.identifiers);
        push_member(&mut fs, "main_scope", self.main_scope);
        push_member(&mut fs, "prime", self.prime);
        push_member(&mut fs, "reference_manager", self.reference_manager);
        JsonValue::Object(fs)
    }
}

/// The wire form of a list of ABI entries, in order.
pub fn abi_to_json(es: &Vec<ContractClassAbiEntry>) -> (r: JsonValue)
    ensures
        abi_valid(r),
        abi_matches(r, es@),
{
    let mut out: Vec<JsonValue> = Vec::new();
    let mut i: usize = 0;
    while i < es.len()
        invariant
            i <= es@.len(),
            out@.len() == i,
            forall|j: int| 0 <= j < i ==> abi_entry_valid(#[trigger] out@[j]),
            forall|j: int| 0 <= j < i ==> abi_entry_matches(#[trigger] out@[j], es@[j]),
        decreases es.len() - i,
    {
        out.push(es[i].to_json());
        i = i + 1;
    }
    assert(all_abi_entries_valid(out@));
    assert(all_abi_entries_match(out@, es@));
    JsonValue::Array(out)
}

/// The wire form of a list of entry points, in order.
pub fn entry_points_to_json(eps: &Vec<EntryPoint>) -> (r: JsonValue)
    requires
        forall|j: int| 0 <= j < eps@.len() ==> (#[trigger] eps@[j]).selector.wf(),
    ensures
        r matches JsonValue::Array(items) && all_entry_points_valid(items@)
            && all_entry_points_match(items@, eps@),
{
    let mut out: Vec<JsonValue> = Vec::new();
    let mut i: usize = 0;
    while i < eps.len()
        invariant
            i <= eps@.len(),
            out@.len() == i,
            forall|j: int| 0 <= j < eps@.len() ==> (#[trigger] eps@[j]).selector.wf(),
            forall|j: int| 0 <= j < i ==> entry_point_matches(#[trigger] out@[j], eps@[j]),
        decreases eps.len() - i,
    {
        let v = eps[i].to_json();
        proof {
            lemma_entry_point_round_trip(eps@[i as int], v);
        }
        out.push(v);
        i = i + 1;
    }
    assert forall|j: int| 0 <= j < out@.len() implies (#[trigger] decode_entry_point(
        out@[j],
    )) is Ok by {
        assert(entry_point_matches(out@[j], eps@[j]));
    }
    JsonValue::Array(out)
}

/// Every entry point of the groups has a well-formed selector.
pub open spec fn groups_selectors_wf(gs: Seq<(EntryPointType, Vec<EntryPoint>)>) -> bool {
    forall|i: int, j: int|
        0 <= i < gs.len() && 0 <= j < gs[i].1@.len() ==> (#[trigger] gs[i].1@[j]).selector.wf()
}

pub open spec fn groups_distinct(gs: Seq<(EntryPointType, Vec<EntryPoint>)>) -> bool {
    forall|i: int, j: int| 0 <= i < j < gs.len() ==> (#[trigger] gs[i]).0 != (#[trigger] gs[j]).0
}

/// The wire form of entry points by type: an object from type names to arrays.
pub fn by_type_to_json(gs: &Vec<(EntryPointType, Vec<EntryPoint>)>) -> (r: JsonValue)
    requires
        groups_distinct(gs@),
        groups_selectors_wf(gs@),
    ensures
        by_type_valid(r),
        by_type_matches(r, gs@),
{
    let mut fs = no_members();
    let mut i: usize = 0;
    while i < gs.len()
        invariant
            i <= gs@.len(),
            fs@.len() == i,
            groups_distinct(gs@),
            groups_selectors_wf(gs@),
            forall|j: int| 0 <= j < i ==> (#[trigger] fs@[j]).0@ == entry_point_type_tag(gs@[j].0),
            forall|j: int| 0 <= j < i ==> group_valid(#[trigger] fs@[j]),
            forall|j: int| 0 <= j < i ==> group_matches(#[trigger] fs@[j], gs@[j]),
        decreases gs.len() - i,
    {
        assert forall|j: int| 0 <= j < gs@[i as int].1@.len() implies (
        #[trigger] gs@[i as int].1@[j]).selector.wf() by {}
        let v = entry_points_to_json(&gs[i].1);
        proof {
            lemma_entry_point_type_tag_round_trip(gs@[i as int].0);
        }
        push_member(&mut fs, gs[i].0.tag(), v);
        i = i + 1;
    }
    assert forall|a: int, b: int| 0 <= a < b < fs@.len() implies (#[trigger] fs@[a]).0@ != (
    #[trigger] fs@[b]).0@ by {
        lemma_entry_point_type_tag_round_trip(gs@[a].0);
        lemma_entry_point_type_tag_round_trip(gs@[b].0);
        assert(gs@[a].0 != gs@[b].0);
    }
    assert(distinct_names(fs@));
    assert(all_groups_valid(fs@));
    assert(all_groups_match(fs@, gs@));
    JsonValue::Object(fs)
}

impl ContractClass {
    /// The wire form of the class: `abi` (left out where it is `None`),
    /// `program` and `entry_points_by_type`.
    pub fn to_json(self) -> (r: JsonValue)
        requires
            self.wf(),
            groups_selectors_wf(self.entry_points_by_type@),
        ensures
            class_valid(r),
            class_matches(r, self),
    {
        proof {
            reveal_strlit("abi");
            reveal_strlit("program");
            reveal_strlit("entry_points_by_type");
            assert("abi"@.len() == 3);
            assert("program"@.len() == 7);
            assert("entry_points_by_type"@.len() == 20);
        }
        let ContractClass { abi, program, entry_points_by_type } = self;
        let mut fs = no_members();
        match &abi {
            Some(es) => push_member(&mut fs, "abi", abi_to_json(es)),
            None => {},
        }
        push_member(&mut fs, "entry_points_by_type", by_type_to_json(&entry_points_by_type));
        push_member(&mut fs, "program", program.to_json());
        JsonValue::Object(fs)
    }
}

} // verus!
