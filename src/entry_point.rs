//! Entry points: their types, their wire decoding, and their construction
//! from a compiled-artifact entry point.
use vstd::prelude::*;

use crate::error::{err_view, missing_field, DecodeError, DecodeErrorView, StarknetApiError};
use crate::json::{field, get_field, str_eq, JsonValue};
use crate::hex::{canonical_hex, lemma_parse_canonical};
use crate::json::member_of;
use crate::offset::{decode_offset, EntryPointOffset};
use crate::selector::{lemma_selector_round_trip, parse_selector, EntryPointSelector};

verus! {

/// The kind of an entry point, in their canonical order.
#[derive(Debug, Clone, Copy, PartialEq, Eq, Structural, Hash, PartialOrd, Ord)]
pub enum EntryPointType {
    /// A constructor entry point.
    Constructor,
    /// An external entry point.
    External,
    /// An L1 handler entry point.
    L1Handler,
}

impl Default for EntryPointType {
    fn default() -> (r: EntryPointType)
        ensures
            r == EntryPointType::External,
    {
        EntryPointType::External
    }
}

/// The canonical text of each entry point type.
pub open spec fn entry_point_type_tag(t: EntryPointType) -> Seq<char> {
    match t {
        EntryPointType::Constructor => "CONSTRUCTOR"@,
        EntryPointType::External => "EXTERNAL"@,
        EntryPointType::L1Handler => "L1_HANDLER"@,
    }
}

/// The entry point type whose canonical text is `s`, if any.
pub open spec fn entry_point_type_of(s: Seq<char>) -> Option<EntryPointType> {
    if s == "CONSTRUCTOR"@ {
        Some(EntryPointType::Constructor)
    } else if s == "EXTERNAL"@ {
        Some(EntryPointType::External)
    } else if s == "L1_HANDLER"@ {
        Some(EntryPointType::L1Handler)
    } else {
        None
    }
}

impl EntryPointType {
    /// The canonical text of this type.
    pub fn tag(&self) -> (r: &'static str)
        ensures
            r@ == entry_point_type_tag(*self),
    {
        match self {
            EntryPointType::Constructor => "CONSTRUCTOR",
            EntryPointType::External => "EXTERNAL",
            EntryPointType::L1Handler => "L1_HANDLER",
        }
    }

    /// The type whose canonical text is `s`; any other text is refused.
    pub fn from_tag(s: &str) -> (r: Result<EntryPointType, DecodeError>)
        ensures
            match entry_point_type_of(s@) {
                Some(t) => r == Ok::<EntryPointType, DecodeError>(t),
                None => r == Err::<EntryPointType, DecodeError>(DecodeError::UnknownTag),
            },
    {
        if str_eq(s, "CONSTRUCTOR") {
            Ok(EntryPointType::Constructor)
        } else if str_eq(s, "EXTERNAL") {
            Ok(EntryPointType::External)
        } else if str_eq(s, "L1_HANDLER") {
            Ok(EntryPointType::L1Handler)
        } else {
            Err(DecodeError::UnknownTag)
        }
    }
}

/// Reading a type from its own canonical text gives it back.
pub proof fn lemma_entry_point_type_tag_round_trip(t: EntryPointType)
    ensures
        entry_point_type_of(entry_point_type_tag(t)) == Some(t),
{
    reveal_strlit("CONSTRUCTOR");
    reveal_strlit("EXTERNAL");
    reveal_strlit("L1_HANDLER");
    assert("CONSTRUCTOR"@.len() == 11);
    assert("EXTERNAL"@.len() == 8);
    assert("L1_HANDLER"@.len() == 10);
}

/// An entry point: the selector that calls it and where its code starts.
#[derive(Debug, Clone, Copy, Default, PartialEq, Eq, Structural, Hash, PartialOrd, Ord)]
pub struct EntryPoint {
    pub selector: EntryPointSelector,
    pub offset: EntryPointOffset,
}

/// An entry point of a compiled artifact, with its selector rendered in
/// base 16 (lower-case digits, no prefix) and its numeric offset.
#[derive(Debug, Clone, PartialEq, Eq)]
pub struct CompiledEntryPoint {
    pub selector_hex: String,
    pub offset: usize,
}

/// What decoding a wire value as an entry point gives: the selector's value
/// and the offset.
pub open spec fn decode_entry_point(v: JsonValue) -> Result<(nat, usize), DecodeErrorView> {
    if !(v is Object) {
        Err(DecodeErrorView::MalformedValue)
    } else {
        match field(v, "selector"@) {
            None => Err(DecodeErrorView::MissingField("selector"@)),
            Some(JsonValue::String(s)) => match parse_selector(s@) {
                Err(e) => Err(DecodeErrorView::InvalidSelector(e)),
                Ok(sv) => match field(v, "offset"@) {
                    None => Err(DecodeErrorView::MissingField("offset"@)),
                    Some(o) => match decode_offset(o) {
                        Ok(n) => Ok((sv, n)),
                        Err(e) => Err(e),
                    },
                },
            },
            Some(_) => Err(DecodeErrorView::MalformedValue),
        }
    }
}

/// `v` is the wire form of `e`: an object whose `selector` and `offset` are
/// their canonical hex strings.
pub open spec fn entry_point_json(v: JsonValue, e: EntryPoint) -> bool {
    v is Object && (field(v, "selector"@) matches Some(JsonValue::String(s)) && s@ == canonical_hex(
        e.selector.value(),
    )) && (field(v, "offset"@) matches Some(JsonValue::String(o)) && o@ == canonical_hex(
        e.offset.0 as nat,
    ))
}

/// Decoding the wire form of an entry point gives the entry point back.
pub proof fn lemma_entry_point_round_trip(e: EntryPoint, v: JsonValue)
    requires
        e.selector.wf(),
        entry_point_json(v, e),
    ensures
        decode_entry_point(v) == Ok::<(nat, usize), DecodeErrorView>((e.selector.value(), e.offset.0)),
{
    lemma_selector_round_trip(e.selector);
    lemma_parse_canonical(e.offset.0);
}

impl EntryPoint {
    /// The wire form of the entry point: `{"selector": <hex>, "offset": <hex>}`,
    /// both in canonical hex.
    pub fn to_json(&self) -> (r: JsonValue)
        ensures
            entry_point_json(r, *self),
            r matches JsonValue::Object(fs) && fs@.len() == 2,
    {
        proof {
            reveal_strlit("selector");
            reveal_strlit("offset");
            assert("selector"@.len() == 8);
            assert("offset"@.len() == 6);
        }
        let mut fs: Vec<(String, JsonValue)> = Vec::new();
        fs.push((String::from_str("selector"), JsonValue::String(self.selector.to_hex())));
        fs.push((String::from_str("offset"), JsonValue::String(self.offset.serialize())));
        proof {
            assert(fs@[0].0@ == "selector"@);
            assert(fs@[1].0@ == "offset"@);
            assert(fs@.drop_first()[0] == fs@[1]);
            assert(member_of(fs@, "offset"@) == member_of(fs@.drop_first(), "offset"@));
        }
        JsonValue::Object(fs)
    }

    /// Builds an entry point from a compiled-artifact entry point. A selector
    /// that is no valid field element fails the conversion.
    pub fn try_from(value: CompiledEntryPoint) -> (r: Result<EntryPoint, StarknetApiError>)
        ensures
            match parse_selector(value.selector_hex@) {
                Ok(v) => r is Ok && r.unwrap().selector.value() == v && r.unwrap().selector.wf()
                    && r.unwrap().offset == EntryPointOffset(value.offset),
                Err(e) => r == Err::<EntryPoint, StarknetApiError>(e),
            },
    {
        let selector = EntryPointSelector::from_hex_str(value.selector_hex.as_str())?;
        Ok(EntryPoint { selector, offset: EntryPointOffset(value.offset) })
    }

    /// Decodes an entry point from `{"selector": <hex>, "offset": <number or hex>}`.
    pub fn deserialize(v: &JsonValue) -> (r: Result<EntryPoint, DecodeError>)
        ensures
            match decode_entry_point(*v) {
                Ok((sv, n)) => r is Ok && r.unwrap().selector.value() == sv
                    && r.unwrap().selector.wf() && r.unwrap().offset == EntryPointOffset(n),
                Err(e) => err_view(r) == Err::<EntryPoint, DecodeErrorView>(e),
            },
    {
        if !matches!(v, JsonValue::Object(_)) {
            return Err(DecodeError::MalformedValue);
        }
        let selector = match get_field(v, "selector") {
            None => return Err(missing_field("selector")),
            Some(JsonValue::String(s)) => match EntryPointSelector::from_hex_str(s.as_str()) {
                Ok(sel) => sel,
                Err(e) => return Err(DecodeError::InvalidSelector(e)),
            },
            Some(_) => return Err(DecodeError::MalformedValue),
        };
        let offset = match get_field(v, "offset") {
            None => return Err(missing_field("offset")),
            Some(o) => EntryPointOffset::deserialize(o)?,
        };
        Ok(EntryPoint { selector, offset })
    }
}

} // verus!
