//! Entry point offsets and their wire codec: a number or a hex string on
//! input, always the canonical hex string on output.
use vstd::prelude::*;

use crate::error::{err_view, DecodeError, DecodeErrorView, StarknetApiError};
use crate::hex::{
    canonical_hex, hex_string_try_into_usize, lemma_parse_canonical, parse_hex_usize,
    usize_to_hex,
};
use crate::json::{JsonNumber, JsonValue};

verus! {

/// The offset of an entry point within its program.
#[derive(Debug, Clone, Copy, Default, PartialEq, Eq, Structural, Hash, PartialOrd, Ord)]
pub struct EntryPointOffset(pub usize);

/// What decoding a wire value as an offset gives.
pub open spec fn decode_offset(v: JsonValue) -> Result<usize, DecodeErrorView> {
    match v {
        JsonValue::Number(JsonNumber::PosInt(n)) => if n <= usize::MAX {
            Ok(n as usize)
        } else {
            Err(DecodeErrorView::NumericOverflow)
        },
        JsonValue::Number(JsonNumber::NegInt(i)) => if 0 <= i {
            Ok(i as usize)
        } else {
            Err(DecodeErrorView::NumericOverflow)
        },
        JsonValue::Number(JsonNumber::Other(_)) => Err(DecodeErrorView::NumericOverflow),
        JsonValue::String(s) => match parse_hex_usize(s@) {
            Ok(n) => Ok(n),
            Err(e) => Err(DecodeErrorView::MalformedHex(e)),
        },
        _ => Err(DecodeErrorView::MalformedValue),
    }
}

/// Decodes an offset from a non-negative integer or from a hex string with
/// an optional `0x` prefix. Negative, fractional and too large numbers, and
/// every other kind of value, are refused.
pub fn number_or_string(value: &JsonValue) -> (r: Result<usize, DecodeError>)
    ensures
        err_view(r) == decode_offset(*value),
        (value is Bool || value is Null || value is Array || value is Object) ==> r
            == Err::<usize, DecodeError>(DecodeError::MalformedValue),
        (value matches JsonValue::Number(JsonNumber::NegInt(i)) && i < 0) ==> r == Err::<
            usize,
            DecodeError,
        >(DecodeError::NumericOverflow),
        value matches JsonValue::Number(JsonNumber::Other(_)) ==> r == Err::<usize, DecodeError>(
            DecodeError::NumericOverflow,
        ),
{
    match value {
        JsonValue::Number(JsonNumber::PosInt(n)) => {
            if *n as u128 <= usize::MAX as u128 {
                Ok(*n as usize)
            } else {
                Err(DecodeError::NumericOverflow)
            }
        },
        JsonValue::Number(JsonNumber::NegInt(i)) => {
            if *i >= 0 {
                Ok(*i as usize)
            } else {
                Err(DecodeError::NumericOverflow)
            }
        },
        JsonValue::Number(JsonNumber::Other(_)) => Err(DecodeError::NumericOverflow),
        JsonValue::String(s) => match hex_string_try_into_usize(s.as_str()) {
            Ok(n) => Ok(n),
            Err(e) => Err(DecodeError::MalformedHex(e)),
        },
        _ => Err(DecodeError::MalformedValue),
    }
}

impl EntryPointOffset {
    /// Reads an offset from a hex string with an optional `0x` prefix.
    pub fn try_from(value: String) -> (r: Result<EntryPointOffset, StarknetApiError>)
        ensures
            match parse_hex_usize(value@) {
                Ok(n) => r == Ok::<EntryPointOffset, StarknetApiError>(EntryPointOffset(n)),
                Err(e) => r == Err::<EntryPointOffset, StarknetApiError>(
                    StarknetApiError::ParseInt(e),
                ),
            },
    {
        match hex_string_try_into_usize(value.as_str()) {
            Ok(n) => Ok(EntryPointOffset(n)),
            Err(e) => Err(StarknetApiError::ParseInt(e)),
        }
    }

    /// Decodes an offset from its wire value (see [`number_or_string`]).
    pub fn deserialize(value: &JsonValue) -> (r: Result<EntryPointOffset, DecodeError>)
        ensures
            match decode_offset(*value) {
                Ok(n) => r == Ok::<EntryPointOffset, DecodeError>(EntryPointOffset(n)),
                Err(e) => err_view(r) == Err::<EntryPointOffset, DecodeErrorView>(e),
            },
    {
        match number_or_string(value) {
            Ok(n) => Ok(EntryPointOffset(n)),
            Err(e) => Err(e),
        }
    }

    /// The wire form of the offset: always the canonical hex string.
    pub fn serialize(&self) -> (r: String)
        ensures
            r@ == canonical_hex(self.0 as nat),
    {
        usize_to_hex(self.0)
    }
}

/// Decoding the canonical hex string of an offset gives the offset back.
pub proof fn lemma_offset_round_trip(x: usize, encoded: String)
    requires
        encoded@ == canonical_hex(x as nat),
    ensures
        decode_offset(JsonValue::String(encoded)) == Ok::<usize, DecodeErrorView>(x),
{
    lemma_parse_canonical(x);
}

/// An offset written as a number and written as its canonical hex string
/// decode to the same value.
pub proof fn lemma_number_and_hex_agree(x: usize, encoded: String)
    requires
        encoded@ == canonical_hex(x as nat),
    ensures
        decode_offset(JsonValue::Number(JsonNumber::PosInt(x as u64))) == decode_offset(
            JsonValue::String(encoded),
        ),
        decode_offset(JsonValue::String(encoded)) == Ok::<usize, DecodeErrorView>(x),
{
    lemma_parse_canonical(x);
}

} // verus!
