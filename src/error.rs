//! The errors of decoding and of building identifiers.
use vstd::prelude::*;

use crate::hex::HexError;

verus! {

/// Why a structured value could not be decoded.
#[derive(Debug, Clone, PartialEq, Eq)]
pub enum DecodeError {
    /// The value is of a kind that no accepted encoding takes.
    MalformedValue,
    /// A hex string that could not be read.
    MalformedHex(HexError),
    /// A number that is negative, fractional or too large.
    NumericOverflow,
    /// A tag (an ABI entry's `type`, an entry point type) that is none of the known ones.
    UnknownTag,
    /// A field, named here, that the entry's schema does not declare.
    UnexpectedField(String),
    /// A required field, named here, is absent.
    MissingField(String),
    /// A selector that could not be built from its text.
    InvalidSelector(StarknetApiError),
}

/// A decoding error as contracts speak of it: field names as text.
pub enum DecodeErrorView {
    MalformedValue,
    MalformedHex(HexError),
    NumericOverflow,
    UnknownTag,
    UnexpectedField(Seq<char>),
    MissingField(Seq<char>),
    InvalidSelector(StarknetApiError),
}

impl View for DecodeError {
    type V = DecodeErrorView;

    open spec fn view(&self) -> DecodeErrorView {
        match self {
            DecodeError::MalformedValue => DecodeErrorView::MalformedValue,
            DecodeError::MalformedHex(e) => DecodeErrorView::MalformedHex(*e),
            DecodeError::NumericOverflow => DecodeErrorView::NumericOverflow,
            DecodeError::UnknownTag => DecodeErrorView::UnknownTag,
            DecodeError::UnexpectedField(f) => DecodeErrorView::UnexpectedField(f@),
            DecodeError::MissingField(f) => DecodeErrorView::MissingField(f@),
            DecodeError::InvalidSelector(e) => DecodeErrorView::InvalidSelector(*e),
        }
    }
}

/// A result with its error seen through its view.
pub open spec fn err_view<T>(r: Result<T, DecodeError>) -> Result<T, DecodeErrorView> {
    match r {
        Ok(x) => Ok(x),
        Err(e) => Err(e@),
    }
}

/// The error for a required field `name` that is absent.
pub fn missing_field(name: &str) -> (r: DecodeError)
    ensures
        r@ == DecodeErrorView::MissingField(name@),
{
    DecodeError::MissingField(String::from_str(name))
}

/// Why an identifier or an offset could not be built from text.
#[derive(Debug, Clone, Copy, PartialEq, Eq, Structural)]
pub enum StarknetApiError {
    /// The text is no hex number of the accepted width.
    ParseInt(HexError),
    /// The value is too large for a field element.
    OutOfRange,
}

} // verus!
