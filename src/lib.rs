//! A verified model of the legacy contract class format: entry point offsets
//! with their number-or-hex wire codec, entry point selectors, entry point
//! types, a strict decoder for the class ABI, and encoders that write a
//! class back in its canonical form.
use vstd::prelude::*;

pub mod hex;
pub mod error;
pub mod json;
pub mod offset;
pub mod selector;
pub mod entry_point;
pub mod abi;
pub mod class;
pub mod encode;
