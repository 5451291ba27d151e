//! The JSON value tree.

pub mod object;
pub mod value;

use vstd::prelude::*;

pub use crate::json::object::Object;
pub use crate::json::value::Value;

verus! {

/// A JSON number: an unsigned or a signed integer.
#[derive(Clone, Copy, Debug, PartialEq, Eq, Structural)]
pub enum Number {
    U64(u64),
    I64(i64),
}

} // verus!
