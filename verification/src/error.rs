use vstd::prelude::*;

verus! {

/// Error returned when the input does not fit the type being deserialized.
///
/// The error carries no detail: deserialization either succeeds or fails.
#[derive(Debug, PartialEq, Eq, Structural)]
pub struct Error;

} // verus!
