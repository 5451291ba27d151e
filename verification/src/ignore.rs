//! A place that accepts and discards everything written into it.

use vstd::prelude::*;

use crate::de::Scalar;
use crate::error::Error;

verus! {

/// Accepts any scalar, sequence or map and discards it. Its sequence and
/// map builders are again `Ignore`, and so are the places they hand out.
pub struct Ignore;

/// The place for a value that is skipped, such as an unrecognized field.
pub fn ignore() -> (v: Ignore) {
    Ignore
}

impl Ignore {
    /// Accept and discard a scalar.
    pub fn scalar(&mut self, s: &Scalar) -> (r: Result<(), Error>)
        ensures
            r is Ok,
    {
        Ok(())
    }

    /// Begin a sequence whose elements are discarded.
    pub fn seq(self) -> (b: Ignore) {
        self
    }

    /// Begin a map whose values are discarded.
    pub fn map(self) -> (b: Ignore) {
        self
    }

    /// The place of the next element of a skipped sequence.
    pub fn element(&mut self) -> (r: Result<Ignore, Error>)
        ensures
            r is Ok,
    {
        Ok(ignore())
    }

    /// The place of the value of a key of a skipped map.
    pub fn key(&mut self, k: &str) -> (r: Result<Ignore, Error>)
        ensures
            r is Ok,
    {
        Ok(ignore())
    }

    /// Accept and discard a scalar value of a key of a skipped map.
    pub fn map_scalar(&mut self, k: &str, s: &Scalar) -> (r: Result<(), Error>)
        ensures
            r is Ok,
    {
        Ok(())
    }

    /// End a skipped sequence or map.
    pub fn finish(&mut self) -> (r: Result<(), Error>)
        ensures
            r is Ok,
    {
        Ok(())
    }
}

} // verus!
