//! Visitor-based JSON deserialization: the places and builders into which a
//! JSON document is written one scalar, element or entry at a time, the JSON
//! value tree, and the attribute logic behind the derive macros.

use vstd::prelude::*;

pub mod de;
pub mod derive;
pub mod error;
pub mod ignore;
pub mod json;

pub use crate::de::Deserialize;
pub use crate::error::Error;
