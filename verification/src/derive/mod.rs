//! The logic of the `Serialize` and `Deserialize` derive macros: which
//! `#[serde(...)]` attributes are supported, what they mean, and how a struct
//! or enum is laid out in JSON.

pub mod attr;
pub mod input;
pub mod de;
pub mod ser;
pub mod laws;
