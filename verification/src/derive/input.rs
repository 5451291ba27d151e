//! The input of a derive macro, as plain values: the item's name, its
//! attributes, its generics as far as they matter, and its fields or
//! variants.

use vstd::prelude::*;

use crate::derive::attr::Attribute;

verus! {

/// A field of a struct or variant.
pub struct Field {
    /// The name of a named field; `None` in a tuple struct.
    pub ident: Option<String>,
    pub attrs: Vec<Attribute>,
}

/// The fields of a struct or variant.
pub enum Fields {
    /// `{ a: A, b: B }`
    Named(Vec<Field>),
    /// `(A, B)`
    Unnamed(Vec<Field>),
    /// No fields.
    Unit,
}

/// A struct's data.
pub struct DataStruct {
    pub fields: Fields,
}

/// A variant of an enum.
pub struct Variant {
    pub ident: String,
    pub attrs: Vec<Attribute>,
    pub fields: Fields,
}

/// The data of the derive input.
pub enum Data {
    Struct(DataStruct),
    Enum(Vec<Variant>),
    Union,
}

/// The item that a derive macro is applied to.
pub struct DeriveInput {
    pub ident: String,
    pub attrs: Vec<Attribute>,
    /// Whether the item has generic parameters (`<...>`).
    pub has_generic_params: bool,
    /// Whether the item has a `where` clause.
    pub has_where_clause: bool,
    pub data: Data,
}

} // verus!
