//! What `#[derive(Serialize)]` generates, decided from the input: the key of
//! each field of a struct, or the name of each variant of an enum.

use vstd::prelude::*;

use crate::derive::attr::DeriveError;
use crate::derive::attr::ErrorKind;
use crate::derive::attr::at_node;
use crate::derive::attr::name_of_field;
use crate::derive::attr::name_of_field_spec;
use crate::derive::attr::struct_attrs_from;
use crate::derive::attr::struct_attrs;
use crate::derive::de::derive_enum;
use crate::derive::de::enum_plan;
use crate::derive::de::names_view;
use crate::derive::input::Data;
use crate::derive::input::DeriveInput;
use crate::derive::input::Field;
use crate::derive::input::Fields;

verus! {

/// What `#[derive(Serialize)]` generates for an input.
pub enum SerializePlan {
    /// A `#[serde(transparent)]` newtype, written as its field.
    TransparentStruct,
    /// A struct written as a JSON object: the keys of its fields in order.
    Struct(Vec<String>),
    /// An enum of unit variants written as strings: the names in variant
    /// order.
    Enum(Vec<String>),
}

/// The keys of `fields[i..]` appended to `acc`; the first field whose name
/// is refused decides the error.
pub open spec fn field_names_from(fields: Seq<Field>, i: int, acc: Seq<Seq<char>>) -> Result<Seq<Seq<char>>, DeriveError>
    decreases fields.len() - i,
{
    if i < 0 || i >= fields.len() {
        Ok(acc)
    } else {
        match name_of_field_spec(fields[i]) {
            Ok(n) => field_names_from(fields, i + 1, acc.push(n)),
            Err(e) => Err(at_node(e, i)),
        }
    }
}

/// The keys of the named fields `fields`.
pub open spec fn field_names(fields: Seq<Field>) -> Result<Seq<Seq<char>>, DeriveError> {
    field_names_from(fields, 0, Seq::empty())
}

/// Decide the key each named field is written under.
pub fn derive_struct(fields: &[Field]) -> (r: Result<Vec<String>, DeriveError>)
    requires
        forall|i: int| 0 <= i < fields@.len() ==> #[trigger] fields@[i].ident is Some,
    ensures
        match field_names(fields@) {
            Ok(n) => r matches Ok(v) && names_view(v@) == n,
            Err(e) => r == Err::<Vec<String>, DeriveError>(e),
        },
{
    let mut names: Vec<String> = Vec::new();
    assert(names_view(names@) =~= Seq::<Seq<char>>::empty());
    let mut i: usize = 0;
    while i < fields.len()
        invariant
            i <= fields@.len(),
            forall|k: int| 0 <= k < fields@.len() ==> #[trigger] fields@[k].ident is Some,
            field_names(fields@) == field_names_from(fields@, i as int, names_view(names@)),
        decreases fields@.len() - i,
    {
        match name_of_field(&fields[i]) {
            Ok(n) => {
                let ghost before = names@;
                names.push(n);
                proof {
                    assert(names_view(names@) =~= names_view(before).push(names@.last()@));
                }
            },
            Err(e) => {
                return Err(DeriveError { kind: e.kind, node: Some(i), attr: e.attr, item: e.item });
            },
        }
        i = i + 1;
    }
    Ok(names)
}

/// Decide what `#[derive(Serialize)]` generates for `input`: a struct with
/// named fields (struct-level attributes are not read), a one-field tuple
/// struct marked `#[serde(transparent)]`, written as its field, or an enum
/// of unit variants.
pub fn derive(input: &DeriveInput) -> (r: Result<SerializePlan, DeriveError>)
    requires
        input.data matches Data::Struct(d) && d.fields matches Fields::Named(f)
            ==> forall|i: int| 0 <= i < f@.len() ==> #[trigger] f@[i].ident is Some,
    ensures
        input.data is Union ==> r == Err::<SerializePlan, DeriveError>(DeriveError { node: None, kind: ErrorKind::NamedFieldsOnly, attr: None, item: None }),
        input.data matches Data::Enum(variants) ==> match enum_plan(*input, variants@) {
            Ok(n) => r matches Ok(SerializePlan::Enum(v)) && names_view(v@) == n,
            Err(e) => r == Err::<SerializePlan, DeriveError>(e),
        },
        input.data matches Data::Struct(d) ==> match d.fields {
            Fields::Named(f) => match field_names(f@) {
                Ok(n) => r matches Ok(SerializePlan::Struct(v)) && names_view(v@) == n,
                Err(e) => r == Err::<SerializePlan, DeriveError>(e),
            },
            Fields::Unnamed(f) => if f@.len() == 1 && struct_attrs_from(input.attrs@, 0, false) == Ok::<bool, DeriveError>(true) {
                r matches Ok(SerializePlan::TransparentStruct)
            } else {
                r == Err::<SerializePlan, DeriveError>(DeriveError { node: None, kind: ErrorKind::NamedFieldsOnly, attr: None, item: None })
            },
            Fields::Unit => r == Err::<SerializePlan, DeriveError>(DeriveError { node: None, kind: ErrorKind::NamedFieldsOnly, attr: None, item: None }),
        },
{
    match &input.data {
        Data::Struct(data) => match &data.fields {
            Fields::Named(fields) => match derive_struct(fields.as_slice()) {
                Ok(names) => Ok(SerializePlan::Struct(names)),
                Err(e) => Err(e),
            },
            Fields::Unnamed(fields) => {
                let transparent = match struct_attrs(&input.attrs) {
                    Ok(a) => a.transparent,
                    Err(_) => false,
                };
                if fields.len() == 1 && transparent {
                    Ok(SerializePlan::TransparentStruct)
                } else {
                    Err(DeriveError { node: None, kind: ErrorKind::NamedFieldsOnly, attr: None, item: None })
                }
            },
            Fields::Unit => Err(DeriveError { node: None, kind: ErrorKind::NamedFieldsOnly, attr: None, item: None }),
        },
        Data::Enum(variants) => match derive_enum(input, variants.as_slice()) {
            Ok(names) => Ok(SerializePlan::Enum(names)),
            Err(e) => Err(e),
        },
        Data::Union => Err(DeriveError { node: None, kind: ErrorKind::NamedFieldsOnly, attr: None, item: None }),
    }
}

} // verus!
