//! What `#[derive(Deserialize)]` generates, decided from the input: how each
//! field of a struct is found and filled, or which names an enum's variants
//! are read from; and the lookup that the generated code runs on each key.

use vstd::prelude::*;

use crate::derive::attr::DeriveError;
use crate::derive::attr::ErrorKind;
use crate::derive::attr::StructKind;
use crate::derive::attr::at_node;
use crate::derive::attr::field_attrs;
use crate::derive::attr::field_attrs_spec;
use crate::derive::attr::name_of_variant;
use crate::derive::attr::name_of_variant_spec;
use crate::derive::attr::struct_attrs_from;
use crate::derive::attr::struct_kind;
use crate::derive::input::Data;
use crate::derive::input::DeriveInput;
use crate::derive::input::Field;
use crate::derive::input::Fields;
use crate::derive::input::Variant;
use crate::json::object::str_eq;

verus! {

/// How a field of a derived struct is read.
pub struct FieldPlan {
    /// The key the field is read from: its rename, else its identifier.
    pub name: String,
    /// Whether a missing field takes `Default::default()` (`#[serde(default)]`)
    /// rather than the type's own default slot (`None`, or `Some(None)` for
    /// an `Option`).
    pub default: bool,
}

/// What `#[derive(Deserialize)]` generates for an input.
pub enum DeserializePlan {
    /// A `#[serde(transparent)]` newtype, read as its field.
    TransparentStruct,
    /// A struct read from a JSON object, one entry per field.
    Struct(Vec<FieldPlan>),
    /// An enum of unit variants read from a string: the names in variant
    /// order.
    Enum(Vec<String>),
}

/// The plans of `fields[i..]` appended to `acc`: each field's key and
/// whether it has `#[serde(default)]`. The first field whose attributes are
/// refused decides the error.
pub open spec fn struct_plan_from(fields: Seq<Field>, i: int, acc: Seq<(Seq<char>, bool)>) -> Result<Seq<(Seq<char>, bool)>, DeriveError>
    decreases fields.len() - i,
{
    if i < 0 || i >= fields.len() {
        Ok(acc)
    } else {
        match field_attrs_spec(fields[i].attrs@) {
            Ok(st) => {
                let name = match st.rename {
                    Some(n) => n,
                    None => fields[i].ident->0@,
                };
                struct_plan_from(fields, i + 1, acc.push((name, st.default)))
            },
            Err(e) => Err(at_node(e, i)),
        }
    }
}

/// The plans of the named fields `fields`.
pub open spec fn struct_plan(fields: Seq<Field>) -> Result<Seq<(Seq<char>, bool)>, DeriveError> {
    struct_plan_from(fields, 0, Seq::empty())
}

/// The view of field plans.
pub open spec fn plans_view(p: Seq<FieldPlan>) -> Seq<(Seq<char>, bool)> {
    p.map_values(|f: FieldPlan| (f.name@, f.default))
}

/// The view of names.
pub open spec fn names_view(p: Seq<String>) -> Seq<Seq<char>> {
    p.map_values(|s: String| s@)
}

/// Decide how each named field is read.
pub fn derive_struct(fields: &[Field]) -> (r: Result<Vec<FieldPlan>, DeriveError>)
    requires
        forall|i: int| 0 <= i < fields@.len() ==> #[trigger] fields@[i].ident is Some,
    ensures
        match struct_plan(fields@) {
            Ok(p) => r matches Ok(v) && plans_view(v@) == p,
            Err(e) => r == Err::<Vec<FieldPlan>, DeriveError>(e),
        },
{
    let mut plans: Vec<FieldPlan> = Vec::new();
    assert(plans_view(plans@) =~= Seq::<(Seq<char>, bool)>::empty());
    let mut i: usize = 0;
    while i < fields.len()
        invariant
            i <= fields@.len(),
            forall|k: int| 0 <= k < fields@.len() ==> #[trigger] fields@[k].ident is Some,
            struct_plan(fields@) == struct_plan_from(fields@, i as int, plans_view(plans@)),
        decreases fields@.len() - i,
    {
        let field = &fields[i];
        match field_attrs(&field.attrs) {
            Ok(a) => {
                let name = match a.rename {
                    Some(n) => n,
                    None => match &field.ident {
                        Some(id) => id.clone(),
                        None => String::new(),
                    },
                };
                let ghost before = plans@;
                plans.push(FieldPlan { name, default: a.default });
                proof {
                    assert(plans_view(plans@) =~= plans_view(before).push((plans@.last().name@, a.default)));
                }
            },
            Err(e) => {
                return Err(DeriveError { kind: e.kind, node: Some(i), attr: e.attr, item: e.item });
            },
        }
        i = i + 1;
    }
    Ok(plans)
}

/// The index of the first variant that has fields.
pub open spec fn first_non_unit(variants: Seq<Variant>) -> Option<int> {
    if exists|i: int| 0 <= i < variants.len() && !(#[trigger] variants[i].fields is Unit) {
        Some(choose|i: int| 0 <= i < variants.len() && !(#[trigger] variants[i].fields is Unit)
            && forall|j: int| 0 <= j < i ==> #[trigger] variants[j].fields is Unit)
    } else {
        None
    }
}

/// The names of `variants[i..]` appended to `acc`; the first variant whose
/// name is refused decides the error.
pub open spec fn variant_names_from(variants: Seq<Variant>, i: int, acc: Seq<Seq<char>>) -> Result<Seq<Seq<char>>, DeriveError>
    decreases variants.len() - i,
{
    if i < 0 || i >= variants.len() {
        Ok(acc)
    } else {
        match name_of_variant_spec(variants[i]) {
            Ok(n) => variant_names_from(variants, i + 1, acc.push(n)),
            Err(e) => Err(at_node(e, i)),
        }
    }
}

/// What an enum derives to: the names of its variants, provided it has no
/// generics and all its variants are units.
pub open spec fn enum_plan(input: DeriveInput, variants: Seq<Variant>) -> Result<Seq<Seq<char>>, DeriveError> {
    if input.has_generic_params || input.has_where_clause {
        Err(DeriveError { node: None, kind: ErrorKind::GenericEnum, attr: None, item: None })
    } else {
        match first_non_unit(variants) {
            Some(i) => Err(DeriveError { node: Some(i as usize), kind: ErrorKind::NonUnitVariant, attr: None, item: None }),
            None => variant_names_from(variants, 0, Seq::empty()),
        }
    }
}

/// Decide the names the unit variants of an enum are read from.
pub fn derive_enum(input: &DeriveInput, variants: &[Variant]) -> (r: Result<Vec<String>, DeriveError>)
    ensures
        match enum_plan(*input, variants@) {
            Ok(n) => r matches Ok(v) && names_view(v@) == n,
            Err(e) => r == Err::<Vec<String>, DeriveError>(e),
        },
{
    if input.has_generic_params || input.has_where_clause {
        return Err(DeriveError { node: None, kind: ErrorKind::GenericEnum, attr: None, item: None });
    }
    let mut k: usize = 0;
    while k < variants.len()
        invariant
            k <= variants@.len(),
            !input.has_generic_params && !input.has_where_clause,
            forall|j: int| 0 <= j < k ==> #[trigger] variants@[j].fields is Unit,
        decreases variants@.len() - k,
    {
        match &variants[k].fields {
            Fields::Unit => {},
            _ => {
                proof {
                    assert(!(variants@[k as int].fields is Unit));
                    assert(0 <= k < variants@.len() && !(variants@[k as int].fields is Unit)
                        && forall|j: int| 0 <= j < k ==> #[trigger] variants@[j].fields is Unit);
                    let c = choose|i: int| 0 <= i < variants@.len() && !(#[trigger] variants@[i].fields is Unit)
                        && forall|j: int| 0 <= j < i ==> #[trigger] variants@[j].fields is Unit;
                    assert(0 <= c < variants@.len() && !(variants@[c].fields is Unit)
                        && forall|j: int| 0 <= j < c ==> #[trigger] variants@[j].fields is Unit);
                    if c < k {
                        assert(variants@[c].fields is Unit);
                    } else if c > k {
                        assert(variants@[k as int].fields is Unit);
                    }
                    assert(first_non_unit(variants@) == Some(k as int));
                }
                return Err(DeriveError { node: Some(k), kind: ErrorKind::NonUnitVariant, attr: None, item: None });
            },
        }
        k = k + 1;
    }
    assert(first_non_unit(variants@) is None);
    assert(enum_plan(*input, variants@) == variant_names_from(variants@, 0, Seq::empty()));
    let mut names: Vec<String> = Vec::new();
    assert(names_view(names@) =~= Seq::<Seq<char>>::empty());
    let mut i: usize = 0;
    while i < variants.len()
        invariant
            i <= variants@.len(),
            variant_names_from(variants@, 0, Seq::empty()) == variant_names_from(variants@, i as int, names_view(names@)),
            enum_plan(*input, variants@) == variant_names_from(variants@, 0, Seq::empty()),
        decreases variants@.len() - i,
    {
        match name_of_variant(&variants[i]) {
            Ok(n) => {
                let ghost before = names@;
                names.push(n);
                proof {
                    assert(names_view(names@) =~= names_view(before).push(names@.last()@));
                }
            },
            Err(e) => {
                return Err(DeriveError { kind: e.kind, node: Some(i), attr: e.attr, item: e.item });
            },
        }
        i = i + 1;
    }
    Ok(names)
}

/// Decide what `#[derive(Deserialize)]` generates for `input`: a transparent
/// newtype, a struct with named fields, or an enum of unit variants.
pub fn derive(input: &DeriveInput) -> (r: Result<DeserializePlan, DeriveError>)
    requires
        input.data matches Data::Struct(d) && d.fields matches Fields::Named(f)
            ==> forall|i: int| 0 <= i < f@.len() ==> #[trigger] f@[i].ident is Some,
    ensures
        input.data is Union ==> r == Err::<DeserializePlan, DeriveError>(DeriveError { node: None, kind: ErrorKind::UnsupportedInput, attr: None, item: None }),
        input.data matches Data::Enum(variants) ==> match enum_plan(*input, variants@) {
            Ok(n) => r matches Ok(DeserializePlan::Enum(v)) && names_view(v@) == n,
            Err(e) => r == Err::<DeserializePlan, DeriveError>(e),
        },
        input.data matches Data::Struct(d) ==> match struct_attrs_from(input.attrs@, 0, false) {
            Err(e) => r == Err::<DeserializePlan, DeriveError>(e),
            Ok(true) => match d.fields {
                Fields::Unnamed(f) => if f@.len() == 1 {
                    r matches Ok(DeserializePlan::TransparentStruct)
                } else {
                    r == Err::<DeserializePlan, DeriveError>(DeriveError { node: None, kind: ErrorKind::TransparentShape, attr: None, item: None })
                },
                _ => r == Err::<DeserializePlan, DeriveError>(DeriveError { node: None, kind: ErrorKind::TransparentShape, attr: None, item: None }),
            },
            Ok(false) => match d.fields {
                Fields::Named(f) => match struct_plan(f@) {
                    Ok(p) => r matches Ok(DeserializePlan::Struct(v)) && plans_view(v@) == p,
                    Err(e) => r == Err::<DeserializePlan, DeriveError>(e),
                },
                _ => r == Err::<DeserializePlan, DeriveError>(DeriveError { node: None, kind: ErrorKind::NamedFieldsOnly, attr: None, item: None }),
            },
        },
{
    match &input.data {
        Data::Struct(data) => match struct_kind(&input.attrs, data) {
            Ok(StructKind::Transparent(_)) => Ok(DeserializePlan::TransparentStruct),
            Ok(StructKind::Named(fields)) => match derive_struct(fields.as_slice()) {
                Ok(plans) => Ok(DeserializePlan::Struct(plans)),
                Err(e) => Err(e),
            },
            Err(e) => Err(e),
        },
        Data::Enum(variants) => match derive_enum(input, variants.as_slice()) {
            Ok(names) => Ok(DeserializePlan::Enum(names)),
            Err(e) => Err(e),
        },
        Data::Union => Err(DeriveError { node: None, kind: ErrorKind::UnsupportedInput, attr: None, item: None }),
    }
}

/// The index of the first of `names` equal to `k`, as a `match` on string
/// literals picks its first matching arm.
pub open spec fn find_name_spec(names: Seq<Seq<char>>, k: Seq<char>) -> Option<int> {
    if exists|i: int| 0 <= i < names.len() && names[i] == k {
        Some(choose|i: int| 0 <= i < names.len() && names[i] == k
            && forall|j: int| 0 <= j < i ==> names[j] != k)
    } else {
        None
    }
}

/// The index of the first of `names` equal to `k`. Generated code runs it on
/// each key of an object to pick the field the key's value is written into
/// (an unknown key is ignored), and on a string to pick an enum variant
/// (an unknown name is refused).
pub fn find_name(names: &[&str], k: &str) -> (r: Option<usize>)
    ensures
        match find_name_spec(names@.map_values(|s: &str| s@), k@) {
            Some(i) => r == Some(i as usize),
            None => r is None,
        },
{
    let ghost nv = names@.map_values(|s: &str| s@);
    let mut i: usize = 0;
    while i < names.len()
        invariant
            i <= names@.len(),
            nv == names@.map_values(|s: &str| s@),
            forall|j: int| 0 <= j < i ==> nv[j] != k@,
        decreases names@.len() - i,
    {
        if str_eq(names[i], k) {
            proof {
                let c = choose|c: int| 0 <= c < nv.len() && nv[c] == k@
                    && forall|j: int| 0 <= j < c ==> nv[j] != k@;
                assert(nv[i as int] == k@);
                if c < i {
                    assert(nv[c] != k@);
                } else if c > i {
                    assert(nv[i as int] != k@);
                }
            }
            return Some(i);
        }
        i = i + 1;
    }
    None
}

} // verus!
