//! The `#[serde(...)]` attributes that the derive macros support.
//!
//! Attributes are read as plain values: the path of an attribute and the
//! meta item that its tokens parse to.

use vstd::prelude::*;

use crate::derive::input::DataStruct;
use crate::derive::input::Field;
use crate::derive::input::Fields;
use crate::derive::input::Variant;
use crate::json::object::str_eq;

verus! {

/// One segment of a path.
pub struct PathSegment {
    pub ident: String,
    /// Whether the segment carries generic arguments (`a::<T>`).
    pub has_arguments: bool,
}

/// A path such as `serde` or `std::option::Option`.
pub struct Path {
    pub leading_colon: bool,
    pub segments: Vec<PathSegment>,
}

impl Path {
    /// Whether the path is the single identifier `name`: no leading `::`,
    /// one segment, no generic arguments.
    pub open spec fn is_ident_spec(&self, name: Seq<char>) -> bool {
        &&& !self.leading_colon
        &&& self.segments@.len() == 1
        &&& !self.segments@[0].has_arguments
        &&& self.segments@[0].ident@ == name
    }

    /// Whether the path is the single identifier `name`.
    pub fn is_ident(&self, name: &str) -> (b: bool)
        ensures
            b == self.is_ident_spec(name@),
    {
        if !self.leading_colon && self.segments.len() == 1 && !self.segments[0].has_arguments {
            str_eq(self.segments[0].ident.as_str(), name)
        } else {
            false
        }
    }
}

/// A literal.
pub enum Lit {
    /// A string literal, by its value.
    Str(String),
    /// Any other literal.
    Other,
}

/// A meta item: `path`, `path(nested, ...)` or `path = lit`.
pub enum Meta {
    Path(Path),
    List(MetaList),
    NameValue(MetaNameValue),
}

/// A meta list `path(nested, ...)`.
pub struct MetaList {
    pub path: Path,
    pub nested: Vec<NestedMeta>,
}

/// A name-value meta item `path = lit`.
pub struct MetaNameValue {
    pub path: Path,
    pub lit: Lit,
}

/// An item inside a meta list.
pub enum NestedMeta {
    Meta(Meta),
    Lit(Lit),
}

/// An attribute `#[path ...]`.
pub struct Attribute {
    pub path: Path,
    /// The meta item that the attribute parses to, or `None` where its
    /// tokens do not parse as one.
    pub meta: Option<Meta>,
}

/// What went wrong in a derive.
#[derive(Clone, Copy, Debug, PartialEq, Eq, Structural)]
pub enum ErrorKind {
    /// The attribute's tokens do not parse as a meta item.
    InvalidMeta,
    /// "unsupported attribute"
    UnsupportedAttribute,
    /// "duplicate transparent attribute"
    DuplicateTransparent,
    /// "duplicate rename attribute"
    DuplicateRename,
    /// "duplicate default attribute"
    DuplicateDefault,
    /// "default attribute is only supported on fields"
    DefaultOnVariant,
    /// "transparent structs must be tuple structs with exactly one field"
    TransparentShape,
    /// "currently only structs with named fields are supported"
    NamedFieldsOnly,
    /// "unsupported derive input"
    UnsupportedInput,
    /// "Enums with generics are not supported"
    GenericEnum,
    /// "Invalid variant: only simple enum variants without fields are supported"
    NonUnitVariant,
}

/// An error of a derive, and where it is: the index of the field or variant,
/// of the attribute (of that field or variant, else of the input), and of the
/// item inside the attribute's list, where there is one.
#[derive(Debug, PartialEq, Eq, Structural)]
pub struct DeriveError {
    pub kind: ErrorKind,
    /// The field or variant the error is about.
    pub node: Option<usize>,
    pub attr: Option<usize>,
    pub item: Option<usize>,
}

/// The message reported to the user for an error of kind `k`.
pub open spec fn message_text(k: ErrorKind) -> Seq<char> {
    match k {
        ErrorKind::InvalidMeta => "invalid attribute"@,
        ErrorKind::UnsupportedAttribute => "unsupported attribute"@,
        ErrorKind::DuplicateTransparent => "duplicate transparent attribute"@,
        ErrorKind::DuplicateRename => "duplicate rename attribute"@,
        ErrorKind::DuplicateDefault => "duplicate default attribute"@,
        ErrorKind::DefaultOnVariant => "default attribute is only supported on fields"@,
        ErrorKind::TransparentShape => "transparent structs must be tuple structs with exactly one field"@,
        ErrorKind::NamedFieldsOnly => "currently only structs with named fields are supported"@,
        ErrorKind::UnsupportedInput => "unsupported derive input"@,
        ErrorKind::GenericEnum => "Enums with generics are not supported"@,
        ErrorKind::NonUnitVariant => "Invalid variant: only simple enum variants without fields are supported"@,
    }
}

impl ErrorKind {
    /// The message reported to the user.
    pub fn message(&self) -> (m: &'static str)
        ensures
            m@ == message_text(*self),
    {
        match self {
            ErrorKind::InvalidMeta => "invalid attribute",
            ErrorKind::UnsupportedAttribute => "unsupported attribute",
            ErrorKind::DuplicateTransparent => "duplicate transparent attribute",
            ErrorKind::DuplicateRename => "duplicate rename attribute",
            ErrorKind::DuplicateDefault => "duplicate default attribute",
            ErrorKind::DefaultOnVariant => "default attribute is only supported on fields",
            ErrorKind::TransparentShape => "transparent structs must be tuple structs with exactly one field",
            ErrorKind::NamedFieldsOnly => "currently only structs with named fields are supported",
            ErrorKind::UnsupportedInput => "unsupported derive input",
            ErrorKind::GenericEnum => "Enums with generics are not supported",
            ErrorKind::NonUnitVariant => "Invalid variant: only simple enum variants without fields are supported",
        }
    }
}

/// The error `e` placed at field or variant `n`.
pub open spec fn at_node(e: DeriveError, n: int) -> DeriveError {
    DeriveError { kind: e.kind, node: Some(n as usize), attr: e.attr, item: e.item }
}

/// An error at item `j` of attribute `i`.
pub open spec fn err_at(kind: ErrorKind, i: int, j: int) -> DeriveError {
    DeriveError { kind, node: None, attr: Some(i as usize), item: Some(j as usize) }
}

/// An error at attribute `i` as a whole.
pub open spec fn err_at_attr(kind: ErrorKind, i: int) -> DeriveError {
    DeriveError { kind, node: None, attr: Some(i as usize), item: None }
}

/// The name of the attributes this crate reads.
pub open spec fn serde_name() -> Seq<char> {
    seq!['s', 'e', 'r', 'd', 'e']
}

pub open spec fn transparent_name() -> Seq<char> {
    seq!['t', 'r', 'a', 'n', 's', 'p', 'a', 'r', 'e', 'n', 't']
}

pub open spec fn rename_name() -> Seq<char> {
    seq!['r', 'e', 'n', 'a', 'm', 'e']
}

pub open spec fn default_name() -> Seq<char> {
    seq!['d', 'e', 'f', 'a', 'u', 'l', 't']
}

// ---------------------------------------------------------------------------
// Struct attributes.

/// Supported `#[serde(...)]` attributes on a struct.
pub struct StructAttrs {
    /// Whether a one-field struct serializes as its field.
    pub transparent: bool,
}

/// The items `nested[j..]` of the list of attribute `i`, read on top of
/// `transparent`.
pub open spec fn struct_nested_from(nested: Seq<NestedMeta>, j: int, transparent: bool, i: int) -> Result<bool, DeriveError>
    decreases nested.len() - j,
{
    if j < 0 || j >= nested.len() {
        Ok(transparent)
    } else if nested[j] matches NestedMeta::Meta(Meta::Path(p)) && p.is_ident_spec(transparent_name()) {
        if transparent {
            Err(err_at(ErrorKind::DuplicateTransparent, i, j))
        } else {
            struct_nested_from(nested, j + 1, true, i)
        }
    } else {
        Err(err_at(ErrorKind::UnsupportedAttribute, i, j))
    }
}

/// The attributes `attrs[i..]` read on top of `transparent`.
pub open spec fn struct_attrs_from(attrs: Seq<Attribute>, i: int, transparent: bool) -> Result<bool, DeriveError>
    decreases attrs.len() - i,
{
    if i < 0 || i >= attrs.len() {
        Ok(transparent)
    } else if !attrs[i].path.is_ident_spec(serde_name()) {
        struct_attrs_from(attrs, i + 1, transparent)
    } else {
        match attrs[i].meta {
            None => Err(err_at_attr(ErrorKind::InvalidMeta, i)),
            Some(Meta::List(list)) => match struct_nested_from(list.nested@, 0, transparent, i) {
                Ok(t) => struct_attrs_from(attrs, i + 1, t),
                Err(e) => Err(e),
            },
            Some(_) => Err(err_at_attr(ErrorKind::UnsupportedAttribute, i)),
        }
    }
}

/// Find supported `#[serde(...)]` struct attributes: attributes other than
/// `serde` are skipped, and `transparent` is the only item accepted, once.
pub fn struct_attrs(attrs: &[Attribute]) -> (r: Result<StructAttrs, DeriveError>)
    ensures
        match struct_attrs_from(attrs@, 0, false) {
            Ok(t) => r matches Ok(a) && a.transparent == t,
            Err(e) => r == Err::<StructAttrs, DeriveError>(e),
        },
{
    let mut transparent = false;
    let mut i: usize = 0;
    while i < attrs.len()
        invariant
            i <= attrs@.len(),
            struct_attrs_from(attrs@, 0, false) == struct_attrs_from(attrs@, i as int, transparent),
        decreases attrs@.len() - i,
    {
        let attr = &attrs[i];
        if attr.path.is_ident("serde") {
            proof {
                reveal_strlit("serde");
                assert("serde"@ =~= serde_name());
            }
            match &attr.meta {
                None => {
                    return Err(DeriveError { node: None, kind: ErrorKind::InvalidMeta, attr: Some(i), item: None });
                },
                Some(Meta::List(list)) => {
                    let mut j: usize = 0;
                    while j < list.nested.len()
                        invariant
                            i < attrs@.len(),
                            attrs@[i as int].meta == Some(Meta::List(*list)),
                            j <= list.nested@.len(),
                            struct_attrs_from(attrs@, 0, false) == match struct_nested_from(list.nested@, j as int, transparent, i as int) {
                                Ok(t) => struct_attrs_from(attrs@, i + 1, t),
                                Err(e) => Err(e),
                            },
                        decreases list.nested@.len() - j,
                    {
                        let mut accepted = false;
                        if let NestedMeta::Meta(Meta::Path(path)) = &list.nested[j] {
                            if path.is_ident("transparent") {
                                proof {
                                    reveal_strlit("transparent");
                                    assert("transparent"@ =~= transparent_name());
                                }
                                if transparent {
                                    return Err(DeriveError { node: None, kind: ErrorKind::DuplicateTransparent, attr: Some(i), item: Some(j) });
                                }
                                transparent = true;
                                accepted = true;
                            } else {
                                proof {
                                    reveal_strlit("transparent");
                                    assert("transparent"@ =~= transparent_name());
                                }
                            }
                        }
                        if !accepted {
                            return Err(DeriveError { node: None, kind: ErrorKind::UnsupportedAttribute, attr: Some(i), item: Some(j) });
                        }
                        j = j + 1;
                    }
                },
                Some(_) => {
                    return Err(DeriveError { node: None, kind: ErrorKind::UnsupportedAttribute, attr: Some(i), item: None });
                },
            }
        } else {
            proof {
                reveal_strlit("serde");
                assert("serde"@ =~= serde_name());
            }
        }
        i = i + 1;
    }
    Ok(StructAttrs { transparent })
}

// ---------------------------------------------------------------------------
// Field attributes.

/// Supported `#[serde(...)]` attributes on a struct field.
pub struct FieldAttrs {
    /// Field name override from `#[serde(rename = "...")]`.
    pub rename: Option<String>,
    /// Whether the field uses `#[serde(default)]` when missing.
    pub default: bool,
}

/// The state of reading field attributes: the rename found so far, and
/// whether `default` was found.
pub struct FieldState {
    pub rename: Option<Seq<char>>,
    pub default: bool,
}

/// Whether a nested item is `rename = "..."`, and its value.
pub open spec fn rename_item(item: NestedMeta) -> Option<Seq<char>> {
    match item {
        NestedMeta::Meta(Meta::NameValue(nv)) => if nv.path.is_ident_spec(rename_name()) {
            match nv.lit {
                Lit::Str(s) => Some(s@),
                _ => None,
            }
        } else {
            None
        },
        _ => None,
    }
}

/// Whether a nested item is `default`.
pub open spec fn default_item(item: NestedMeta) -> bool {
    item matches NestedMeta::Meta(Meta::Path(p)) && p.is_ident_spec(default_name())
}

/// The items `nested[j..]` of the list of attribute `i`, read on top of `st`.
pub open spec fn field_nested_from(nested: Seq<NestedMeta>, j: int, st: FieldState, i: int) -> Result<FieldState, DeriveError>
    decreases nested.len() - j,
{
    if j < 0 || j >= nested.len() {
        Ok(st)
    } else if rename_item(nested[j]) is Some {
        if st.rename is Some {
            Err(err_at(ErrorKind::DuplicateRename, i, j))
        } else {
            field_nested_from(nested, j + 1, FieldState { rename: rename_item(nested[j]), default: st.default }, i)
        }
    } else if default_item(nested[j]) {
        if st.default {
            Err(err_at(ErrorKind::DuplicateDefault, i, j))
        } else {
            field_nested_from(nested, j + 1, FieldState { rename: st.rename, default: true }, i)
        }
    } else {
        Err(err_at(ErrorKind::UnsupportedAttribute, i, j))
    }
}

/// The attributes `attrs[i..]` read on top of `st`.
pub open spec fn field_attrs_from(attrs: Seq<Attribute>, i: int, st: FieldState) -> Result<FieldState, DeriveError>
    decreases attrs.len() - i,
{
    if i < 0 || i >= attrs.len() {
        Ok(st)
    } else if !attrs[i].path.is_ident_spec(serde_name()) {
        field_attrs_from(attrs, i + 1, st)
    } else {
        match attrs[i].meta {
            None => Err(err_at_attr(ErrorKind::InvalidMeta, i)),
            Some(Meta::List(list)) => match field_nested_from(list.nested@, 0, st, i) {
                Ok(st2) => field_attrs_from(attrs, i + 1, st2),
                Err(e) => Err(e),
            },
            Some(_) => Err(err_at_attr(ErrorKind::UnsupportedAttribute, i)),
        }
    }
}

/// The field attributes of `attrs`.
pub open spec fn field_attrs_spec(attrs: Seq<Attribute>) -> Result<FieldState, DeriveError> {
    field_attrs_from(attrs, 0, FieldState { rename: None, default: false })
}

/// Whether `a` holds the state `st`.
pub open spec fn holds_state(a: FieldAttrs, st: FieldState) -> bool {
    &&& a.default == st.default
    &&& match st.rename {
        Some(n) => a.rename matches Some(r) && r@ == n,
        None => a.rename is None,
    }
}

/// Find supported `#[serde(...)]` field attributes: attributes other than
/// `serde` are skipped; `rename = "..."` and `default` are accepted, once
/// each.
pub fn field_attrs(attrs: &[Attribute]) -> (r: Result<FieldAttrs, DeriveError>)
    ensures
        match field_attrs_spec(attrs@) {
            Ok(st) => r matches Ok(a) && holds_state(a, st),
            Err(e) => r == Err::<FieldAttrs, DeriveError>(e),
        },
{
    let mut rename: Option<String> = None;
    let mut default = false;
    let ghost mut st = FieldState { rename: None, default: false };
    let mut i: usize = 0;
    while i < attrs.len()
        invariant
            i <= attrs@.len(),
            holds_state(FieldAttrs { rename, default }, st),
            field_attrs_spec(attrs@) == field_attrs_from(attrs@, i as int, st),
        decreases attrs@.len() - i,
    {
        let attr = &attrs[i];
        proof {
            reveal_strlit("serde");
            reveal_strlit("rename");
            reveal_strlit("default");
            assert("serde"@ =~= serde_name());
            assert("rename"@ =~= rename_name());
            assert("default"@ =~= default_name());
        }
        if attr.path.is_ident("serde") {
            match &attr.meta {
                None => {
                    return Err(DeriveError { node: None, kind: ErrorKind::InvalidMeta, attr: Some(i), item: None });
                },
                Some(Meta::List(list)) => {
                    let mut j: usize = 0;
                    while j < list.nested.len()
                        invariant
                            i < attrs@.len(),
                            attrs@[i as int].meta == Some(Meta::List(*list)),
                            j <= list.nested@.len(),
                            holds_state(FieldAttrs { rename, default }, st),
                            "rename"@ =~= rename_name(),
                            "default"@ =~= default_name(),
                            field_attrs_spec(attrs@) == match field_nested_from(list.nested@, j as int, st, i as int) {
                                Ok(st2) => field_attrs_from(attrs@, i + 1, st2),
                                Err(e) => Err(e),
                            },
                        decreases list.nested@.len() - j,
                    {
                        let item = &list.nested[j];
                        let mut accepted = false;
                        if let NestedMeta::Meta(Meta::NameValue(value)) = item {
                            if value.path.is_ident("rename") {
                                if let Lit::Str(s) = &value.lit {
                                    if rename.is_some() {
                                        return Err(DeriveError { node: None, kind: ErrorKind::DuplicateRename, attr: Some(i), item: Some(j) });
                                    }
                                    rename = Some(s.clone());
                                    proof {
                                        st = FieldState { rename: Some(s@), default: st.default };
                                    }
                                    accepted = true;
                                }
                            }
                        }
                        if !accepted {
                            if let NestedMeta::Meta(Meta::Path(path)) = item {
                                if path.is_ident("default") {
                                    if default {
                                        return Err(DeriveError { node: None, kind: ErrorKind::DuplicateDefault, attr: Some(i), item: Some(j) });
                                    }
                                    default = true;
                                    proof {
                                        st = FieldState { rename: st.rename, default: true };
                                    }
                                    accepted = true;
                                }
                            }
                        }
                        if !accepted {
                            return Err(DeriveError { node: None, kind: ErrorKind::UnsupportedAttribute, attr: Some(i), item: Some(j) });
                        }
                        j = j + 1;
                    }
                },
                Some(_) => {
                    return Err(DeriveError { node: None, kind: ErrorKind::UnsupportedAttribute, attr: Some(i), item: None });
                },
            }
        }
        i = i + 1;
    }
    Ok(FieldAttrs { rename, default })
}

/// The rename of a variant: variants take `rename` but not `default`.
pub open spec fn attr_rename_spec(attrs: Seq<Attribute>) -> Result<Option<Seq<char>>, DeriveError> {
    match field_attrs_spec(attrs) {
        Ok(st) => if st.default {
            Err(DeriveError { node: None, kind: ErrorKind::DefaultOnVariant, attr: None, item: None })
        } else {
            Ok(st.rename)
        },
        Err(e) => Err(e),
    }
}

/// Whether the optional string `o` holds the optional text `t`.
pub open spec fn holds_text(o: Option<String>, t: Option<Seq<char>>) -> bool {
    match t {
        Some(n) => o matches Some(r) && r@ == n,
        None => o is None,
    }
}

/// Find the value of a `#[serde(rename = "...")]` attribute of a variant.
pub fn attr_rename(attrs: &[Attribute]) -> (r: Result<Option<String>, DeriveError>)
    ensures
        match attr_rename_spec(attrs@) {
            Ok(t) => r matches Ok(o) && holds_text(o, t),
            Err(e) => r == Err::<Option<String>, DeriveError>(e),
        },
{
    match field_attrs(attrs) {
        Ok(a) => {
            if a.default {
                Err(DeriveError { node: None, kind: ErrorKind::DefaultOnVariant, attr: None, item: None })
            } else {
                Ok(a.rename)
            }
        },
        Err(e) => Err(e),
    }
}

/// The JSON name of a named field: its rename if it has one, else its
/// identifier.
pub open spec fn name_of_field_spec(field: Field) -> Result<Seq<char>, DeriveError> {
    match field_attrs_spec(field.attrs@) {
        Ok(st) => match st.rename {
            Some(n) => Ok(n),
            None => Ok(field.ident->0@),
        },
        Err(e) => Err(e),
    }
}

/// Determine the name of a field, respecting a rename attribute.
pub fn name_of_field(field: &Field) -> (r: Result<String, DeriveError>)
    requires
        field.ident is Some,
    ensures
        match name_of_field_spec(*field) {
            Ok(n) => r matches Ok(s) && s@ == n,
            Err(e) => r == Err::<String, DeriveError>(e),
        },
{
    match field_attrs(&field.attrs) {
        Ok(a) => match a.rename {
            Some(n) => Ok(n),
            None => match &field.ident {
                Some(id) => Ok(id.clone()),
                None => Err(DeriveError { node: None, kind: ErrorKind::NamedFieldsOnly, attr: None, item: None }),
            },
        },
        Err(e) => Err(e),
    }
}

/// The JSON name of a variant: its rename if it has one, else its
/// identifier.
pub open spec fn name_of_variant_spec(var: Variant) -> Result<Seq<char>, DeriveError> {
    match attr_rename_spec(var.attrs@) {
        Ok(Some(n)) => Ok(n),
        Ok(None) => Ok(var.ident@),
        Err(e) => Err(e),
    }
}

/// Determine the name of a variant, respecting a rename attribute.
pub fn name_of_variant(var: &Variant) -> (r: Result<String, DeriveError>)
    ensures
        match name_of_variant_spec(*var) {
            Ok(n) => r matches Ok(s) && s@ == n,
            Err(e) => r == Err::<String, DeriveError>(e),
        },
{
    match attr_rename(&var.attrs) {
        Ok(Some(n)) => Ok(n),
        Ok(None) => Ok(var.ident.clone()),
        Err(e) => Err(e),
    }
}

// ---------------------------------------------------------------------------
// Struct kinds.

/// Supported struct representation.
pub enum StructKind<'a> {
    /// `#[serde(transparent)]` tuple newtype.
    Transparent(&'a Vec<Field>),
    /// Ordinary named-field struct.
    Named(&'a Vec<Field>),
}

/// Classify a struct according to supported serde attributes: a
/// `transparent` struct must be a tuple struct with one field, any other
/// struct must have named fields.
pub fn struct_kind<'a>(attrs: &[Attribute], input: &'a DataStruct) -> (r: Result<StructKind<'a>, DeriveError>)
    ensures
        match struct_attrs_from(attrs@, 0, false) {
            Err(e) => r == Err::<StructKind<'a>, DeriveError>(e),
            Ok(true) => match input.fields {
                Fields::Unnamed(f) => if f@.len() == 1 {
                    r matches Ok(StructKind::Transparent(g)) && *g == f
                } else {
                    r == Err::<StructKind<'a>, DeriveError>(DeriveError { node: None, kind: ErrorKind::TransparentShape, attr: None, item: None })
                },
                _ => r == Err::<StructKind<'a>, DeriveError>(DeriveError { node: None, kind: ErrorKind::TransparentShape, attr: None, item: None }),
            },
            Ok(false) => match input.fields {
                Fields::Named(f) => r matches Ok(StructKind::Named(g)) && *g == f,
                _ => r == Err::<StructKind<'a>, DeriveError>(DeriveError { node: None, kind: ErrorKind::NamedFieldsOnly, attr: None, item: None }),
            },
        },
{
    let attrs = match struct_attrs(attrs) {
        Ok(a) => a,
        Err(e) => return Err(e),
    };
    if attrs.transparent {
        match &input.fields {
            Fields::Unnamed(fields) => {
                if fields.len() == 1 {
                    Ok(StructKind::Transparent(fields))
                } else {
                    Err(DeriveError { node: None, kind: ErrorKind::TransparentShape, attr: None, item: None })
                }
            },
            _ => Err(DeriveError { node: None, kind: ErrorKind::TransparentShape, attr: None, item: None }),
        }
    } else {
        match &input.fields {
            Fields::Named(fields) => Ok(StructKind::Named(fields)),
            _ => Err(DeriveError { node: None, kind: ErrorKind::NamedFieldsOnly, attr: None, item: None }),
        }
    }
}

} // verus!
