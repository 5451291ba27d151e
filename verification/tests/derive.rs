use microserde::derive::attr::attr_rename;
use microserde::derive::attr::field_attrs;
use microserde::derive::attr::name_of_field;
use microserde::derive::attr::name_of_variant;
use microserde::derive::attr::struct_attrs;
use microserde::derive::attr::struct_kind;
use microserde::derive::attr::Attribute;
use microserde::derive::attr::DeriveError;
use microserde::derive::attr::ErrorKind;
use microserde::derive::attr::Lit;
use microserde::derive::attr::Meta;
use microserde::derive::attr::MetaList;
use microserde::derive::attr::MetaNameValue;
use microserde::derive::attr::NestedMeta;
use microserde::derive::attr::Path;
use microserde::derive::attr::PathSegment;
use microserde::derive::attr::StructKind;
use microserde::derive::de;
use microserde::derive::de::find_name;
use microserde::derive::de::DeserializePlan;
use microserde::derive::input::Data;
use microserde::derive::input::DataStruct;
use microserde::derive::input::DeriveInput;
use microserde::derive::input::Field;
use microserde::derive::input::Fields;
use microserde::derive::input::Variant;
use microserde::derive::ser;
use microserde::derive::ser::SerializePlan;

fn path(name: &str) -> Path {
    Path {
        leading_colon: false,
        segments: vec![PathSegment { ident: name.to_owned(), has_arguments: false }],
    }
}

fn word(name: &str) -> NestedMeta {
    NestedMeta::Meta(Meta::Path(path(name)))
}

fn rename(to: &str) -> NestedMeta {
    NestedMeta::Meta(Meta::NameValue(MetaNameValue { path: path("rename"), lit: Lit::Str(to.to_owned()) }))
}

fn serde(items: Vec<NestedMeta>) -> Attribute {
    Attribute { path: path("serde"), meta: Some(Meta::List(MetaList { path: path("serde"), nested: items })) }
}

fn other_attr(name: &str) -> Attribute {
    Attribute { path: path(name), meta: Some(Meta::Path(path(name))) }
}

fn err(kind: ErrorKind, attr: Option<usize>, item: Option<usize>) -> DeriveError {
    DeriveError { kind, node: None, attr, item }
}

fn err_in(node: usize, kind: ErrorKind, attr: Option<usize>, item: Option<usize>) -> DeriveError {
    DeriveError { kind, node: Some(node), attr, item }
}

fn named(name: &str, attrs: Vec<Attribute>) -> Field {
    Field { ident: Some(name.to_owned()), attrs }
}

fn unit(name: &str, attrs: Vec<Attribute>) -> Variant {
    Variant { ident: name.to_owned(), attrs, fields: Fields::Unit }
}

fn input(attrs: Vec<Attribute>, data: Data) -> DeriveInput {
    DeriveInput { ident: "T".to_owned(), attrs, has_generic_params: false, has_where_clause: false, data }
}

#[test]
fn is_ident_needs_a_single_plain_segment() {
    assert!(path("serde").is_ident("serde"));
    assert!(!path("serde").is_ident("serd"));
    let mut p = path("serde");
    p.leading_colon = true;
    assert!(!p.is_ident("serde"));
    let two = Path {
        leading_colon: false,
        segments: vec![
            PathSegment { ident: "serde".to_owned(), has_arguments: false },
            PathSegment { ident: "x".to_owned(), has_arguments: false },
        ],
    };
    assert!(!two.is_ident("serde"));
    let args = Path { leading_colon: false, segments: vec![PathSegment { ident: "serde".to_owned(), has_arguments: true }] };
    assert!(!args.is_ident("serde"));
}

#[test]
fn struct_attributes() {
    assert!(!struct_attrs(&[]).unwrap().transparent);
    assert!(!struct_attrs(&[other_attr("doc")]).unwrap().transparent);
    assert!(struct_attrs(&[other_attr("doc"), serde(vec![word("transparent")])]).unwrap().transparent);
    assert_eq!(
        struct_attrs(&[serde(vec![word("transparent")]), serde(vec![word("transparent")])]).err(),
        Some(err(ErrorKind::DuplicateTransparent, Some(1), Some(0)))
    );
    assert_eq!(
        struct_attrs(&[serde(vec![word("transparent"), word("transparent")])]).err(),
        Some(err(ErrorKind::DuplicateTransparent, Some(0), Some(1)))
    );
    assert_eq!(
        struct_attrs(&[serde(vec![word("default")])]).err(),
        Some(err(ErrorKind::UnsupportedAttribute, Some(0), Some(0)))
    );
    let not_list = Attribute { path: path("serde"), meta: Some(Meta::Path(path("serde"))) };
    assert_eq!(struct_attrs(&[not_list]).err(), Some(err(ErrorKind::UnsupportedAttribute, Some(0), None)));
    let unparsed = Attribute { path: path("serde"), meta: None };
    assert_eq!(struct_attrs(&[other_attr("doc"), unparsed]).err(), Some(err(ErrorKind::InvalidMeta, Some(1), None)));
    assert_eq!(ErrorKind::UnsupportedAttribute.message(), "unsupported attribute");
}

#[test]
fn field_attributes() {
    let a = field_attrs(&[]).unwrap();
    assert_eq!(a.rename, None);
    assert!(!a.default);
    let a = field_attrs(&[serde(vec![word("default"), rename("items")])]).unwrap();
    assert_eq!(a.rename, Some("items".to_owned()));
    assert!(a.default);
    let a = field_attrs(&[serde(vec![rename("x")]), other_attr("doc"), serde(vec![word("default")])]).unwrap();
    assert_eq!(a.rename, Some("x".to_owned()));
    assert!(a.default);
    assert_eq!(
        field_attrs(&[serde(vec![rename("a")]), serde(vec![rename("b")])]).err(),
        Some(err(ErrorKind::DuplicateRename, Some(1), Some(0)))
    );
    assert_eq!(
        field_attrs(&[serde(vec![word("default"), word("default")])]).err(),
        Some(err(ErrorKind::DuplicateDefault, Some(0), Some(1)))
    );
    assert_eq!(
        field_attrs(&[serde(vec![word("transparent")])]).err(),
        Some(err(ErrorKind::UnsupportedAttribute, Some(0), Some(0)))
    );
    let rename_not_str =
        NestedMeta::Meta(Meta::NameValue(MetaNameValue { path: path("rename"), lit: Lit::Other }));
    assert_eq!(
        field_attrs(&[serde(vec![rename_not_str])]).err(),
        Some(err(ErrorKind::UnsupportedAttribute, Some(0), Some(0)))
    );
    assert_eq!(
        field_attrs(&[serde(vec![NestedMeta::Lit(Lit::Other)])]).err(),
        Some(err(ErrorKind::UnsupportedAttribute, Some(0), Some(0)))
    );
}

#[test]
fn names_of_fields_and_variants() {
    assert_eq!(name_of_field(&named("values", vec![serde(vec![rename("items")])])).unwrap(), "items");
    assert_eq!(name_of_field(&named("count", vec![serde(vec![word("default")])])).unwrap(), "count");
    assert_eq!(name_of_variant(&unit("B", vec![serde(vec![rename("renamedB")])])).unwrap(), "renamedB");
    assert_eq!(name_of_variant(&unit("A", vec![])).unwrap(), "A");
    assert_eq!(
        name_of_variant(&unit("A", vec![serde(vec![word("default")])])).err(),
        Some(err(ErrorKind::DefaultOnVariant, None, None))
    );
    assert_eq!(attr_rename(&[serde(vec![rename("r")])]).unwrap(), Some("r".to_owned()));
    assert_eq!(attr_rename(&[]).unwrap(), None);
}

#[test]
fn struct_kinds() {
    let tuple = DataStruct { fields: Fields::Unnamed(vec![Field { ident: None, attrs: vec![] }]) };
    let transparent = [serde(vec![word("transparent")])];
    assert!(matches!(struct_kind(&transparent, &tuple), Ok(StructKind::Transparent(f)) if f.len() == 1));
    assert_eq!(struct_kind(&[], &tuple).err(), Some(err(ErrorKind::NamedFieldsOnly, None, None)));
    let named_struct = DataStruct { fields: Fields::Named(vec![named("x", vec![])]) };
    assert!(matches!(struct_kind(&[], &named_struct), Ok(StructKind::Named(f)) if f.len() == 1));
    assert_eq!(struct_kind(&transparent, &named_struct).err(), Some(err(ErrorKind::TransparentShape, None, None)));
    let pair = DataStruct {
        fields: Fields::Unnamed(vec![Field { ident: None, attrs: vec![] }, Field { ident: None, attrs: vec![] }]),
    };
    assert_eq!(struct_kind(&transparent, &pair).err(), Some(err(ErrorKind::TransparentShape, None, None)));
}

#[test]
fn deserialize_plan_of_struct_with_defaults() {
    // struct WithDefaults { required: String, #[serde(default)] count: usize,
    //     #[serde(default, rename = "items")] values: Vec<String> }
    let fields = vec![
        named("required", vec![]),
        named("count", vec![serde(vec![word("default")])]),
        named("values", vec![serde(vec![word("default"), rename("items")])]),
    ];
    let plan = de::derive(&input(vec![], Data::Struct(DataStruct { fields: Fields::Named(fields) }))).unwrap();
    match plan {
        DeserializePlan::Struct(p) => {
            let got: Vec<(&str, bool)> = p.iter().map(|f| (f.name.as_str(), f.default)).collect();
            assert_eq!(got, vec![("required", false), ("count", true), ("items", true)]);
        }
        _ => panic!("expected a struct plan"),
    }
}

#[test]
fn deserialize_plan_errors() {
    let bad = vec![named("a", vec![]), named("b", vec![serde(vec![word("transparent")])])];
    assert_eq!(
        de::derive_struct(&bad).err(),
        Some(err_in(1, ErrorKind::UnsupportedAttribute, Some(0), Some(0)))
    );
    assert_eq!(de::derive(&input(vec![], Data::Union)).err(), Some(err(ErrorKind::UnsupportedInput, None, None)));
    let tuple = DataStruct { fields: Fields::Unnamed(vec![Field { ident: None, attrs: vec![] }]) };
    assert!(matches!(
        de::derive(&input(vec![serde(vec![word("transparent")])], Data::Struct(tuple))),
        Ok(DeserializePlan::TransparentStruct)
    ));
}

#[test]
fn enum_plans() {
    // enum Tag { A, #[serde(rename = "renamedB")] B }
    let variants = vec![unit("A", vec![]), unit("B", vec![serde(vec![rename("renamedB")])])];
    match de::derive(&input(vec![], Data::Enum(variants))) {
        Ok(DeserializePlan::Enum(names)) => assert_eq!(names, vec!["A".to_owned(), "renamedB".to_owned()]),
        _ => panic!("expected an enum plan"),
    }
    let with_field = vec![
        unit("A", vec![]),
        Variant { ident: "B".to_owned(), attrs: vec![], fields: Fields::Unnamed(vec![Field { ident: None, attrs: vec![] }]) },
        Variant { ident: "C".to_owned(), attrs: vec![], fields: Fields::Named(vec![]) },
    ];
    assert_eq!(
        de::derive(&input(vec![], Data::Enum(with_field))).err(),
        Some(err_in(1, ErrorKind::NonUnitVariant, None, None))
    );
    let mut generic = input(vec![], Data::Enum(vec![unit("A", vec![])]));
    generic.has_generic_params = true;
    assert_eq!(de::derive(&generic).err(), Some(err(ErrorKind::GenericEnum, None, None)));
    let mut with_where = input(vec![], Data::Enum(vec![unit("A", vec![])]));
    with_where.has_where_clause = true;
    assert_eq!(ser::derive(&with_where).err(), Some(err(ErrorKind::GenericEnum, None, None)));
}

#[test]
fn serialize_plans() {
    let fields = vec![named("x", vec![]), named("values", vec![serde(vec![rename("items")])])];
    match ser::derive(&input(vec![], Data::Struct(DataStruct { fields: Fields::Named(fields) }))) {
        Ok(SerializePlan::Struct(names)) => assert_eq!(names, vec!["x".to_owned(), "items".to_owned()]),
        _ => panic!("expected a struct plan"),
    }
    let variants = vec![unit("A", vec![]), unit("B", vec![serde(vec![rename("renamedB")])])];
    match ser::derive(&input(vec![], Data::Enum(variants))) {
        Ok(SerializePlan::Enum(names)) => assert_eq!(names, vec!["A".to_owned(), "renamedB".to_owned()]),
        _ => panic!("expected an enum plan"),
    }
    assert_eq!(ser::derive(&input(vec![], Data::Union)).err(), Some(err(ErrorKind::NamedFieldsOnly, None, None)));
    let unit_struct = DataStruct { fields: Fields::Unit };
    assert_eq!(
        ser::derive(&input(vec![], Data::Struct(unit_struct))).err(),
        Some(err(ErrorKind::NamedFieldsOnly, None, None))
    );
    let tuple = DataStruct { fields: Fields::Unnamed(vec![Field { ident: None, attrs: vec![] }]) };
    assert!(matches!(
        ser::derive(&input(vec![serde(vec![word("transparent")])], Data::Struct(tuple))),
        Ok(SerializePlan::TransparentStruct)
    ));
    assert_eq!(
        ser::derive_struct(&[named("a", vec![serde(vec![word("default"), word("default")])])]).err(),
        Some(err_in(0, ErrorKind::DuplicateDefault, Some(0), Some(1)))
    );
}

#[test]
fn key_lookup_picks_first_match() {
    let names = ["x", "t1", "t2", "t1"];
    assert_eq!(find_name(&names, "t1"), Some(1));
    assert_eq!(find_name(&names, "x"), Some(0));
    assert_eq!(find_name(&names, "ignored"), None);
    assert_eq!(find_name(&[], "x"), None);
}

#[test]
fn struct_level_attributes_of_named_structs() {
    let fields = || vec![named("x", vec![])];
    // Deserialize reads struct-level attributes and refuses unsupported ones.
    assert_eq!(
        de::derive(&input(vec![serde(vec![word("deny_unknown_fields")])], Data::Struct(DataStruct { fields: Fields::Named(fields()) }))).err(),
        Some(err(ErrorKind::UnsupportedAttribute, Some(0), Some(0)))
    );
    assert_eq!(
        de::derive(&input(vec![serde(vec![word("transparent")])], Data::Struct(DataStruct { fields: Fields::Named(fields()) }))).err(),
        Some(err(ErrorKind::TransparentShape, None, None))
    );
    // Serialize does not read struct-level attributes of a named struct.
    match ser::derive(&input(vec![serde(vec![word("deny_unknown_fields")])], Data::Struct(DataStruct { fields: Fields::Named(fields()) }))) {
        Ok(SerializePlan::Struct(names)) => assert_eq!(names, vec!["x".to_owned()]),
        _ => panic!("expected a struct plan"),
    }
    match ser::derive(&input(vec![serde(vec![word("transparent")])], Data::Struct(DataStruct { fields: Fields::Named(fields()) }))) {
        Ok(SerializePlan::Struct(names)) => assert_eq!(names, vec!["x".to_owned()]),
        _ => panic!("expected a struct plan"),
    }
}

#[test]
fn serialize_tuple_structs() {
    let one = || DataStruct { fields: Fields::Unnamed(vec![Field { ident: None, attrs: vec![] }]) };
    let two = DataStruct {
        fields: Fields::Unnamed(vec![Field { ident: None, attrs: vec![] }, Field { ident: None, attrs: vec![] }]),
    };
    assert_eq!(ser::derive(&input(vec![], Data::Struct(one()))).err(), Some(err(ErrorKind::NamedFieldsOnly, None, None)));
    assert_eq!(
        ser::derive(&input(vec![serde(vec![word("transparent")])], Data::Struct(two))).err(),
        Some(err(ErrorKind::NamedFieldsOnly, None, None))
    );
    assert_eq!(
        ser::derive(&input(vec![serde(vec![word("transparent"), word("other")])], Data::Struct(one()))).err(),
        Some(err(ErrorKind::NamedFieldsOnly, None, None))
    );
}
