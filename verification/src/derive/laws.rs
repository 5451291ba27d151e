//! What the attribute rules of the derive macros mean, stated over the
//! items of the `#[serde(...)]` lists of an attribute list as a whole,
//! whatever their order: which lists are accepted, and what the accepted
//! ones give.

use vstd::prelude::*;

use crate::derive::attr::Attribute;
use crate::derive::attr::DeriveError;
use crate::derive::attr::ErrorKind;
use crate::derive::attr::name_of_field_spec;
use crate::derive::attr::name_of_variant_spec;
use crate::derive::de::enum_plan;
use crate::derive::de::first_non_unit;
use crate::derive::de::struct_plan;
use crate::derive::de::struct_plan_from;
use crate::derive::de::variant_names_from;
use crate::derive::input::DeriveInput;
use crate::derive::input::Field;
use crate::derive::input::Variant;
use crate::derive::ser::field_names;
use crate::derive::ser::field_names_from;
use crate::derive::attr::FieldState;
use crate::derive::attr::Meta;
use crate::derive::attr::NestedMeta;
use crate::derive::attr::default_item;
use crate::derive::attr::field_attrs_from;
use crate::derive::attr::field_attrs_spec;
use crate::derive::attr::field_nested_from;
use crate::derive::attr::rename_item;
use crate::derive::attr::serde_name;
use crate::derive::attr::struct_attrs_from;
use crate::derive::attr::struct_nested_from;
use crate::derive::attr::transparent_name;

verus! {

// ---------------------------------------------------------------------------
// The items of the `serde` lists.

/// Whether `a` is a `#[serde ...]` attribute.
pub open spec fn is_serde_attr(a: Attribute) -> bool {
    a.path.is_ident_spec(serde_name())
}

/// Whether every `serde` attribute among `attrs[i..]` is a list
/// `#[serde(...)]`.
pub open spec fn serde_lists_from(attrs: Seq<Attribute>, i: int) -> bool {
    forall|k: int| i <= k < attrs.len() && is_serde_attr(#[trigger] attrs[k]) ==> attrs[k].meta matches Some(Meta::List(_))
}

/// Whether every `serde` attribute of `attrs` is a list `#[serde(...)]`.
pub open spec fn serde_lists(attrs: Seq<Attribute>) -> bool {
    serde_lists_from(attrs, 0)
}

/// The items of `a`'s list, if `a` is a `serde` list attribute.
pub open spec fn list_items(a: Attribute) -> Seq<NestedMeta> {
    match a.meta {
        Some(Meta::List(l)) => if is_serde_attr(a) {
            l.nested@
        } else {
            Seq::empty()
        },
        _ => Seq::empty(),
    }
}

/// The items of the `serde` lists among `attrs[i..]`, one list after the
/// other.
pub open spec fn serde_items_from(attrs: Seq<Attribute>, i: int) -> Seq<NestedMeta>
    decreases attrs.len() - i,
{
    if i < 0 || i >= attrs.len() {
        Seq::empty()
    } else {
        list_items(attrs[i]) + serde_items_from(attrs, i + 1)
    }
}

/// The items of the `serde` lists of `attrs`.
pub open spec fn serde_items(attrs: Seq<Attribute>) -> Seq<NestedMeta> {
    serde_items_from(attrs, 0)
}

// ---------------------------------------------------------------------------
// Field attributes.

/// Whether `x` is `rename = "..."`.
pub open spec fn is_rename(x: NestedMeta) -> bool {
    rename_item(x) is Some
}

/// Whether some item of `q` is `rename = "..."`.
pub open spec fn has_rename(q: Seq<NestedMeta>) -> bool {
    exists|k: int| 0 <= k < q.len() && is_rename(#[trigger] q[k])
}

/// Whether some item of `q` is `rename = "s"`.
pub open spec fn renames_to(q: Seq<NestedMeta>, s: Seq<char>) -> bool {
    exists|k: int| 0 <= k < q.len() && rename_item(#[trigger] q[k]) == Some(s)
}

/// Whether some item of `q` is `default`.
pub open spec fn has_default(q: Seq<NestedMeta>) -> bool {
    exists|k: int| 0 <= k < q.len() && default_item(#[trigger] q[k])
}

/// Whether every item of `q` is `rename = "..."` or `default`.
pub open spec fn field_items_supported(q: Seq<NestedMeta>) -> bool {
    forall|k: int| 0 <= k < q.len() ==> is_rename(#[trigger] q[k]) || default_item(q[k])
}

/// Whether at most one item of `q` is `rename = "..."`.
pub open spec fn at_most_one_rename(q: Seq<NestedMeta>) -> bool {
    forall|a: int, b: int| 0 <= a < b < q.len() && is_rename(#[trigger] q[a]) ==> !is_rename(#[trigger] q[b])
}

/// Whether at most one item of `q` is `default`.
pub open spec fn at_most_one_default(q: Seq<NestedMeta>) -> bool {
    forall|a: int, b: int| 0 <= a < b < q.len() && default_item(#[trigger] q[a]) ==> !default_item(#[trigger] q[b])
}

/// Whether the field attributes `attrs` are accepted: every `serde`
/// attribute is a list, and the items of the lists are `rename = "..."` and
/// `default`, each at most once.
pub open spec fn field_attrs_valid(attrs: Seq<Attribute>) -> bool {
    &&& serde_lists(attrs)
    &&& field_items_supported(serde_items(attrs))
    &&& at_most_one_rename(serde_items(attrs))
    &&& at_most_one_default(serde_items(attrs))
}

/// Whether the items `q` can be read on top of `st`.
pub open spec fn field_read_ok(q: Seq<NestedMeta>, st: FieldState) -> bool {
    &&& field_items_supported(q)
    &&& at_most_one_rename(q)
    &&& at_most_one_default(q)
    &&& !(st.rename is Some && has_rename(q))
    &&& !(st.default && has_default(q))
}

/// Whether `st2` is what reading the items `q` on top of `st` gives.
pub open spec fn field_read_gives(q: Seq<NestedMeta>, st: FieldState, st2: FieldState) -> bool {
    &&& st2.default == (st.default || has_default(q))
    &&& has_rename(q) ==> (st2.rename matches Some(s) && renames_to(q, s))
    &&& !has_rename(q) ==> st2.rename == st.rename
}

proof fn lemma_has_rename_value(q: Seq<NestedMeta>)
    ensures
        has_rename(q) <==> exists|s: Seq<char>| #[trigger] renames_to(q, s),
{
    if has_rename(q) {
        let k = choose|k: int| 0 <= k < q.len() && is_rename(#[trigger] q[k]);
        assert(renames_to(q, rename_item(q[k])->0));
    }
    if exists|s: Seq<char>| #[trigger] renames_to(q, s) {
        let s = choose|s: Seq<char>| #[trigger] renames_to(q, s);
        let k = choose|k: int| 0 <= k < q.len() && rename_item(#[trigger] q[k]) == Some(s);
        assert(is_rename(q[k]));
    }
}

/// Reading `q1 + q2` is reading `q1`, then `q2` on top of what `q1` gave.
proof fn lemma_field_read_concat(q1: Seq<NestedMeta>, q2: Seq<NestedMeta>, st: FieldState, st1: FieldState, st2: FieldState)
    ensures
        field_read_ok(q1 + q2, st) ==> field_read_ok(q1, st),
        field_read_ok(q1, st) && field_read_gives(q1, st, st1) ==> (field_read_ok(q1 + q2, st) <==> field_read_ok(q2, st1)),
        field_read_ok(q1, st) && field_read_gives(q1, st, st1) && field_read_ok(q2, st1) && field_read_gives(q2, st1, st2)
            ==> field_read_gives(q1 + q2, st, st2),
{
    let q = q1 + q2;
    let n1 = q1.len() as int;
    assert forall|k: int| 0 <= k < q1.len() implies q[k] == q1[k] by {}
    assert forall|k: int| 0 <= k < q2.len() implies q[n1 + k] == q2[k] by {}
    assert(has_rename(q) <==> has_rename(q1) || has_rename(q2)) by {
        if has_rename(q) {
            let k = choose|k: int| 0 <= k < q.len() && is_rename(#[trigger] q[k]);
            if k < n1 {
                assert(is_rename(q1[k]));
            } else {
                assert(is_rename(q2[k - n1]));
            }
        }
        if has_rename(q1) {
            let k = choose|k: int| 0 <= k < q1.len() && is_rename(#[trigger] q1[k]);
            assert(is_rename(q[k]));
        }
        if has_rename(q2) {
            let k = choose|k: int| 0 <= k < q2.len() && is_rename(#[trigger] q2[k]);
            assert(is_rename(q[n1 + k]));
        }
    }
    assert(has_default(q) <==> has_default(q1) || has_default(q2)) by {
        if has_default(q) {
            let k = choose|k: int| 0 <= k < q.len() && default_item(#[trigger] q[k]);
            if k < n1 {
                assert(default_item(q1[k]));
            } else {
                assert(default_item(q2[k - n1]));
            }
        }
        if has_default(q1) {
            let k = choose|k: int| 0 <= k < q1.len() && default_item(#[trigger] q1[k]);
            assert(default_item(q[k]));
        }
        if has_default(q2) {
            let k = choose|k: int| 0 <= k < q2.len() && default_item(#[trigger] q2[k]);
            assert(default_item(q[n1 + k]));
        }
    }
    assert forall|s: Seq<char>| #[trigger] renames_to(q, s) <==> renames_to(q1, s) || renames_to(q2, s) by {
        if renames_to(q, s) {
            let k = choose|k: int| 0 <= k < q.len() && rename_item(#[trigger] q[k]) == Some(s);
            if k < n1 {
                assert(rename_item(q1[k]) == Some(s));
            } else {
                assert(rename_item(q2[k - n1]) == Some(s));
            }
        }
        if renames_to(q1, s) {
            let k = choose|k: int| 0 <= k < q1.len() && rename_item(#[trigger] q1[k]) == Some(s);
            assert(rename_item(q[k]) == Some(s));
        }
        if renames_to(q2, s) {
            let k = choose|k: int| 0 <= k < q2.len() && rename_item(#[trigger] q2[k]) == Some(s);
            assert(rename_item(q[n1 + k]) == Some(s));
        }
    }
    // Supported items, and each kind at most once, split over the halves.
    assert(field_items_supported(q) <==> field_items_supported(q1) && field_items_supported(q2)) by {
        if field_items_supported(q) {
            assert forall|k: int| 0 <= k < q1.len() implies is_rename(#[trigger] q1[k]) || default_item(q1[k]) by {
                assert(is_rename(q[k]) || default_item(q[k]));
            }
            assert forall|k: int| 0 <= k < q2.len() implies is_rename(#[trigger] q2[k]) || default_item(q2[k]) by {
                assert(is_rename(q[n1 + k]) || default_item(q[n1 + k]));
            }
        }
        if field_items_supported(q1) && field_items_supported(q2) {
            assert forall|k: int| 0 <= k < q.len() implies is_rename(#[trigger] q[k]) || default_item(q[k]) by {
                if k < n1 {
                    assert(is_rename(q1[k]) || default_item(q1[k]));
                } else {
                    assert(is_rename(q2[k - n1]) || default_item(q2[k - n1]));
                }
            }
        }
    }
    assert(at_most_one_rename(q) <==> at_most_one_rename(q1) && at_most_one_rename(q2) && !(has_rename(q1) && has_rename(q2))) by {
        if at_most_one_rename(q) {
            assert forall|a: int, b: int| 0 <= a < b < q1.len() && is_rename(#[trigger] q1[a]) implies !is_rename(#[trigger] q1[b]) by {
                assert(is_rename(q[a]));
                assert(q[b] == q1[b]);
            }
            assert forall|a: int, b: int| 0 <= a < b < q2.len() && is_rename(#[trigger] q2[a]) implies !is_rename(#[trigger] q2[b]) by {
                assert(is_rename(q[n1 + a]));
                assert(q[n1 + b] == q2[b]);
            }
            if has_rename(q1) && has_rename(q2) {
                let a = choose|k: int| 0 <= k < q1.len() && is_rename(#[trigger] q1[k]);
                let b = choose|k: int| 0 <= k < q2.len() && is_rename(#[trigger] q2[k]);
                assert(is_rename(q[a]));
                assert(is_rename(q[n1 + b]));
            }
        }
        if at_most_one_rename(q1) && at_most_one_rename(q2) && !(has_rename(q1) && has_rename(q2)) {
            assert forall|a: int, b: int| 0 <= a < b < q.len() && is_rename(#[trigger] q[a]) implies !is_rename(#[trigger] q[b]) by {
                if b < n1 {
                    assert(is_rename(q1[a]));
                } else if a >= n1 {
                    assert(is_rename(q2[a - n1]));
                } else {
                    assert(is_rename(q1[a]));
                    if is_rename(q[b]) {
                        assert(is_rename(q2[b - n1]));
                    }
                }
            }
        }
    }
    assert(at_most_one_default(q) <==> at_most_one_default(q1) && at_most_one_default(q2) && !(has_default(q1) && has_default(q2))) by {
        if at_most_one_default(q) {
            assert forall|a: int, b: int| 0 <= a < b < q1.len() && default_item(#[trigger] q1[a]) implies !default_item(#[trigger] q1[b]) by {
                assert(default_item(q[a]));
                assert(q[b] == q1[b]);
            }
            assert forall|a: int, b: int| 0 <= a < b < q2.len() && default_item(#[trigger] q2[a]) implies !default_item(#[trigger] q2[b]) by {
                assert(default_item(q[n1 + a]));
                assert(q[n1 + b] == q2[b]);
            }
            if has_default(q1) && has_default(q2) {
                let a = choose|k: int| 0 <= k < q1.len() && default_item(#[trigger] q1[k]);
                let b = choose|k: int| 0 <= k < q2.len() && default_item(#[trigger] q2[k]);
                assert(default_item(q[a]));
                assert(default_item(q[n1 + b]));
            }
        }
        if at_most_one_default(q1) && at_most_one_default(q2) && !(has_default(q1) && has_default(q2)) {
            assert forall|a: int, b: int| 0 <= a < b < q.len() && default_item(#[trigger] q[a]) implies !default_item(#[trigger] q[b]) by {
                if b < n1 {
                    assert(default_item(q1[a]));
                } else if a >= n1 {
                    assert(default_item(q2[a - n1]));
                } else {
                    assert(default_item(q1[a]));
                    if default_item(q[b]) {
                        assert(default_item(q2[b - n1]));
                    }
                }
            }
        }
    }
    lemma_has_rename_value(q1);
    lemma_has_rename_value(q2);
    lemma_has_rename_value(q);
    if field_read_ok(q1, st) && field_read_gives(q1, st, st1) && field_read_ok(q2, st1) && field_read_gives(q2, st1, st2) {
        if has_rename(q2) {
            let s = st2.rename->0;
            let k = choose|k: int| 0 <= k < q2.len() && rename_item(#[trigger] q2[k]) == Some(s);
            assert(rename_item(q[n1 + k]) == Some(s));
        } else if has_rename(q1) {
            let s = st1.rename->0;
            let k = choose|k: int| 0 <= k < q1.len() && rename_item(#[trigger] q1[k]) == Some(s);
            assert(rename_item(q[k]) == Some(s));
        }
    }
}

/// Reading one item.
proof fn lemma_field_read_one(x: NestedMeta, st: FieldState)
    ensures
        is_rename(x) ==> (field_read_ok(seq![x], st) <==> st.rename is None),
        is_rename(x) ==> field_read_gives(seq![x], st, FieldState { rename: rename_item(x), default: st.default }),
        !is_rename(x) && default_item(x) ==> (field_read_ok(seq![x], st) <==> !st.default),
        !is_rename(x) && default_item(x) ==> field_read_gives(seq![x], st, FieldState { rename: st.rename, default: true }),
        !is_rename(x) && !default_item(x) ==> !field_read_ok(seq![x], st),
{
    let q = seq![x];
    assert(q[0] == x);
    if is_rename(x) {
        assert(has_rename(q));
        assert(renames_to(q, rename_item(x)->0));
    }
    if default_item(x) {
        assert(has_default(q));
    }
    assert(!has_rename(q) ==> !is_rename(x));
    assert(!has_default(q) ==> !default_item(x));
    assert forall|s: Seq<char>| #[trigger] renames_to(q, s) <==> rename_item(x) == Some(s) by {
        if renames_to(q, s) {
            let k = choose|k: int| 0 <= k < q.len() && rename_item(#[trigger] q[k]) == Some(s);
            assert(k == 0);
        }
    }
    if !is_rename(x) {
        assert(!has_rename(q)) by {
            if has_rename(q) {
                let k = choose|k: int| 0 <= k < q.len() && is_rename(#[trigger] q[k]);
                assert(k == 0);
            }
        }
    }
    if !default_item(x) {
        assert(!has_default(q)) by {
            if has_default(q) {
                let k = choose|k: int| 0 <= k < q.len() && default_item(#[trigger] q[k]);
                assert(k == 0);
            }
        }
    }
    if !is_rename(x) && !default_item(x) {
        assert(!(is_rename(q[0]) || default_item(q[0])));
    }
}

/// Reading the items `nested[j..]` of one list.
proof fn lemma_field_nested(nested: Seq<NestedMeta>, j: int, st: FieldState, i: int)
    requires
        0 <= j <= nested.len(),
    ensures
        field_nested_from(nested, j, st, i) is Ok <==> field_read_ok(nested.subrange(j, nested.len() as int), st),
        field_nested_from(nested, j, st, i) matches Ok(st2) ==> field_read_gives(nested.subrange(j, nested.len() as int), st, st2),
    decreases nested.len() - j,
{
    let q = nested.subrange(j, nested.len() as int);
    if j == nested.len() {
        assert(!has_rename(q));
        assert(!has_default(q));
    } else {
        let x = nested[j];
        let rest = nested.subrange(j + 1, nested.len() as int);
        assert(q =~= seq![x] + rest);
        lemma_field_read_one(x, st);
        if is_rename(x) {
            let st1 = FieldState { rename: rename_item(x), default: st.default };
            lemma_field_read_concat(seq![x], rest, st, st1, st1);
            if st.rename is None {
                lemma_field_nested(nested, j + 1, st1, i);
                if let Ok(st2) = field_nested_from(nested, j, st, i) {
                    lemma_field_read_concat(seq![x], rest, st, st1, st2);
                }
            }
        } else if default_item(x) {
            let st1 = FieldState { rename: st.rename, default: true };
            lemma_field_read_concat(seq![x], rest, st, st1, st1);
            if !st.default {
                lemma_field_nested(nested, j + 1, st1, i);
                if let Ok(st2) = field_nested_from(nested, j, st, i) {
                    lemma_field_read_concat(seq![x], rest, st, st1, st2);
                }
            }
        } else {
            lemma_field_read_concat(seq![x], rest, st, st, st);
        }
    }
}

/// Reading the attributes `attrs[i..]`.
proof fn lemma_field_attrs_from(attrs: Seq<Attribute>, i: int, st: FieldState)
    requires
        0 <= i <= attrs.len(),
    ensures
        field_attrs_from(attrs, i, st) is Ok <==> serde_lists_from(attrs, i) && field_read_ok(serde_items_from(attrs, i), st),
        field_attrs_from(attrs, i, st) matches Ok(st2) ==> field_read_gives(serde_items_from(attrs, i), st, st2),
    decreases attrs.len() - i,
{
    let q = serde_items_from(attrs, i);
    if i == attrs.len() {
        assert(q =~= Seq::<NestedMeta>::empty());
        assert(!has_rename(q));
        assert(!has_default(q));
    } else {
        let a = attrs[i];
        let rest = serde_items_from(attrs, i + 1);
        assert(q == list_items(a) + rest);
        assert(serde_lists_from(attrs, i) <==> (is_serde_attr(a) ==> a.meta matches Some(Meta::List(_))) && serde_lists_from(attrs, i + 1)) by {
            if serde_lists_from(attrs, i) {
                assert(is_serde_attr(attrs[i]) ==> attrs[i].meta matches Some(Meta::List(_)));
            }
        }
        if !is_serde_attr(a) {
            assert(q =~= rest);
            lemma_field_attrs_from(attrs, i + 1, st);
        } else {
            match a.meta {
                Some(Meta::List(l)) => {
                    let items = l.nested@;
                    assert(items.subrange(0, items.len() as int) =~= items);
                    lemma_field_nested(items, 0, st, i);
                    match field_nested_from(items, 0, st, i) {
                        Ok(st1) => {
                            lemma_field_attrs_from(attrs, i + 1, st1);
                            lemma_field_read_concat(items, rest, st, st1, st1);
                            if let Ok(st2) = field_attrs_from(attrs, i, st) {
                                lemma_field_read_concat(items, rest, st, st1, st2);
                            }
                        },
                        Err(_) => {
                            lemma_field_read_concat(items, rest, st, st, st);
                        },
                    }
                },
                _ => {},
            }
        }
    }
}

/// Field attributes are accepted exactly when every `serde` attribute is a
/// list whose items are `rename = "..."` and `default`, each at most once
/// over all the lists, in any order; then the field is renamed to `s`
/// exactly when some item is `rename = "s"`, and takes its default exactly
/// when some item is `default`.
pub proof fn lemma_field_attrs_read(attrs: Seq<Attribute>)
    ensures
        field_attrs_spec(attrs) is Ok <==> field_attrs_valid(attrs),
        field_attrs_spec(attrs) matches Ok(st) ==> {
            &&& st.default == has_default(serde_items(attrs))
            &&& forall|s: Seq<char>| #[trigger] renames_to(serde_items(attrs), s) <==> st.rename == Some(s)
        },
{
    let st0 = FieldState { rename: None, default: false };
    lemma_field_attrs_from(attrs, 0, st0);
}

// ---------------------------------------------------------------------------
// Struct attributes.

/// Whether `x` is the word `transparent`.
pub open spec fn transparent_item(x: NestedMeta) -> bool {
    x matches NestedMeta::Meta(Meta::Path(p)) && p.is_ident_spec(transparent_name())
}

/// Whether some item of `q` is `transparent`.
pub open spec fn has_transparent(q: Seq<NestedMeta>) -> bool {
    exists|k: int| 0 <= k < q.len() && transparent_item(#[trigger] q[k])
}

/// Whether every item of `q` is `transparent`.
pub open spec fn struct_items_supported(q: Seq<NestedMeta>) -> bool {
    forall|k: int| 0 <= k < q.len() ==> transparent_item(#[trigger] q[k])
}

/// Whether at most one item of `q` is `transparent`.
pub open spec fn at_most_one_transparent(q: Seq<NestedMeta>) -> bool {
    forall|a: int, b: int| 0 <= a < b < q.len() && transparent_item(#[trigger] q[a]) ==> !transparent_item(#[trigger] q[b])
}

/// Whether the struct attributes `attrs` are accepted: every `serde`
/// attribute is a list, and its items are `transparent`, at most once over
/// all the lists.
pub open spec fn struct_attrs_valid(attrs: Seq<Attribute>) -> bool {
    &&& serde_lists(attrs)
    &&& struct_items_supported(serde_items(attrs))
    &&& at_most_one_transparent(serde_items(attrs))
}

/// Whether the items `q` can be read on top of `t`.
pub open spec fn struct_read_ok(q: Seq<NestedMeta>, t: bool) -> bool {
    &&& struct_items_supported(q)
    &&& at_most_one_transparent(q)
    &&& !(t && has_transparent(q))
}

/// Reading `q1 + q2` is reading `q1`, then `q2` on top of what `q1` gave.
proof fn lemma_struct_read_concat(q1: Seq<NestedMeta>, q2: Seq<NestedMeta>, t: bool)
    ensures
        struct_read_ok(q1 + q2, t) ==> struct_read_ok(q1, t),
        struct_read_ok(q1, t) ==> (struct_read_ok(q1 + q2, t) <==> struct_read_ok(q2, t || has_transparent(q1))),
        has_transparent(q1 + q2) == (has_transparent(q1) || has_transparent(q2)),
{
    let q = q1 + q2;
    let n1 = q1.len() as int;
    assert forall|k: int| 0 <= k < q1.len() implies q[k] == q1[k] by {}
    assert forall|k: int| 0 <= k < q2.len() implies q[n1 + k] == q2[k] by {}
    assert(has_transparent(q) <==> has_transparent(q1) || has_transparent(q2)) by {
        if has_transparent(q) {
            let k = choose|k: int| 0 <= k < q.len() && transparent_item(#[trigger] q[k]);
            if k < n1 {
                assert(transparent_item(q1[k]));
            } else {
                assert(transparent_item(q2[k - n1]));
            }
        }
        if has_transparent(q1) {
            let k = choose|k: int| 0 <= k < q1.len() && transparent_item(#[trigger] q1[k]);
            assert(transparent_item(q[k]));
        }
        if has_transparent(q2) {
            let k = choose|k: int| 0 <= k < q2.len() && transparent_item(#[trigger] q2[k]);
            assert(transparent_item(q[n1 + k]));
        }
    }
    assert(struct_items_supported(q) <==> struct_items_supported(q1) && struct_items_supported(q2)) by {
        if struct_items_supported(q) {
            assert forall|k: int| 0 <= k < q1.len() implies transparent_item(#[trigger] q1[k]) by {
                assert(transparent_item(q[k]));
            }
            assert forall|k: int| 0 <= k < q2.len() implies transparent_item(#[trigger] q2[k]) by {
                assert(transparent_item(q[n1 + k]));
            }
        }
        if struct_items_supported(q1) && struct_items_supported(q2) {
            assert forall|k: int| 0 <= k < q.len() implies transparent_item(#[trigger] q[k]) by {
                if k < n1 {
                    assert(transparent_item(q1[k]));
                } else {
                    assert(transparent_item(q2[k - n1]));
                }
            }
        }
    }
    assert(at_most_one_transparent(q) <==> at_most_one_transparent(q1) && at_most_one_transparent(q2) && !(has_transparent(q1) && has_transparent(q2))) by {
        if at_most_one_transparent(q) {
            assert forall|a: int, b: int| 0 <= a < b < q1.len() && transparent_item(#[trigger] q1[a]) implies !transparent_item(#[trigger] q1[b]) by {
                assert(transparent_item(q[a]));
                assert(q[b] == q1[b]);
            }
            assert forall|a: int, b: int| 0 <= a < b < q2.len() && transparent_item(#[trigger] q2[a]) implies !transparent_item(#[trigger] q2[b]) by {
                assert(transparent_item(q[n1 + a]));
                assert(q[n1 + b] == q2[b]);
            }
            if has_transparent(q1) && has_transparent(q2) {
                let a = choose|k: int| 0 <= k < q1.len() && transparent_item(#[trigger] q1[k]);
                let b = choose|k: int| 0 <= k < q2.len() && transparent_item(#[trigger] q2[k]);
                assert(transparent_item(q[a]));
                assert(transparent_item(q[n1 + b]));
            }
        }
        if at_most_one_transparent(q1) && at_most_one_transparent(q2) && !(has_transparent(q1) && has_transparent(q2)) {
            assert forall|a: int, b: int| 0 <= a < b < q.len() && transparent_item(#[trigger] q[a]) implies !transparent_item(#[trigger] q[b]) by {
                if b < n1 {
                    assert(transparent_item(q1[a]));
                } else if a >= n1 {
                    assert(transparent_item(q2[a - n1]));
                } else {
                    assert(transparent_item(q1[a]));
                    if transparent_item(q[b]) {
                        assert(transparent_item(q2[b - n1]));
                    }
                }
            }
        }
    }
}

/// Reading the items `nested[j..]` of one list.
proof fn lemma_struct_nested(nested: Seq<NestedMeta>, j: int, t: bool, i: int)
    requires
        0 <= j <= nested.len(),
    ensures
        struct_nested_from(nested, j, t, i) is Ok <==> struct_read_ok(nested.subrange(j, nested.len() as int), t),
        struct_nested_from(nested, j, t, i) matches Ok(t2) ==> t2 == (t || has_transparent(nested.subrange(j, nested.len() as int))),
    decreases nested.len() - j,
{
    let q = nested.subrange(j, nested.len() as int);
    if j == nested.len() {
        assert(!has_transparent(q));
    } else {
        let x = nested[j];
        let one = seq![x];
        let rest = nested.subrange(j + 1, nested.len() as int);
        assert(q =~= one + rest);
        assert(one[0] == x);
        lemma_struct_read_concat(one, rest, t);
        assert(has_transparent(one) == transparent_item(x)) by {
            if has_transparent(one) {
                let k = choose|k: int| 0 <= k < one.len() && transparent_item(#[trigger] one[k]);
                assert(k == 0);
            }
        }
        if transparent_item(x) {
            if !t {
                lemma_struct_nested(nested, j + 1, true, i);
            }
        } else {
            assert(!transparent_item(one[0]));
        }
    }
}

/// Reading the attributes `attrs[i..]`.
proof fn lemma_struct_attrs_from(attrs: Seq<Attribute>, i: int, t: bool)
    requires
        0 <= i <= attrs.len(),
    ensures
        struct_attrs_from(attrs, i, t) is Ok <==> serde_lists_from(attrs, i) && struct_read_ok(serde_items_from(attrs, i), t),
        struct_attrs_from(attrs, i, t) matches Ok(t2) ==> t2 == (t || has_transparent(serde_items_from(attrs, i))),
    decreases attrs.len() - i,
{
    let q = serde_items_from(attrs, i);
    if i == attrs.len() {
        assert(q =~= Seq::<NestedMeta>::empty());
        assert(!has_transparent(q));
    } else {
        let a = attrs[i];
        let rest = serde_items_from(attrs, i + 1);
        assert(q == list_items(a) + rest);
        assert(serde_lists_from(attrs, i) <==> (is_serde_attr(a) ==> a.meta matches Some(Meta::List(_))) && serde_lists_from(attrs, i + 1)) by {
            if serde_lists_from(attrs, i) {
                assert(is_serde_attr(attrs[i]) ==> attrs[i].meta matches Some(Meta::List(_)));
            }
        }
        if !is_serde_attr(a) {
            assert(q =~= rest);
            lemma_struct_attrs_from(attrs, i + 1, t);
        } else {
            match a.meta {
                Some(Meta::List(l)) => {
                    let items = l.nested@;
                    assert(items.subrange(0, items.len() as int) =~= items);
                    lemma_struct_nested(items, 0, t, i);
                    lemma_struct_read_concat(items, rest, t);
                    match struct_nested_from(items, 0, t, i) {
                        Ok(t1) => {
                            lemma_struct_attrs_from(attrs, i + 1, t1);
                        },
                        Err(_) => {},
                    }
                },
                _ => {},
            }
        }
    }
}

/// Struct attributes are accepted exactly when every `serde` attribute is a
/// list whose items are all the word `transparent`, at most once over all
/// the lists; then the struct is transparent exactly when some item is
/// `transparent`.
pub proof fn lemma_struct_attrs_read(attrs: Seq<Attribute>)
    ensures
        struct_attrs_from(attrs, 0, false) is Ok <==> struct_attrs_valid(attrs),
        struct_attrs_from(attrs, 0, false) matches Ok(t) ==> t == has_transparent(serde_items(attrs)),
{
    lemma_struct_attrs_from(attrs, 0, false);
}

// ---------------------------------------------------------------------------
// Keys of fields and names of variants.

/// Whether `k` is the JSON key of the named field `f`: the value of its
/// `rename = "..."` item if it has one, else its identifier.
pub open spec fn field_key(f: Field, k: Seq<char>) -> bool {
    if has_rename(serde_items(f.attrs@)) {
        renames_to(serde_items(f.attrs@), k)
    } else {
        k == f.ident->0@
    }
}

/// Whether `k` is the JSON name of the variant `v`: the value of its
/// `rename = "..."` item if it has one, else its identifier.
pub open spec fn variant_key(v: Variant, k: Seq<char>) -> bool {
    if has_rename(serde_items(v.attrs@)) {
        renames_to(serde_items(v.attrs@), k)
    } else {
        k == v.ident@
    }
}

/// Whether the attributes of a variant are accepted: as those of a field,
/// without `default`.
pub open spec fn variant_attrs_valid(attrs: Seq<Attribute>) -> bool {
    field_attrs_valid(attrs) && !has_default(serde_items(attrs))
}

/// The key a field's attributes give, in the terms of the items.
proof fn lemma_field_key(f: Field)
    ensures
        field_attrs_spec(f.attrs@) matches Ok(st) ==> {
            &&& field_key(f, match st.rename {
                Some(n) => n,
                None => f.ident->0@,
            })
            &&& st.default == has_default(serde_items(f.attrs@))
        },
        name_of_field_spec(f) is Ok <==> field_attrs_valid(f.attrs@),
        name_of_field_spec(f) matches Ok(n) ==> field_key(f, n),
        name_of_variant_spec(Variant { ident: f.ident->0, attrs: f.attrs, fields: crate::derive::input::Fields::Unit }) is Ok
            <==> variant_attrs_valid(f.attrs@),
{
    let q = serde_items(f.attrs@);
    lemma_field_attrs_read(f.attrs@);
    lemma_has_rename_value(q);
    if let Ok(st) = field_attrs_spec(f.attrs@) {
        match st.rename {
            Some(n) => {
                assert(renames_to(q, n));
                assert(has_rename(q));
            },
            None => {
                if has_rename(q) {
                    let s = choose|s: Seq<char>| #[trigger] renames_to(q, s);
                    assert(st.rename == Some(s));
                }
            },
        }
    }
}

proof fn lemma_variant_key(v: Variant)
    ensures
        name_of_variant_spec(v) is Ok <==> variant_attrs_valid(v.attrs@),
        name_of_variant_spec(v) matches Ok(n) ==> variant_key(v, n),
{
    let q = serde_items(v.attrs@);
    lemma_field_attrs_read(v.attrs@);
    lemma_has_rename_value(q);
    if let Ok(st) = field_attrs_spec(v.attrs@) {
        match st.rename {
            Some(n) => {
                assert(renames_to(q, n));
                assert(has_rename(q));
            },
            None => {
                if has_rename(q) {
                    let s = choose|s: Seq<char>| #[trigger] renames_to(q, s);
                    assert(st.rename == Some(s));
                }
            },
        }
    }
}

// ---------------------------------------------------------------------------
// Plans of structs and enums.

proof fn lemma_struct_plan_from(fields: Seq<Field>, i: int, acc: Seq<(Seq<char>, bool)>)
    requires
        0 <= i <= fields.len(),
    ensures
        struct_plan_from(fields, i, acc) is Ok <==> forall|k: int| i <= k < fields.len() ==> field_attrs_valid(#[trigger] fields[k].attrs@),
        struct_plan_from(fields, i, acc) matches Ok(p) ==> {
            &&& p.len() == acc.len() + fields.len() - i
            &&& forall|m: int| 0 <= m < acc.len() ==> #[trigger] p[m] == acc[m]
            &&& forall|k: int| i <= k < fields.len() ==> {
                &&& field_key(#[trigger] fields[k], p[acc.len() + k - i].0)
                &&& p[acc.len() + k - i].1 == has_default(serde_items(fields[k].attrs@))
            }
        },
        struct_plan_from(fields, i, acc) matches Err(e) ==> exists|k: int| {
            &&& i <= k < fields.len()
            &&& e.node == Some(k as usize)
            &&& !field_attrs_valid(#[trigger] fields[k].attrs@)
            &&& forall|j: int| i <= j < k ==> field_attrs_valid(#[trigger] fields[j].attrs@)
        },
    decreases fields.len() - i,
{
    if i < fields.len() {
        let f = fields[i];
        lemma_field_key(f);
        lemma_field_attrs_read(f.attrs@);
        match field_attrs_spec(f.attrs@) {
            Ok(st) => {
                let name = match st.rename {
                    Some(n) => n,
                    None => f.ident->0@,
                };
                let acc2 = acc.push((name, st.default));
                lemma_struct_plan_from(fields, i + 1, acc2);
                if let Ok(p) = struct_plan_from(fields, i, acc) {
                    assert(p[acc.len() as int] == acc2[acc.len() as int]);
                    assert forall|k: int| i <= k < fields.len() implies {
                        &&& field_key(#[trigger] fields[k], p[acc.len() + k - i].0)
                        &&& p[acc.len() + k - i].1 == has_default(serde_items(fields[k].attrs@))
                    } by {
                        if k == i {
                            assert(p[acc.len() + k - i] == (name, st.default));
                        } else {
                            assert(acc2.len() + k - (i + 1) == acc.len() + k - i);
                        }
                    }
                }
                if let Err(e) = struct_plan_from(fields, i, acc) {
                    let k = choose|k: int| {
                        &&& i + 1 <= k < fields.len()
                        &&& e.node == Some(k as usize)
                        &&& !field_attrs_valid(#[trigger] fields[k].attrs@)
                        &&& forall|j: int| i + 1 <= j < k ==> field_attrs_valid(#[trigger] fields[j].attrs@)
                    };
                    assert(forall|j: int| i <= j < k ==> field_attrs_valid(#[trigger] fields[j].attrs@));
                }
            },
            Err(e) => {
                assert(forall|j: int| i <= j < i ==> field_attrs_valid(#[trigger] fields[j].attrs@));
                assert(!field_attrs_valid(fields[i].attrs@));
            },
        }
    }
}

/// The plan of the named fields of a derived `Deserialize`: accepted
/// exactly when the attributes of every field are; then one entry per
/// field, in order, whose key is the value of the field's `rename` item if
/// it has one and else its identifier, and which takes `Default::default()`
/// when missing exactly when the field has a `default` item, whether it is
/// renamed or not. A refusal is placed at the first field whose attributes
/// are refused.
pub proof fn lemma_struct_plan(fields: Seq<Field>)
    ensures
        struct_plan(fields) is Ok <==> forall|k: int| 0 <= k < fields.len() ==> field_attrs_valid(#[trigger] fields[k].attrs@),
        struct_plan(fields) matches Ok(p) ==> {
            &&& p.len() == fields.len()
            &&& forall|k: int| 0 <= k < fields.len() ==> {
                &&& field_key(#[trigger] fields[k], p[k].0)
                &&& p[k].1 == has_default(serde_items(fields[k].attrs@))
            }
        },
        struct_plan(fields) matches Err(e) ==> exists|k: int| {
            &&& 0 <= k < fields.len()
            &&& e.node == Some(k as usize)
            &&& !field_attrs_valid(#[trigger] fields[k].attrs@)
            &&& forall|j: int| 0 <= j < k ==> field_attrs_valid(#[trigger] fields[j].attrs@)
        },
{
    lemma_struct_plan_from(fields, 0, Seq::empty());
    if let Ok(p) = struct_plan(fields) {
        assert forall|k: int| 0 <= k < fields.len() implies {
            &&& field_key(#[trigger] fields[k], p[k].0)
            &&& p[k].1 == has_default(serde_items(fields[k].attrs@))
        } by {
            assert(0 + k - 0 == k);
        }
    }
}

proof fn lemma_field_names_from(fields: Seq<Field>, i: int, acc: Seq<Seq<char>>)
    requires
        0 <= i <= fields.len(),
    ensures
        field_names_from(fields, i, acc) is Ok <==> forall|k: int| i <= k < fields.len() ==> field_attrs_valid(#[trigger] fields[k].attrs@),
        field_names_from(fields, i, acc) matches Ok(p) ==> {
            &&& p.len() == acc.len() + fields.len() - i
            &&& forall|m: int| 0 <= m < acc.len() ==> #[trigger] p[m] == acc[m]
            &&& forall|k: int| i <= k < fields.len() ==> field_key(#[trigger] fields[k], p[acc.len() + k - i])
        },
        field_names_from(fields, i, acc) matches Err(e) ==> exists|k: int| {
            &&& i <= k < fields.len()
            &&& e.node == Some(k as usize)
            &&& !field_attrs_valid(#[trigger] fields[k].attrs@)
            &&& forall|j: int| i <= j < k ==> field_attrs_valid(#[trigger] fields[j].attrs@)
        },
    decreases fields.len() - i,
{
    if i < fields.len() {
        let f = fields[i];
        lemma_field_key(f);
        match name_of_field_spec(f) {
            Ok(name) => {
                let acc2 = acc.push(name);
                lemma_field_names_from(fields, i + 1, acc2);
                if let Ok(p) = field_names_from(fields, i, acc) {
                    assert(p[acc.len() as int] == acc2[acc.len() as int]);
                    assert forall|k: int| i <= k < fields.len() implies field_key(#[trigger] fields[k], p[acc.len() + k - i]) by {
                        if k == i {
                            assert(p[acc.len() + k - i] == name);
                        } else {
                            assert(acc2.len() + k - (i + 1) == acc.len() + k - i);
                        }
                    }
                }
                if let Err(e) = field_names_from(fields, i, acc) {
                    let k = choose|k: int| {
                        &&& i + 1 <= k < fields.len()
                        &&& e.node == Some(k as usize)
                        &&& !field_attrs_valid(#[trigger] fields[k].attrs@)
                        &&& forall|j: int| i + 1 <= j < k ==> field_attrs_valid(#[trigger] fields[j].attrs@)
                    };
                    assert(forall|j: int| i <= j < k ==> field_attrs_valid(#[trigger] fields[j].attrs@));
                }
            },
            Err(e) => {
                assert(!field_attrs_valid(fields[i].attrs@));
            },
        }
    }
}

/// The keys of the named fields of a derived `Serialize`: accepted exactly
/// when the attributes of every field are; then one key per field, in
/// order: the value of the field's `rename` item if it has one, else its
/// identifier, whatever other items it has. A refusal is placed at the
/// first field whose attributes are refused.
pub proof fn lemma_field_names(fields: Seq<Field>)
    ensures
        field_names(fields) is Ok <==> forall|k: int| 0 <= k < fields.len() ==> field_attrs_valid(#[trigger] fields[k].attrs@),
        field_names(fields) matches Ok(p) ==> {
            &&& p.len() == fields.len()
            &&& forall|k: int| 0 <= k < fields.len() ==> field_key(#[trigger] fields[k], p[k])
        },
        field_names(fields) matches Err(e) ==> exists|k: int| {
            &&& 0 <= k < fields.len()
            &&& e.node == Some(k as usize)
            &&& !field_attrs_valid(#[trigger] fields[k].attrs@)
            &&& forall|j: int| 0 <= j < k ==> field_attrs_valid(#[trigger] fields[j].attrs@)
        },
{
    lemma_field_names_from(fields, 0, Seq::empty());
    if let Ok(p) = field_names(fields) {
        assert forall|k: int| 0 <= k < fields.len() implies field_key(#[trigger] fields[k], p[k]) by {
            assert(0 + k - 0 == k);
        }
    }
}

proof fn lemma_variant_names_from(variants: Seq<Variant>, i: int, acc: Seq<Seq<char>>)
    requires
        0 <= i <= variants.len(),
    ensures
        variant_names_from(variants, i, acc) is Ok <==> forall|k: int| i <= k < variants.len() ==> variant_attrs_valid(#[trigger] variants[k].attrs@),
        variant_names_from(variants, i, acc) matches Ok(p) ==> {
            &&& p.len() == acc.len() + variants.len() - i
            &&& forall|m: int| 0 <= m < acc.len() ==> #[trigger] p[m] == acc[m]
            &&& forall|k: int| i <= k < variants.len() ==> variant_key(#[trigger] variants[k], p[acc.len() + k - i])
        },
        variant_names_from(variants, i, acc) matches Err(e) ==> exists|k: int| {
            &&& i <= k < variants.len()
            &&& e.node == Some(k as usize)
            &&& !variant_attrs_valid(#[trigger] variants[k].attrs@)
            &&& forall|j: int| i <= j < k ==> variant_attrs_valid(#[trigger] variants[j].attrs@)
        },
    decreases variants.len() - i,
{
    if i < variants.len() {
        let v = variants[i];
        lemma_variant_key(v);
        match name_of_variant_spec(v) {
            Ok(name) => {
                let acc2 = acc.push(name);
                lemma_variant_names_from(variants, i + 1, acc2);
                if let Ok(p) = variant_names_from(variants, i, acc) {
                    assert(p[acc.len() as int] == acc2[acc.len() as int]);
                    assert forall|k: int| i <= k < variants.len() implies variant_key(#[trigger] variants[k], p[acc.len() + k - i]) by {
                        if k == i {
                            assert(p[acc.len() + k - i] == name);
                        } else {
                            assert(acc2.len() + k - (i + 1) == acc.len() + k - i);
                        }
                    }
                }
                if let Err(e) = variant_names_from(variants, i, acc) {
                    let k = choose|k: int| {
                        &&& i + 1 <= k < variants.len()
                        &&& e.node == Some(k as usize)
                        &&& !variant_attrs_valid(#[trigger] variants[k].attrs@)
                        &&& forall|j: int| i + 1 <= j < k ==> variant_attrs_valid(#[trigger] variants[j].attrs@)
                    };
                    assert(forall|j: int| i <= j < k ==> variant_attrs_valid(#[trigger] variants[j].attrs@));
                }
            },
            Err(e) => {
                assert(!variant_attrs_valid(variants[i].attrs@));
            },
        }
    }
}

/// The names of an enum's variants for the derives: accepted exactly when
/// the enum has no generics, every variant is a unit variant and the
/// attributes of every variant are accepted (as a field's, without
/// `default`); then one name per variant, in order: the value of its
/// `rename` item if it has one, else its identifier. An enum with generics
/// is refused as such; otherwise a variant with fields, of either kind, is
/// refused at the first one; otherwise a refusal is placed at the first
/// variant whose attributes are refused.
pub proof fn lemma_enum_plan(input: DeriveInput, variants: Seq<Variant>)
    ensures
        enum_plan(input, variants) is Ok <==> {
            &&& !input.has_generic_params
            &&& !input.has_where_clause
            &&& forall|k: int| 0 <= k < variants.len() ==> (#[trigger] variants[k]).fields is Unit
            &&& forall|k: int| 0 <= k < variants.len() ==> variant_attrs_valid(#[trigger] variants[k].attrs@)
        },
        enum_plan(input, variants) matches Ok(n) ==> {
            &&& n.len() == variants.len()
            &&& forall|k: int| 0 <= k < variants.len() ==> variant_key(#[trigger] variants[k], n[k])
        },
        input.has_generic_params || input.has_where_clause ==> enum_plan(input, variants)
            == Err::<Seq<Seq<char>>, DeriveError>(DeriveError { node: None, kind: ErrorKind::GenericEnum, attr: None, item: None }),
        forall|k: int| {
            &&& !input.has_generic_params
            &&& !input.has_where_clause
            &&& 0 <= k < variants.len()
            &&& !((#[trigger] variants[k]).fields is Unit)
            &&& forall|j: int| 0 <= j < k ==> (#[trigger] variants[j]).fields is Unit
        } ==> enum_plan(input, variants)
            == Err::<Seq<Seq<char>>, DeriveError>(DeriveError { node: Some(k as usize), kind: ErrorKind::NonUnitVariant, attr: None, item: None }),
        match enum_plan(input, variants) {
            Err(e) => e.kind != ErrorKind::GenericEnum && e.kind != ErrorKind::NonUnitVariant ==> exists|k: int| {
                &&& 0 <= k < variants.len()
                &&& e.node == Some(k as usize)
                &&& !variant_attrs_valid(#[trigger] variants[k].attrs@)
                &&& forall|j: int| 0 <= j < k ==> variant_attrs_valid(#[trigger] variants[j].attrs@)
            },
            Ok(_) => true,
        },
{
    lemma_variant_names_from(variants, 0, Seq::empty());
    lemma_first_non_unit(variants);
    if let Ok(n) = variant_names_from(variants, 0, Seq::empty()) {
        assert forall|k: int| 0 <= k < variants.len() implies variant_key(#[trigger] variants[k], n[k]) by {
            assert(0 + k - 0 == k);
        }
    }
}

/// The first variant with fields, as `first_non_unit` finds it.
proof fn lemma_first_non_unit(variants: Seq<Variant>)
    ensures
        (forall|k: int| 0 <= k < variants.len() ==> (#[trigger] variants[k]).fields is Unit) <==> first_non_unit(variants) is None,
        forall|k: int| {
            &&& 0 <= k < variants.len()
            &&& !((#[trigger] variants[k]).fields is Unit)
            &&& forall|j: int| 0 <= j < k ==> (#[trigger] variants[j]).fields is Unit
        } ==> first_non_unit(variants) == Some(k),
{
    assert forall|k: int| {
        &&& 0 <= k < variants.len()
        &&& !((#[trigger] variants[k]).fields is Unit)
        &&& forall|j: int| 0 <= j < k ==> (#[trigger] variants[j]).fields is Unit
    } implies first_non_unit(variants) == Some(k) by {
        assert(exists|i: int| 0 <= i < variants.len() && !(#[trigger] variants[i].fields is Unit));
        let c = choose|i: int| 0 <= i < variants.len() && !(#[trigger] variants[i].fields is Unit)
            && forall|j: int| 0 <= j < i ==> #[trigger] variants[j].fields is Unit;
        if c < k {
            assert(variants[c].fields is Unit);
        } else if c > k {
            assert(variants[k].fields is Unit);
        }
    }
    if !(forall|k: int| 0 <= k < variants.len() ==> (#[trigger] variants[k]).fields is Unit) {
        let k0 = choose|k: int| 0 <= k < variants.len() && !((#[trigger] variants[k]).fields is Unit);
        assert(exists|i: int| 0 <= i < variants.len() && !(#[trigger] variants[i].fields is Unit));
    }
}

} // verus!
