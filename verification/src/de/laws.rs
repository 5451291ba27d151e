//! Laws of the places and builders that span several calls: what a scalar
//! writes, what a builder holds after a run of writes, and that writing a
//! scalar through a builder is writing it into the slot the builder hands
//! out.

use std::collections::BTreeMap;
use std::collections::HashMap;
use std::hash::BuildHasher;
use std::hash::Hash;
use std::path::PathBuf;

use vstd::prelude::*;

use crate::de::Deserialize;
use crate::de::Scalar;
use crate::de::scalar_outcome;
use crate::de::writes_one_value;
use crate::de::impls::BTreeMapBuilder;
use crate::de::impls::HashMapBuilder;
use crate::de::impls::MapKey;
use crate::de::impls::TupleBuilder;
use crate::de::impls::VecBuilder;
use crate::de::impls::insert_all;
use crate::de::impls::last_index_of;
use crate::de::impls::lemma_last_write_wins;
use crate::de::impls::opt_seq;

verus! {

// ---------------------------------------------------------------------------
// What a scalar writes.

/// A scalar writes one value only into the built-in types, and text equal
/// to the scalar's into a `String`; `Option<T>` and `Box<T>` write one value
/// only where `T` does.
pub proof fn lemma_scalars_write_one_value<T: Deserialize>()
    ensures
        writes_one_value::<()>(),
        writes_one_value::<bool>(),
        writes_one_value::<PathBuf>(),
        writes_one_value::<i8>(),
        writes_one_value::<i16>(),
        writes_one_value::<i32>(),
        writes_one_value::<i64>(),
        writes_one_value::<isize>(),
        writes_one_value::<u8>(),
        writes_one_value::<u16>(),
        writes_one_value::<u32>(),
        writes_one_value::<u64>(),
        writes_one_value::<usize>(),
        forall|s: Scalar, a: String, b: String|
            #![trigger <String as Deserialize>::scalar_value(s, a), <String as Deserialize>::scalar_value(s, b)]
            <String as Deserialize>::scalar_value(s, a) && <String as Deserialize>::scalar_value(s, b) ==> a@ == b@,
        writes_one_value::<T>() ==> writes_one_value::<Option<T>>(),
        writes_one_value::<T>() ==> writes_one_value::<Box<T>>(),
{
    if writes_one_value::<T>() {
        assert forall|s: Scalar, a: Option<T>, b: Option<T>|
            #![trigger <Option<T> as Deserialize>::scalar_value(s, a), <Option<T> as Deserialize>::scalar_value(s, b)]
            <Option<T> as Deserialize>::scalar_value(s, a) && <Option<T> as Deserialize>::scalar_value(s, b)
            implies a == b by {
            if !(s is Null) {
                assert(T::scalar_value(s, a->0) && T::scalar_value(s, b->0));
            }
        }
        assert forall|s: Scalar, a: Box<T>, b: Box<T>|
            #![trigger <Box<T> as Deserialize>::scalar_value(s, a), <Box<T> as Deserialize>::scalar_value(s, b)]
            <Box<T> as Deserialize>::scalar_value(s, a) && <Box<T> as Deserialize>::scalar_value(s, b)
            implies a == b by {
            assert(T::scalar_value(s, *a) && T::scalar_value(s, *b));
        }
    }
}

/// Where a type writes one value only, writing a scalar into its slot has
/// one outcome: the same result and the same slot.
pub proof fn lemma_scalar_outcome_unique<T: Deserialize>(
    s: Scalar,
    before: Option<T>,
    ok1: bool,
    after1: Option<T>,
    ok2: bool,
    after2: Option<T>,
)
    requires
        writes_one_value::<T>(),
        scalar_outcome::<T>(s, ok1, before, after1),
        scalar_outcome::<T>(s, ok2, before, after2),
    ensures
        ok1 == ok2,
        after1 == after2,
{
    if ok1 {
        assert(T::scalar_value(s, after1->0) && T::scalar_value(s, after2->0));
    }
}

/// A non-null scalar written into an `Option<T>` slot writes what `T` writes
/// into an empty slot, inside `Some`, with the same result; `null` writes
/// `Some(None)`.
pub proof fn lemma_option_writes_inner<T: Deserialize>(
    s: Scalar,
    before: Option<Option<T>>,
    ok: bool,
    after: Option<Option<T>>,
    inner_ok: bool,
    inner: Option<T>,
)
    requires
        writes_one_value::<T>(),
        scalar_outcome::<Option<T>>(s, ok, before, after),
        scalar_outcome::<T>(s, inner_ok, None, inner),
    ensures
        s is Null ==> ok && after == Some(None::<T>),
        !(s is Null) ==> ok == inner_ok && after == Some(inner),
{
    if !(s is Null) && ok {
        assert(T::scalar_value(s, after->0->0) && T::scalar_value(s, inner->0));
    }
}

/// A scalar written into a `Box<T>` slot writes what `T` writes into an
/// empty slot, boxed, with the same result; a refused scalar leaves the slot
/// as it was.
pub proof fn lemma_box_writes_inner<T: Deserialize>(
    s: Scalar,
    before: Option<Box<T>>,
    ok: bool,
    after: Option<Box<T>>,
    inner_ok: bool,
    inner: Option<T>,
)
    requires
        writes_one_value::<T>(),
        scalar_outcome::<Box<T>>(s, ok, before, after),
        scalar_outcome::<T>(s, inner_ok, None, inner),
    ensures
        ok == inner_ok,
        ok ==> (after matches Some(b) && inner == Some(*b)),
        !ok ==> after == before,
{
    if ok {
        assert(T::scalar_value(s, *after->0) && T::scalar_value(s, inner->0));
    }
}

// ---------------------------------------------------------------------------
// Filling a `Vec`.

/// A `Vec` builder that starts empty and receives the values `values` in
/// turn, each into the slot handed out by `element` (or by `scalar`), holds
/// exactly those values in that order: `states[i]` is the builder after `i`
/// writes, each step as `element` and `scalar` state it. So `finish` writes
/// `values`, and an empty `Vec` where nothing was written.
pub proof fn lemma_vec_fill<'a, T>(states: Seq<VecBuilder<'a, T>>, values: Seq<T>)
    requires
        states.len() == values.len() + 1,
        states[0].vec@ == Seq::<T>::empty(),
        states[0].element is None,
        forall|i: int|
            0 <= i < values.len() ==> {
                &&& #[trigger] states[i + 1].vec@ == states[i].collected()
                &&& states[i + 1].element == Some(values[i])
            },
    ensures
        states.last().collected() == values,
    decreases values.len(),
{
    if values.len() == 0 {
        assert(states.last().collected() =~= values);
    } else {
        let n = values.len() - 1;
        let init = states.drop_last();
        assert forall|i: int| 0 <= i < values.drop_last().len() implies {
            &&& #[trigger] init[i + 1].vec@ == init[i].collected()
            &&& init[i + 1].element == Some(values.drop_last()[i])
        } by {
            assert(states[i + 1].vec@ == states[i].collected());
        }
        lemma_vec_fill(init, values.drop_last());
        assert(states[n + 1].vec@ == states[n].collected());
        assert(states.last().collected() =~= values.drop_last() + seq![values.last()]);
        assert(values =~= values.drop_last() + seq![values.last()]);
    }
}

/// Writing a scalar as the next element (`VecBuilder::scalar`) and taking
/// the next element's slot (`VecBuilder::element`) then writing the scalar
/// into it end the same way: the same collected elements and result, and,
/// where `T` writes one value only, the same element.
pub proof fn lemma_vec_scalar_is_element_write<'a, T: Deserialize>(
    b: VecBuilder<'a, T>,
    s: Scalar,
    ok1: bool,
    b1: VecBuilder<'a, T>,
    ok2: bool,
    b2: VecBuilder<'a, T>,
)
    requires
        b1.vec@ == b.collected(),
        scalar_outcome::<T>(s, ok1, None, b1.element),
        b2.vec@ == b.collected(),
        scalar_outcome::<T>(s, ok2, None, b2.element),
    ensures
        ok1 == ok2,
        b1.vec@ == b2.vec@,
        writes_one_value::<T>() ==> b1.collected() == b2.collected(),
{
    if writes_one_value::<T>() {
        lemma_scalar_outcome_unique::<T>(s, None, ok1, b1.element, ok2, b2.element);
    }
}

// ---------------------------------------------------------------------------
// Filling a pair.

/// One successful element write into a pair: the first empty slot receives
/// a value. This is what `TupleBuilder::element` states where the slot it
/// hands out ends holding a value, and `TupleBuilder::scalar` where it
/// succeeds.
pub open spec fn pair_step<A, B>(t0: (Option<A>, Option<B>), t1: (Option<A>, Option<B>)) -> bool {
    ||| (t0.0 is None && t1.0 is Some && t1.1 == t0.1)
    ||| (t0.0 is Some && t0.1 is None && t1.0 == t0.0 && t1.1 is Some)
}

/// A pair builder that starts empty takes at most two element writes, and
/// holds both elements, which `finish` needs, exactly after two.
pub proof fn lemma_pair_fill<'a, A, B>(states: Seq<TupleBuilder<'a, A, B>>)
    requires
        states.len() >= 1,
        states[0].tuple.0 is None,
        states[0].tuple.1 is None,
        forall|i: int| 1 <= i < states.len() ==> pair_step(states[i - 1].tuple, #[trigger] states[i].tuple),
    ensures
        states.len() <= 3,
        (states.last().tuple.0 is Some && states.last().tuple.1 is Some) <==> states.len() == 3,
{
    if states.len() >= 2 {
        assert(pair_step(states[1 - 1].tuple, states[1].tuple));
        assert(states[1].tuple.0 is Some && states[1].tuple.1 is None);
    }
    if states.len() >= 3 {
        assert(pair_step(states[2 - 1].tuple, states[2].tuple));
        assert(states[2].tuple.0 is Some && states[2].tuple.1 is Some);
    }
    if states.len() >= 4 {
        assert(pair_step(states[3 - 1].tuple, states[3].tuple));
    }
}

/// Writing a scalar as the next element of a pair (`TupleBuilder::scalar`)
/// and taking the next slot (`TupleBuilder::element`) then writing the
/// scalar into it end the same way.
pub proof fn lemma_pair_scalar_is_element_write<'a, A: Deserialize, B: Deserialize>(
    b: TupleBuilder<'a, A, B>,
    s: Scalar,
    ok1: bool,
    b1: TupleBuilder<'a, A, B>,
    ok2: bool,
    b2: TupleBuilder<'a, A, B>,
)
    requires
        b.tuple.0 is None ==> {
            &&& scalar_outcome::<A>(s, ok1, None, b1.tuple.0) && b1.tuple.1 == b.tuple.1
            &&& scalar_outcome::<A>(s, ok2, None, b2.tuple.0) && b2.tuple.1 == b.tuple.1
        },
        b.tuple.0 is Some && b.tuple.1 is None ==> {
            &&& scalar_outcome::<B>(s, ok1, None, b1.tuple.1) && b1.tuple.0 == b.tuple.0
            &&& scalar_outcome::<B>(s, ok2, None, b2.tuple.1) && b2.tuple.0 == b.tuple.0
        },
        b.tuple.0 is Some && b.tuple.1 is Some ==> !ok1 && !ok2 && b1.tuple == b.tuple && b2.tuple == b.tuple,
    ensures
        ok1 == ok2,
        writes_one_value::<A>() && writes_one_value::<B>() ==> b1.tuple == b2.tuple,
{
    if b.tuple.0 is None {
        if writes_one_value::<A>() {
            lemma_scalar_outcome_unique::<A>(s, None, ok1, b1.tuple.0, ok2, b2.tuple.0);
        }
    } else if b.tuple.1 is None {
        if writes_one_value::<B>() {
            lemma_scalar_outcome_unique::<B>(s, None, ok1, b1.tuple.1, ok2, b2.tuple.1);
        }
    }
}

// ---------------------------------------------------------------------------
// Filling a map.

/// Maps `maps[i]` reached from `maps[0]` by inserting `entries[i]` in turn
/// end as `insert_all` of the entries.
pub proof fn lemma_maps_insert_all<K, V>(maps: Seq<Map<K, V>>, entries: Seq<(K, V)>)
    requires
        maps.len() == entries.len() + 1,
        forall|i: int| 0 <= i < entries.len() ==> #[trigger] maps[i + 1] == maps[i].insert(entries[i].0, entries[i].1),
    ensures
        maps.last() == insert_all(maps[0], entries),
    decreases entries.len(),
{
    if entries.len() > 0 {
        let init = maps.drop_last();
        assert forall|i: int| 0 <= i < entries.drop_last().len() implies #[trigger] init[i + 1] == init[i].insert(entries.drop_last()[i].0, entries.drop_last()[i].1) by {
            assert(maps[i + 1] == maps[i].insert(entries[i].0, entries[i].1));
        }
        lemma_maps_insert_all(init, entries.drop_last());
        assert(maps[entries.len() as int] == maps[entries.len() - 1].insert(entries.last().0, entries.last().1));
    }
}

/// What a map filled with `entries` in turn holds: every key of an entry,
/// with the value of its last entry, and nothing else.
pub open spec fn filled_with<K, V>(m: Map<K, V>, entries: Seq<(K, V)>) -> bool {
    &&& forall|k: K| #[trigger] m.contains_key(k) <==> last_index_of(entries, k) >= 0
    &&& forall|k: K| #[trigger] m.contains_key(k) ==> m[k] == entries[last_index_of(entries, k)].1
}

/// `insert_all` of entries on an empty map is the map filled with them.
pub proof fn lemma_insert_all_filled<K, V>(entries: Seq<(K, V)>)
    ensures
        filled_with(insert_all(Map::<K, V>::empty(), entries), entries),
{
    let m = insert_all(Map::<K, V>::empty(), entries);
    assert forall|k: K| #[trigger] m.contains_key(k) <==> last_index_of(entries, k) >= 0 by {
        lemma_last_write_wins(Map::<K, V>::empty(), entries, k);
    }
    assert forall|k: K| #[trigger] m.contains_key(k) implies m[k] == entries[last_index_of(entries, k)].1 by {
        lemma_last_write_wins(Map::<K, V>::empty(), entries, k);
    }
}

/// A `BTreeMap` builder that starts empty and receives the entries
/// `entries` in turn, each key parsed by `key` (or `scalar`) and its value
/// written into the slot handed out, holds every parsed key with the value
/// of its last entry, and nothing else: a later duplicate key overwrites an
/// earlier one. `states[i]` is the builder after `i` entries, each step as
/// `key` and `scalar` state it (which they promise where the key type obeys
/// the specification of `Ord`, as the integer key types do).
pub proof fn lemma_btree_map_fill<'a, K: MapKey + Ord, V>(states: Seq<BTreeMapBuilder<'a, K, V>>, entries: Seq<(K, V)>)
    requires
        states.len() == entries.len() + 1,
        states[0].map@ == Map::<K, V>::empty(),
        states[0].key is None,
        states[0].value is None,
        forall|i: int|
            0 <= i < entries.len() ==> {
                &&& #[trigger] states[i + 1].map@ == states[i].collected()
                &&& states[i + 1].key == Some(entries[i].0)
                &&& states[i + 1].value == Some(entries[i].1)
            },
    ensures
        states.last().collected() == insert_all(Map::<K, V>::empty(), entries),
        filled_with(states.last().collected(), entries),
{
    let maps = Seq::new(states.len(), |i: int| states[i].collected());
    assert forall|i: int| 0 <= i < entries.len() implies #[trigger] maps[i + 1] == maps[i].insert(entries[i].0, entries[i].1) by {
        assert(states[i + 1].map@ == states[i].collected());
    }
    assert(maps[0] =~= Map::<K, V>::empty());
    lemma_maps_insert_all(maps, entries);
    lemma_insert_all_filled::<K, V>(entries);
}

/// A `HashMap` builder that starts empty and receives the entries `entries`
/// in turn holds every parsed key with the value of its last entry, and
/// nothing else. `states[i]` is the builder after `i` entries, each step as
/// `key` and `scalar` state it (which they promise where the key type and
/// hasher obey the map specification, as the integer key types with the
/// default hasher do).
pub proof fn lemma_hash_map_fill<'a, K: MapKey + Hash + Eq, V, H: BuildHasher + Default>(
    states: Seq<HashMapBuilder<'a, K, V, H>>,
    entries: Seq<(K, V)>,
)
    requires
        states.len() == entries.len() + 1,
        states[0].map@ == Map::<K, V>::empty(),
        states[0].key is None,
        states[0].value is None,
        forall|i: int|
            0 <= i < entries.len() ==> {
                &&& #[trigger] states[i + 1].map@ == states[i].collected()
                &&& states[i + 1].key == Some(entries[i].0)
                &&& states[i + 1].value == Some(entries[i].1)
            },
    ensures
        states.last().collected() == insert_all(Map::<K, V>::empty(), entries),
        filled_with(states.last().collected(), entries),
{
    let maps = Seq::new(states.len(), |i: int| states[i].collected());
    assert forall|i: int| 0 <= i < entries.len() implies #[trigger] maps[i + 1] == maps[i].insert(entries[i].0, entries[i].1) by {
        assert(states[i + 1].map@ == states[i].collected());
    }
    assert(maps[0] =~= Map::<K, V>::empty());
    lemma_maps_insert_all(maps, entries);
    lemma_insert_all_filled::<K, V>(entries);
}

/// Writing a scalar under a key of a `BTreeMap` builder
/// (`BTreeMapBuilder::scalar`) and taking the key's slot
/// (`BTreeMapBuilder::key`) then writing the scalar into it end the same
/// way: the same entries, result and key, and, where `V` writes one value
/// only, the same value.
pub proof fn lemma_btree_map_scalar_is_key_write<'a, K: MapKey + Ord, V: Deserialize>(
    b: BTreeMapBuilder<'a, K, V>,
    k: Seq<char>,
    s: Scalar,
    ok1: bool,
    b1: BTreeMapBuilder<'a, K, V>,
    ok2: bool,
    b2: BTreeMapBuilder<'a, K, V>,
)
    requires
        b1.map@ == b.collected(),
        b2.map@ == b.collected(),
        !K::parses(k) ==> !ok1 && b1.key is None && b1.value is None,
        !K::parses(k) ==> !ok2 && b2.key is None && b2.value is None,
        K::parses(k) ==> {
            &&& b1.key matches Some(x) && K::parsed_value(k, x)
            &&& scalar_outcome::<V>(s, ok1, None, b1.value)
            &&& b2.key matches Some(y) && K::parsed_value(k, y)
            &&& scalar_outcome::<V>(s, ok2, None, b2.value)
        },
    ensures
        ok1 == ok2,
        b1.map@ == b2.map@,
        b1.key is Some <==> b2.key is Some,
        writes_one_value::<V>() ==> b1.value == b2.value,
{
    if K::parses(k) && writes_one_value::<V>() {
        lemma_scalar_outcome_unique::<V>(s, None, ok1, b1.value, ok2, b2.value);
    }
}

/// Writing a scalar under a key of a `HashMap` builder
/// (`HashMapBuilder::scalar`) and taking the key's slot
/// (`HashMapBuilder::key`) then writing the scalar into it end the same way.
pub proof fn lemma_hash_map_scalar_is_key_write<'a, K: MapKey + Hash + Eq, V: Deserialize, H: BuildHasher + Default>(
    b: HashMapBuilder<'a, K, V, H>,
    k: Seq<char>,
    s: Scalar,
    ok1: bool,
    b1: HashMapBuilder<'a, K, V, H>,
    ok2: bool,
    b2: HashMapBuilder<'a, K, V, H>,
)
    requires
        b1.map@ == b.collected(),
        b2.map@ == b.collected(),
        !K::parses(k) ==> !ok1 && b1.key is None && b1.value is None,
        !K::parses(k) ==> !ok2 && b2.key is None && b2.value is None,
        K::parses(k) ==> {
            &&& b1.key matches Some(x) && K::parsed_value(k, x)
            &&& scalar_outcome::<V>(s, ok1, None, b1.value)
            &&& b2.key matches Some(y) && K::parsed_value(k, y)
            &&& scalar_outcome::<V>(s, ok2, None, b2.value)
        },
    ensures
        ok1 == ok2,
        b1.map@ == b2.map@,
        b1.key is Some <==> b2.key is Some,
        writes_one_value::<V>() ==> b1.value == b2.value,
{
    if K::parses(k) && writes_one_value::<V>() {
        lemma_scalar_outcome_unique::<V>(s, None, ok1, b1.value, ok2, b2.value);
    }
}

} // verus!
