//! A JSON object: a map from string keys to values, kept in key order.

use vstd::prelude::*;
use vstd::utf8::encode_utf8;
use vstd::utf8::encode_utf8_decode_utf8;

use crate::json::value::Value;

verus! {

// ---------------------------------------------------------------------------
// The order of keys: lexicographic on their UTF-8 bytes, as for `String`.

/// Whether `a` sorts before `b`, comparing from byte `i` on, given that the
/// bytes before `i` are equal.
pub open spec fn bytes_lt_from(a: Seq<u8>, b: Seq<u8>, i: int) -> bool
    decreases a.len() - i,
{
    if i < 0 || i >= a.len() {
        0 <= i < b.len()
    } else if i >= b.len() {
        false
    } else if a[i] != b[i] {
        a[i] < b[i]
    } else {
        bytes_lt_from(a, b, i + 1)
    }
}

/// Lexicographic order of byte strings.
pub open spec fn bytes_lt(a: Seq<u8>, b: Seq<u8>) -> bool {
    bytes_lt_from(a, b, 0)
}

/// The bytes by which a key is ordered.
pub open spec fn key_bytes(k: Seq<char>) -> Seq<u8> {
    encode_utf8(k)
}

pub proof fn lemma_bytes_lt_irreflexive(a: Seq<u8>, i: int)
    requires
        0 <= i,
    ensures
        !bytes_lt_from(a, a, i),
    decreases a.len() - i,
{
    if i < a.len() {
        lemma_bytes_lt_irreflexive(a, i + 1);
    }
}

pub proof fn lemma_bytes_lt_transitive(a: Seq<u8>, b: Seq<u8>, c: Seq<u8>, i: int)
    requires
        0 <= i,
        bytes_lt_from(a, b, i),
        bytes_lt_from(b, c, i),
    ensures
        bytes_lt_from(a, c, i),
    decreases a.len() - i,
{
    if i < a.len() && i < b.len() && i < c.len() && a[i] == b[i] && b[i] == c[i] {
        lemma_bytes_lt_transitive(a, b, c, i + 1);
    }
}

pub proof fn lemma_bytes_lt_total(a: Seq<u8>, b: Seq<u8>, i: int)
    requires
        0 <= i <= a.len(),
        i <= b.len(),
        forall|j: int| 0 <= j < i ==> a[j] == b[j],
    ensures
        bytes_lt_from(a, b, i) || bytes_lt_from(b, a, i) || a =~= b,
    decreases a.len() - i,
{
    if i < a.len() && i < b.len() && a[i] == b[i] {
        lemma_bytes_lt_total(a, b, i + 1);
    }
}

/// With equal bytes before `i`, comparing from `i` is comparing from `0`.
pub proof fn lemma_bytes_lt_prefix(a: Seq<u8>, b: Seq<u8>, i: int)
    requires
        0 <= i <= a.len(),
        i <= b.len(),
        forall|j: int| 0 <= j < i ==> a[j] == b[j],
    ensures
        bytes_lt_from(a, b, 0) == bytes_lt_from(a, b, i),
    decreases i,
{
    if i > 0 {
        lemma_bytes_lt_prefix(a, b, i - 1);
    }
}

/// Distinct byte encodings of keys come from distinct keys, and the other
/// way round.
pub proof fn lemma_key_bytes_injective(k1: Seq<char>, k2: Seq<char>)
    ensures
        (key_bytes(k1) == key_bytes(k2)) == (k1 == k2),
{
    encode_utf8_decode_utf8(k1);
    encode_utf8_decode_utf8(k2);
}

/// The result of comparing two keys.
pub enum KeyOrder {
    Less,
    Equal,
    Greater,
}

/// Compare two byte strings lexicographically.
pub fn compare_bytes(a: &[u8], b: &[u8]) -> (r: KeyOrder)
    ensures
        r is Less <==> bytes_lt(a@, b@),
        r is Greater <==> bytes_lt(b@, a@),
        r is Equal <==> a@ == b@,
{
    let mut i: usize = 0;
    while i < a.len() && i < b.len()
        invariant
            0 <= i <= a@.len(),
            i <= b@.len(),
            forall|j: int| 0 <= j < i ==> a@[j] == b@[j],
        decreases a@.len() - i,
    {
        if a[i] != b[i] {
            proof {
                lemma_bytes_lt_prefix(a@, b@, i as int);
                lemma_bytes_lt_prefix(b@, a@, i as int);
            }
            if a[i] < b[i] {
                return KeyOrder::Less;
            } else {
                return KeyOrder::Greater;
            }
        }
        i = i + 1;
    }
    proof {
        lemma_bytes_lt_prefix(a@, b@, i as int);
        lemma_bytes_lt_prefix(b@, a@, i as int);
        lemma_bytes_lt_irreflexive(a@, 0);
    }
    if a.len() == b.len() {
        assert(a@ =~= b@);
        KeyOrder::Equal
    } else if a.len() < b.len() {
        KeyOrder::Less
    } else {
        KeyOrder::Greater
    }
}

/// Whether two strings are equal.
pub fn str_eq(a: &str, b: &str) -> (r: bool)
    ensures
        r == (a@ == b@),
{
    proof {
        lemma_key_bytes_injective(a@, b@);
    }
    match compare_bytes(a.as_bytes(), b.as_bytes()) {
        KeyOrder::Equal => true,
        _ => false,
    }
}

// ---------------------------------------------------------------------------
// The object.

/// Whether the keys of `e` are strictly increasing.
pub open spec fn sorted_keys(e: Seq<(String, Value)>) -> bool {
    forall|i: int, j: int|
        0 <= i < j < e.len() ==> #[trigger] bytes_lt(key_bytes(e[i].0@), key_bytes(e[j].0@))
}

/// Whether `k` is the key of an entry of `e`.
pub open spec fn has_key(e: Seq<(String, Value)>, k: Seq<char>) -> bool {
    exists|i: int| 0 <= i < e.len() && #[trigger] e[i].0@ == k
}

/// The index of the entry with key `k`.
pub open spec fn index_of_key(e: Seq<(String, Value)>, k: Seq<char>) -> int {
    choose|i: int| 0 <= i < e.len() && #[trigger] e[i].0@ == k
}

/// The map that the entries `e` stand for.
pub open spec fn entries_map(e: Seq<(String, Value)>) -> Map<Seq<char>, Value> {
    Map::new(|k: Seq<char>| has_key(e, k), |k: Seq<char>| e[index_of_key(e, k)].1)
}

/// In sorted entries, keys occur once.
pub proof fn lemma_sorted_distinct(e: Seq<(String, Value)>, i: int, j: int)
    requires
        sorted_keys(e),
        0 <= i < e.len(),
        0 <= j < e.len(),
        e[i].0@ == e[j].0@,
    ensures
        i == j,
{
    if i < j {
        assert(bytes_lt(key_bytes(e[i].0@), key_bytes(e[j].0@)));
        lemma_bytes_lt_irreflexive(key_bytes(e[i].0@), 0);
    } else if j < i {
        assert(bytes_lt(key_bytes(e[j].0@), key_bytes(e[i].0@)));
        lemma_bytes_lt_irreflexive(key_bytes(e[j].0@), 0);
    }
}

/// In sorted entries, the entry at `i` is the one that the map finds for its
/// key.
pub proof fn lemma_sorted_lookup(e: Seq<(String, Value)>, i: int)
    requires
        sorted_keys(e),
        0 <= i < e.len(),
    ensures
        has_key(e, e[i].0@),
        index_of_key(e, e[i].0@) == i,
        entries_map(e).contains_key(e[i].0@),
        entries_map(e)[e[i].0@] == e[i].1,
{
    assert(has_key(e, e[i].0@));
    let j = index_of_key(e, e[i].0@);
    lemma_sorted_distinct(e, i, j);
}

/// A JSON object: string keys mapped to values, kept in the order of their
/// UTF-8 bytes.
#[derive(Debug, PartialEq)]
pub struct Object {
    entries: Vec<(String, Value)>,
}

impl View for Object {
    type V = Map<Seq<char>, Value>;

    closed spec fn view(&self) -> Map<Seq<char>, Value> {
        entries_map(self.entries@)
    }
}

impl Object {
    #[verifier::type_invariant]
    closed spec fn wf(self) -> bool {
        sorted_keys(self.entries@)
    }

    /// The entries in key order.
    pub closed spec fn entries_spec(&self) -> Seq<(String, Value)> {
        self.entries@
    }

    /// An empty object.
    pub fn new() -> (o: Object)
        ensures
            o@ == Map::<Seq<char>, Value>::empty(),
            o.entries_spec() == Seq::<(String, Value)>::empty(),
    {
        let o = Object { entries: Vec::new() };
        assert(o@ =~= Map::<Seq<char>, Value>::empty());
        o
    }

    /// The number of entries.
    pub fn len(&self) -> (n: usize)
        ensures
            n == self.entries_spec().len(),
            n == self@.len(),
    {
        proof {
            use_type_invariant(self);
            self.lemma_len();
        }
        self.entries.len()
    }

    proof fn lemma_len(&self)
        requires
            sorted_keys(self.entries@),
        ensures
            self@.len() == self.entries@.len(),
    {
        let e = self.entries@;
        let keys = Seq::new(e.len(), |i: int| e[i].0@);
        assert forall|i: int, j: int| 0 <= i < keys.len() && 0 <= j < keys.len() && i != j
            implies keys[i] != keys[j] by {
            if keys[i] == keys[j] {
                lemma_sorted_distinct(e, i, j);
            }
        }
        keys.unique_seq_to_set();
        assert(self@.dom() =~= keys.to_set()) by {
            assert forall|k: Seq<char>| self@.dom().contains(k) implies keys.to_set().contains(k) by {
                let i = index_of_key(e, k);
                assert(keys[i] == k);
            }
            assert forall|k: Seq<char>| keys.to_set().contains(k) implies self@.dom().contains(k) by {
                let i = choose|i: int| 0 <= i < keys.len() && keys[i] == k;
                assert(e[i].0@ == k);
            }
        }
    }

    /// Whether the object has no entries.
    pub fn is_empty(&self) -> (b: bool)
        ensures
            b == (self@.len() == 0),
    {
        self.len() == 0
    }

    /// The entries in key order: keys strictly increasing by their UTF-8
    /// bytes, so each key occurs once, and they stand for the object's map.
    pub fn entries(&self) -> (e: &Vec<(String, Value)>)
        ensures
            e@ == self.entries_spec(),
            sorted_keys(e@),
            self@ == entries_map(e@),
    {
        proof {
            use_type_invariant(self);
        }
        &self.entries
    }

    /// The value of the key `k`.
    pub fn get(&self, k: &str) -> (r: Option<&Value>)
        ensures
            r is Some <==> self@.contains_key(k@),
            r matches Some(v) ==> *v == self@[k@],
    {
        proof {
            use_type_invariant(self);
        }
        let kb = k.as_bytes();
        let mut i: usize = 0;
        while i < self.entries.len()
            invariant
                i <= self.entries@.len(),
                sorted_keys(self.entries@),
                kb@ == key_bytes(k@),
                forall|j: int| 0 <= j < i ==> #[trigger] self.entries@[j].0@ != k@,
            decreases self.entries@.len() - i,
        {
            match compare_bytes(self.entries[i].0.as_str().as_bytes(), kb) {
                KeyOrder::Equal => {
                    proof {
                        lemma_key_bytes_injective(self.entries@[i as int].0@, k@);
                        lemma_sorted_lookup(self.entries@, i as int);
                    }
                    return Some(&self.entries[i].1);
                },
                _ => {
                    proof {
                        lemma_key_bytes_injective(self.entries@[i as int].0@, k@);
                    }
                },
            }
            i = i + 1;
        }
        None
    }

    /// Insert `v` under the key `k`, replacing the value the key had.
    pub fn insert(&mut self, k: String, v: Value)
        ensures
            final(self)@ == old(self)@.insert(k@, v),
    {
        proof {
            use_type_invariant(&*self);
        }
        let mut entries = Vec::new();
        std::mem::swap(&mut entries, &mut self.entries);
        let ghost e = entries@;
        let mut p: usize = 0;
        let mut found = false;
        while p < entries.len()
            invariant
                e == entries@,
                p <= e.len(),
                sorted_keys(e),
                forall|j: int| 0 <= j < p ==> #[trigger] bytes_lt(key_bytes(e[j].0@), key_bytes(k@)),
                found ==> p < e.len() && e[p as int].0@ == k@,
            ensures
                p <= e.len(),
                forall|j: int| 0 <= j < p ==> #[trigger] bytes_lt(key_bytes(e[j].0@), key_bytes(k@)),
                found ==> p < e.len() && e[p as int].0@ == k@,
                !found && p < e.len() ==> bytes_lt(key_bytes(k@), key_bytes(e[p as int].0@)),
            decreases e.len() - p,
        {
            match compare_bytes(entries[p].0.as_str().as_bytes(), k.as_str().as_bytes()) {
                KeyOrder::Less => {
                    p = p + 1;
                },
                KeyOrder::Equal => {
                    proof {
                        lemma_key_bytes_injective(e[p as int].0@, k@);
                    }
                    found = true;
                    break;
                },
                KeyOrder::Greater => {
                    break;
                },
            }
        }
        let ghost new_entry = (k, v);
        if found {
            proof {
                let e2 = e.update(p as int, new_entry);
                assert forall|i: int, j: int| 0 <= i < j < e2.len()
                    implies #[trigger] bytes_lt(key_bytes(e2[i].0@), key_bytes(e2[j].0@)) by {
                    assert(bytes_lt(key_bytes(e[i].0@), key_bytes(e[j].0@)));
                }
                Self::lemma_replace(e, p as int, new_entry);
            }
            entries.set(p, (k, v));
        } else {
            proof {
                Self::lemma_insert_at(e, p as int, new_entry);
            }
            entries.insert(p, (k, v));
        }
        self.entries = entries;
    }

    proof fn lemma_replace(e: Seq<(String, Value)>, p: int, x: (String, Value))
        requires
            sorted_keys(e),
            sorted_keys(e.update(p, x)),
            0 <= p < e.len(),
            e[p].0@ == x.0@,
        ensures
            entries_map(e.update(p, x)) == entries_map(e).insert(x.0@, x.1),
    {
        let e2 = e.update(p, x);
        let m = entries_map(e).insert(x.0@, x.1);
        assert forall|q: Seq<char>| #[trigger] entries_map(e2).contains_key(q) == m.contains_key(q) by {
            if has_key(e2, q) {
                let i = index_of_key(e2, q);
                if i != p {
                    assert(e[i].0@ == q);
                }
            }
            if has_key(e, q) {
                let i = index_of_key(e, q);
                assert(e2[i].0@ == q);
            }
            if q == x.0@ {
                assert(e2[p].0@ == q);
            }
        }
        assert forall|q: Seq<char>| #[trigger] entries_map(e2).contains_key(q)
            implies entries_map(e2)[q] == m[q] by {
            assert(has_key(e2, q));
            let i = index_of_key(e2, q);
            assert(e2[i].0@ == q);
            lemma_sorted_lookup(e2, i);
            if i != p {
                assert(e2[i] == e[i]);
                lemma_sorted_lookup(e, i);
                if q == x.0@ {
                    lemma_sorted_distinct(e2, i, p);
                }
            }
        }
        assert(entries_map(e2) =~= m);
    }

    proof fn lemma_insert_at(e: Seq<(String, Value)>, p: int, x: (String, Value))
        requires
            sorted_keys(e),
            0 <= p <= e.len(),
            forall|j: int| 0 <= j < p ==> #[trigger] bytes_lt(key_bytes(e[j].0@), key_bytes(x.0@)),
            p < e.len() ==> bytes_lt(key_bytes(x.0@), key_bytes(e[p].0@)),
        ensures
            sorted_keys(e.insert(p, x)),
            entries_map(e.insert(p, x)) == entries_map(e).insert(x.0@, x.1),
    {
        let e2 = e.insert(p, x);
        assert forall|i: int, j: int| 0 <= i < j < e2.len()
            implies #[trigger] bytes_lt(key_bytes(e2[i].0@), key_bytes(e2[j].0@)) by {
            if j == p {
                assert(e2[i] == e[i]);
            } else if i == p {
                assert(e2[j] == e[j - 1]);
                if j - 1 > p {
                    assert(bytes_lt(key_bytes(e[p].0@), key_bytes(e[j - 1].0@)));
                    lemma_bytes_lt_transitive(key_bytes(x.0@), key_bytes(e[p].0@), key_bytes(e[j - 1].0@), 0);
                }
            } else if i < p && j < p {
                assert(bytes_lt(key_bytes(e[i].0@), key_bytes(e[j].0@)));
            } else if i < p {
                assert(bytes_lt(key_bytes(e[i].0@), key_bytes(e[j - 1].0@)));
            } else {
                assert(bytes_lt(key_bytes(e[i - 1].0@), key_bytes(e[j - 1].0@)));
            }
        }
        let m = entries_map(e).insert(x.0@, x.1);
        assert forall|q: Seq<char>| #[trigger] entries_map(e2).contains_key(q) == m.contains_key(q) by {
            if has_key(e2, q) {
                let i = index_of_key(e2, q);
                if i < p {
                    assert(e[i].0@ == q);
                } else if i > p {
                    assert(e[i - 1].0@ == q);
                }
            }
            if has_key(e, q) {
                let i = index_of_key(e, q);
                if i < p {
                    assert(e2[i].0@ == q);
                } else {
                    assert(e2[i + 1].0@ == q);
                }
            }
            if q == x.0@ {
                assert(e2[p].0@ == q);
            }
        }
        assert forall|q: Seq<char>| #[trigger] entries_map(e2).contains_key(q)
            implies entries_map(e2)[q] == m[q] by {
            assert(has_key(e2, q));
            let i = index_of_key(e2, q);
            assert(e2[i].0@ == q);
            lemma_sorted_lookup(e2, i);
            assert(e2[p] == x);
            if i < p {
                assert(e2[i] == e[i]);
                lemma_sorted_lookup(e, i);
                if q == x.0@ {
                    lemma_sorted_distinct(e2, i, p);
                }
            } else if i > p {
                assert(e2[i] == e[i - 1]);
                lemma_sorted_lookup(e, i - 1);
                if q == x.0@ {
                    lemma_sorted_distinct(e2, i, p);
                }
            }
        }
        assert(entries_map(e2) =~= m);
    }
}

} // verus!
