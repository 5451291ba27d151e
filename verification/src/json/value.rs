//! Any valid JSON value, and how it is deserialized.

use vstd::prelude::*;

use crate::de::Deserialize;
use crate::de::Place;
use crate::de::Scalar;
use crate::de::impls::insert_all;
use crate::de::impls::opt_seq;
use crate::de::laws::filled_with;
use crate::de::laws::lemma_insert_all_filled;
use crate::de::laws::lemma_maps_insert_all;
use crate::de::scalar_outcome;
use crate::error::Error;
use crate::json::Number;
use crate::json::object::Object;

verus! {

/// Any valid JSON value.
#[derive(Debug, PartialEq)]
pub enum Value {
    Null,
    Bool(bool),
    Number(Number),
    String(String),
    Array(Vec<Value>),
    Object(Object),
}

impl Default for Value {
    /// The default value is null.
    fn default() -> (v: Value)
        ensures
            v is Null,
    {
        Value::Null
    }
}

impl Deserialize for Value {
    /// A value accepts every scalar.
    open spec fn accepts_scalar(s: Scalar) -> bool {
        true
    }

    open spec fn scalar_value(s: Scalar, v: Value) -> bool {
        match s {
            Scalar::Null => v is Null,
            Scalar::Bool(b) => v == Value::Bool(b),
            Scalar::Str(t) => v matches Value::String(x) && x@ == t@,
            Scalar::Negative(n) => v == Value::Number(Number::I64(n)),
            Scalar::Nonnegative(n) => v == Value::Number(Number::U64(n)),
        }
    }

    open spec fn refused_slot(before: Option<Value>) -> Option<Value> {
        before
    }

    open spec fn default_slot_spec() -> Option<Value> {
        None
    }

    fn scalar(out: &mut Option<Value>, s: &Scalar) -> (r: Result<(), Error>) {
        let v = match s {
            Scalar::Null => Value::Null,
            Scalar::Bool(b) => Value::Bool(*b),
            Scalar::Str(t) => Value::String((*t).to_owned()),
            Scalar::Negative(n) => Value::Number(Number::I64(*n)),
            Scalar::Nonnegative(n) => Value::Number(Number::U64(*n)),
        };
        *out = Some(v);
        Ok(())
    }

    fn default_slot() -> (r: Option<Value>) {
        None
    }
}

/// The sequence builder of a value: a JSON array.
pub struct ArrayBuilder<'a> {
    pub out: &'a mut Option<Value>,
    pub array: Vec<Value>,
    pub element: Option<Value>,
}

/// The map builder of a value: a JSON object.
pub struct ObjectBuilder<'a> {
    pub out: &'a mut Option<Value>,
    pub object: Object,
    pub key: Option<String>,
    pub value: Option<Value>,
}

impl<'a> Place<'a, Value> {
    /// Begin an array.
    pub fn seq(self) -> (b: ArrayBuilder<'a>)
        ensures
            *b.out == *old(self.out),
            *final(b.out) == *final(self.out),
            b.array@ == Seq::<Value>::empty(),
            b.element is None,
    {
        ArrayBuilder { out: self.out, array: Vec::new(), element: None }
    }

    /// Begin an object.
    pub fn map(self) -> (b: ObjectBuilder<'a>)
        ensures
            *b.out == *old(self.out),
            *final(b.out) == *final(self.out),
            b.object@ == Map::<Seq<char>, Value>::empty(),
            b.key is None,
            b.value is None,
    {
        ObjectBuilder { out: self.out, object: Object::new(), key: None, value: None }
    }
}

impl<'a> ArrayBuilder<'a> {
    /// The elements collected so far, the last written one included.
    pub open spec fn collected(&self) -> Seq<Value> {
        self.array@ + opt_seq(self.element)
    }

    /// Move the last written element, if any, to the collected elements.
    pub fn shift(&mut self)
        ensures
            final(self).array@ == old(self).collected(),
            final(self).element is None,
            *final(self).out == *old(self).out,
            *final(final(self).out) == *final(old(self).out),
    {
        if let Some(e) = self.element.take() {
            self.array.push(e);
        }
    }

    /// The slot of the next element.
    pub fn element(&mut self) -> (slot: &mut Option<Value>)
        ensures
            *slot is None,
            final(self).array@ == old(self).collected(),
            final(self).element == *final(slot),
            *final(self).out == *old(self).out,
            *final(final(self).out) == *final(old(self).out),
    {
        self.shift();
        &mut self.element
    }

    /// Write the collected elements as an array value.
    pub fn finish(&mut self) -> (r: Result<(), Error>)
        ensures
            r is Ok,
            *final(self).out matches Some(Value::Array(a)) && a@ == old(self).collected(),
            final(self).array@ == Seq::<Value>::empty(),
            final(self).element is None,
            *final(final(self).out) == *final(old(self).out),
    {
        self.shift();
        let mut array = Vec::new();
        std::mem::swap(&mut array, &mut self.array);
        *self.out = Some(Value::Array(array));
        Ok(())
    }

    /// Write a scalar as the next element.
    pub fn scalar(&mut self, s: &Scalar) -> (r: Result<(), Error>)
        ensures
            r is Ok,
            final(self).array@ == old(self).collected(),
            scalar_outcome::<Value>(*s, r is Ok, None, final(self).element),
            *final(self).out == *old(self).out,
            *final(final(self).out) == *final(old(self).out),
    {
        self.shift();
        Value::scalar(&mut self.element, s)
    }
}

impl<'a> ObjectBuilder<'a> {
    /// The object with the pending entry inserted.
    pub open spec fn collected(&self) -> Map<Seq<char>, Value> {
        match (self.key, self.value) {
            (Some(k), Some(v)) => self.object@.insert(k@, v),
            _ => self.object@,
        }
    }

    /// Insert the pending entry, if both its key and value were written.
    /// Key and value are cleared either way.
    pub fn shift(&mut self)
        ensures
            final(self).object@ == old(self).collected(),
            final(self).key is None,
            final(self).value is None,
            *final(self).out == *old(self).out,
            *final(final(self).out) == *final(old(self).out),
    {
        let key = self.key.take();
        let value = self.value.take();
        match (key, value) {
            (Some(k), Some(v)) => {
                self.object.insert(k, v);
            },
            _ => {},
        }
    }

    /// Begin the value of the key `k` and hand out its slot.
    pub fn key(&mut self, k: &str) -> (slot: &mut Option<Value>)
        ensures
            final(self).object@ == old(self).collected(),
            final(self).key matches Some(key) && key@ == k@,
            *slot is None,
            final(self).value == *final(slot),
            *final(self).out == *old(self).out,
            *final(final(self).out) == *final(old(self).out),
    {
        self.shift();
        self.key = Some(k.to_owned());
        &mut self.value
    }

    /// Write the collected entries as an object value.
    pub fn finish(&mut self) -> (r: Result<(), Error>)
        ensures
            r is Ok,
            *final(self).out matches Some(Value::Object(o)) && o@ == old(self).collected(),
            *final(final(self).out) == *final(old(self).out),
    {
        self.shift();
        let mut object = Object::new();
        std::mem::swap(&mut object, &mut self.object);
        *self.out = Some(Value::Object(object));
        Ok(())
    }

    /// Write a scalar as the value of the key `k`.
    pub fn scalar(&mut self, k: &str, s: &Scalar) -> (r: Result<(), Error>)
        ensures
            r is Ok,
            final(self).object@ == old(self).collected(),
            final(self).key matches Some(key) && key@ == k@,
            scalar_outcome::<Value>(*s, r is Ok, None, final(self).value),
            *final(self).out == *old(self).out,
            *final(final(self).out) == *final(old(self).out),
    {
        self.shift();
        self.key = Some(k.to_owned());
        Value::scalar(&mut self.value, s)
    }
}

// ---------------------------------------------------------------------------
// Laws.

/// A scalar writes one value only into a `Value`, except that of a string
/// only its text is fixed.
pub proof fn lemma_value_scalar_one_value()
    ensures
        forall|s: Scalar, a: Value, b: Value|
            #![trigger Value::scalar_value(s, a), Value::scalar_value(s, b)]
            Value::scalar_value(s, a) && Value::scalar_value(s, b) ==> {
                &&& !(s is Str) ==> a == b
                &&& s is Str ==> (a matches Value::String(x) && b matches Value::String(y) && x@ == y@)
            },
{
}

/// An array builder that starts empty and receives the values `values` in
/// turn, each into the slot handed out by `element` (or by `scalar`), holds
/// exactly those values in that order, which `finish` writes as the array.
/// `states[i]` is the builder after `i` writes, each step as `element` and
/// `scalar` state it.
pub proof fn lemma_array_fill<'a>(states: Seq<ArrayBuilder<'a>>, values: Seq<Value>)
    requires
        states.len() == values.len() + 1,
        states[0].array@ == Seq::<Value>::empty(),
        states[0].element is None,
        forall|i: int|
            0 <= i < values.len() ==> {
                &&& #[trigger] states[i + 1].array@ == states[i].collected()
                &&& states[i + 1].element == Some(values[i])
            },
    ensures
        states.last().collected() == values,
    decreases values.len(),
{
    if values.len() == 0 {
        assert(states.last().collected() =~= values);
    } else {
        let n = values.len() - 1;
        let init = states.drop_last();
        assert forall|i: int| 0 <= i < values.drop_last().len() implies {
            &&& #[trigger] init[i + 1].array@ == init[i].collected()
            &&& init[i + 1].element == Some(values.drop_last()[i])
        } by {
            assert(states[i + 1].array@ == states[i].collected());
        }
        lemma_array_fill(init, values.drop_last());
        assert(states[n + 1].array@ == states[n].collected());
        assert(states.last().collected() =~= values.drop_last() + seq![values.last()]);
        assert(values =~= values.drop_last() + seq![values.last()]);
    }
}

/// The entries of an object as key text and value.
pub open spec fn entry_views(entries: Seq<(String, Value)>) -> Seq<(Seq<char>, Value)> {
    entries.map_values(|e: (String, Value)| (e.0@, e.1))
}

/// An object builder that starts empty and receives the entries `entries`
/// in turn, each key given to `key` (or `scalar`) and its value written into
/// the slot handed out, holds every key with the value of its last entry,
/// and nothing else: a later duplicate key overwrites an earlier one.
/// `states[i]` is the builder after `i` entries, each step as `key` and
/// `scalar` state it.
pub proof fn lemma_object_fill<'a>(states: Seq<ObjectBuilder<'a>>, entries: Seq<(String, Value)>)
    requires
        states.len() == entries.len() + 1,
        states[0].object@ == Map::<Seq<char>, Value>::empty(),
        states[0].key is None,
        states[0].value is None,
        forall|i: int|
            0 <= i < entries.len() ==> {
                &&& #[trigger] states[i + 1].object@ == states[i].collected()
                &&& states[i + 1].key matches Some(k) && k@ == entries[i].0@
                &&& states[i + 1].value == Some(entries[i].1)
            },
    ensures
        states.last().collected() == insert_all(Map::<Seq<char>, Value>::empty(), entry_views(entries)),
        filled_with(states.last().collected(), entry_views(entries)),
{
    let ev = entry_views(entries);
    let maps = Seq::new(states.len(), |i: int| states[i].collected());
    assert forall|i: int| 0 <= i < ev.len() implies #[trigger] maps[i + 1] == maps[i].insert(ev[i].0, ev[i].1) by {
        assert(states[i + 1].object@ == states[i].collected());
    }
    assert(maps[0] =~= Map::<Seq<char>, Value>::empty());
    lemma_maps_insert_all(maps, ev);
    lemma_insert_all_filled::<Seq<char>, Value>(ev);
}

/// Writing a scalar as the next element of an array (`ArrayBuilder::scalar`)
/// and taking the next element's slot (`ArrayBuilder::element`) then
/// writing the scalar into it end the same way: the same collected elements
/// and result, both succeeding, and elements that the scalar writes alike.
pub proof fn lemma_array_scalar_is_element_write<'a>(
    b: ArrayBuilder<'a>,
    s: Scalar,
    ok1: bool,
    b1: ArrayBuilder<'a>,
    ok2: bool,
    b2: ArrayBuilder<'a>,
)
    requires
        b1.array@ == b.collected(),
        scalar_outcome::<Value>(s, ok1, None, b1.element),
        b2.array@ == b.collected(),
        scalar_outcome::<Value>(s, ok2, None, b2.element),
    ensures
        ok1 && ok2,
        b1.array@ == b2.array@,
        b1.element matches Some(v1) && Value::scalar_value(s, v1),
        b2.element matches Some(v2) && Value::scalar_value(s, v2),
{
}

/// Writing a scalar under a key of an object (`ObjectBuilder::scalar`) and
/// taking the key's slot (`ObjectBuilder::key`) then writing the scalar into
/// it end the same way: the same entries, result and key, and values that
/// the scalar writes alike.
pub proof fn lemma_object_scalar_is_key_write<'a>(
    b: ObjectBuilder<'a>,
    k: Seq<char>,
    s: Scalar,
    ok1: bool,
    b1: ObjectBuilder<'a>,
    ok2: bool,
    b2: ObjectBuilder<'a>,
)
    requires
        b1.object@ == b.collected(),
        b1.key matches Some(x) && x@ == k,
        scalar_outcome::<Value>(s, ok1, None, b1.value),
        b2.object@ == b.collected(),
        b2.key matches Some(y) && y@ == k,
        scalar_outcome::<Value>(s, ok2, None, b2.value),
    ensures
        ok1 && ok2,
        b1.object@ == b2.object@,
        b1.key->0@ == b2.key->0@,
        b1.value matches Some(v1) && Value::scalar_value(s, v1),
        b2.value matches Some(v2) && Value::scalar_value(s, v2),
{
}

} // verus!
