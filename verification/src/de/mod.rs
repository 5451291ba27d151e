//! Deserialization places and builders.
//!
//! Deserialization works by handing out a place that borrows the output slot
//! (`&mut Option<T>`) into which data is written. A scalar is written through
//! `Place::scalar`; a JSON array is written by turning the place into a
//! sequence builder (`Place::seq`), which hands out one element slot after
//! another and writes the collected value on `finish`; a JSON object is
//! written the same way through a map builder (`Place::map`) whose slots are
//! handed out per key. Upon success the output slot holds `Some(value)`.

pub mod impls;
pub mod keys;
pub mod laws;

use vstd::prelude::*;

use crate::error::Error;

verus! {

/// A single scalar value.
pub enum Scalar<'a> {
    Null,
    Bool(bool),
    Str(&'a str),
    Negative(i64),
    Nonnegative(u64),
}

/// Types that can be written from a JSON scalar.
///
/// `accepts_scalar(s)` says whether the scalar `s` can be written into a slot
/// of this type, and `scalar_value(s, v)` says which values `v` it writes.
pub trait Deserialize: Sized {
    spec fn accepts_scalar(s: Scalar) -> bool;

    spec fn scalar_value(s: Scalar, v: Self) -> bool;

    /// What the slot holds after a scalar was refused, given what it held.
    spec fn refused_slot(before: Option<Self>) -> Option<Self>;

    /// The value a missing field of this type takes.
    spec fn default_slot_spec() -> Option<Self>;

    /// Write a scalar value into the output slot.
    fn scalar(out: &mut Option<Self>, s: &Scalar) -> (r: Result<(), Error>)
        ensures
            r is Ok <==> Self::accepts_scalar(*s),
            r is Ok ==> (*final(out) matches Some(v) && Self::scalar_value(*s, v)),
            r is Err ==> *final(out) == Self::refused_slot(*old(out)),
    ;

    /// The value a missing field of this type takes: `None` (the field is
    /// required) for every type but `Option`, whose fields default to
    /// `Some(None)`.
    fn default_slot() -> (r: Option<Self>)
        ensures
            r == Self::default_slot_spec(),
    ;
}

/// What writing the scalar `s` into a slot of type `T` that held `before`
/// can leave, with `ok` whether it succeeded: the contract of
/// `Deserialize::scalar`.
pub open spec fn scalar_outcome<T: Deserialize>(s: Scalar, ok: bool, before: Option<T>, after: Option<T>) -> bool {
    &&& ok <==> T::accepts_scalar(s)
    &&& ok ==> (after matches Some(v) && T::scalar_value(s, v))
    &&& !ok ==> after == T::refused_slot(before)
}

/// Whether a scalar writes one value only into a slot of type `T`.
pub open spec fn writes_one_value<T: Deserialize>() -> bool {
    forall|s: Scalar, a: T, b: T|
        #![trigger T::scalar_value(s, a), T::scalar_value(s, b)]
        T::scalar_value(s, a) && T::scalar_value(s, b) ==> a == b
}

/// A place that holds nothing but a mutable reference to the output slot.
pub struct Place<'a, T> {
    /// The output slot. Upon successful deserialization the output object is
    /// written here as `Some(T)`.
    pub out: &'a mut Option<T>,
}

impl<'a, T> Place<'a, T> {
    /// A place writing into `out`.
    pub fn new(out: &'a mut Option<T>) -> (p: Self)
        ensures
            *p.out == *old(out),
            *final(p.out) == *final(out),
    {
        Place { out }
    }
}

impl<'a, T: Deserialize> Place<'a, T> {
    /// Write a scalar value into the output slot.
    pub fn scalar(&mut self, s: &Scalar) -> (r: Result<(), Error>)
        ensures
            r is Ok <==> T::accepts_scalar(*s),
            r is Ok ==> (*final(self).out matches Some(v) && T::scalar_value(*s, v)),
            r is Err ==> *final(self).out == T::refused_slot(*old(self).out),
            *final(final(self).out) == *final(old(self).out),
    {
        T::scalar(self.out, s)
    }
}

/// Types that deserialize as an inner type and wrap the result:
/// transparent newtypes and `Box<T>`.
pub trait Transparent: Sized {
    type Inner;

    spec fn wrap_spec(inner: Self::Inner) -> Self;

    fn wrap(inner: Self::Inner) -> (r: Self)
        ensures
            r == Self::wrap_spec(inner),
    ;
}

/// The place of a transparent type: whatever is written is written into an
/// inner value of type `T::Inner`, and the output slot receives it wrapped.
pub struct TransparentVisitor<'a, T: Transparent> {
    pub out: &'a mut Option<T>,
}

/// A place for a transparent type writing into `out`.
pub fn transparent<T: Transparent>(out: &mut Option<T>) -> (v: TransparentVisitor<'_, T>)
    ensures
        *v.out == *old(out),
        *final(v.out) == *final(out),
{
    TransparentVisitor { out }
}

impl<'a, T: Transparent> TransparentVisitor<'a, T> where T::Inner: Deserialize {
    /// Write a scalar: it is written into a fresh inner value, which is then
    /// wrapped into the output slot. On refusal the slot is left as it was.
    pub fn scalar(&mut self, s: &Scalar) -> (r: Result<(), Error>)
        ensures
            r is Ok <==> T::Inner::accepts_scalar(*s),
            r is Ok ==> exists|inner: T::Inner|
                #![trigger T::wrap_spec(inner)]
                T::Inner::scalar_value(*s, inner) && *final(self).out == Some(T::wrap_spec(inner)),
            r is Err ==> *final(self).out == *old(self).out,
            *final(final(self).out) == *final(old(self).out),
    {
        let mut value: Option<T::Inner> = None;
        match T::Inner::scalar(&mut value, s) {
            Ok(()) => {
                match value {
                    Some(inner) => {
                        *self.out = Some(T::wrap(inner));
                        Ok(())
                    },
                    None => Err(Error),
                }
            },
            Err(e) => Err(e),
        }
    }
}

impl<'a, T: Transparent> TransparentVisitor<'a, T> {
    /// Begin writing the inner value, whatever it is written from: it is
    /// handed out by `TransparentSeq::inner` and wrapped by
    /// `TransparentSeq::finish`.
    pub fn value(self) -> (b: TransparentSeq<'a, T>)
        ensures
            *b.out == *old(self.out),
            *final(b.out) == *final(self.out),
            b.value is None,
    {
        TransparentSeq { out: self.out, value: None }
    }

    /// Begin a sequence: the sequence is written into an inner value, handed
    /// out by `TransparentSeq::inner`.
    pub fn seq(self) -> (b: TransparentSeq<'a, T>)
        ensures
            *b.out == *old(self.out),
            *final(b.out) == *final(self.out),
            b.value is None,
    {
        TransparentSeq { out: self.out, value: None }
    }

    /// Begin a map: the map is written into an inner value, handed out by
    /// `TransparentMap::inner`.
    pub fn map(self) -> (b: TransparentMap<'a, T>)
        ensures
            *b.out == *old(self.out),
            *final(b.out) == *final(self.out),
            b.value is None,
    {
        TransparentMap { out: self.out, value: None }
    }
}

/// The sequence builder of a transparent type.
pub struct TransparentSeq<'a, T: Transparent> {
    pub out: &'a mut Option<T>,
    pub value: Option<T::Inner>,
}

impl<'a, T: Transparent> TransparentSeq<'a, T> {
    /// The slot of the inner value, into which the inner type's own
    /// sequence builder writes.
    pub fn inner(&mut self) -> (slot: &mut Option<T::Inner>)
        ensures
            *slot == old(self).value,
            final(self).value == *final(slot),
            *final(self).out == *old(self).out,
            *final(final(self).out) == *final(old(self).out),
    {
        &mut self.value
    }

    /// Wrap the inner value into the output slot; fails if the inner value
    /// was never written.
    pub fn finish(&mut self) -> (r: Result<(), Error>)
        ensures
            r is Ok <==> old(self).value is Some,
            r is Ok ==> *final(self).out == Some(T::wrap_spec(old(self).value->0)),
            r is Err ==> *final(self).out == *old(self).out,
            final(self).value is None,
            *final(final(self).out) == *final(old(self).out),
    {
        match self.value.take() {
            Some(inner) => {
                *self.out = Some(T::wrap(inner));
                Ok(())
            },
            None => Err(Error),
        }
    }
}

/// The map builder of a transparent type.
pub struct TransparentMap<'a, T: Transparent> {
    pub out: &'a mut Option<T>,
    pub value: Option<T::Inner>,
}

impl<'a, T: Transparent> TransparentMap<'a, T> {
    /// The slot of the inner value, into which the inner type's own map
    /// builder writes.
    pub fn inner(&mut self) -> (slot: &mut Option<T::Inner>)
        ensures
            *slot == old(self).value,
            final(self).value == *final(slot),
            *final(self).out == *old(self).out,
            *final(final(self).out) == *final(old(self).out),
    {
        &mut self.value
    }

    /// Wrap the inner value into the output slot; fails if the inner value
    /// was never written.
    pub fn finish(&mut self) -> (r: Result<(), Error>)
        ensures
            r is Ok <==> old(self).value is Some,
            r is Ok ==> *final(self).out == Some(T::wrap_spec(old(self).value->0)),
            r is Err ==> *final(self).out == *old(self).out,
            final(self).value is None,
            *final(final(self).out) == *final(old(self).out),
    {
        match self.value.take() {
            Some(inner) => {
                *self.out = Some(T::wrap(inner));
                Ok(())
            },
            None => Err(Error),
        }
    }
}

} // verus!
