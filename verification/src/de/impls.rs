//! The `Deserialize` impls and builders for the types built into the library.

use std::collections::BTreeMap;
use std::collections::HashMap;
use std::hash::BuildHasher;
use std::hash::Hash;
use std::path::PathBuf;

use vstd::prelude::*;
use vstd::laws_cmp::obeys_cmp;
use vstd::std_specs::hash::builds_valid_hashers;
use vstd::std_specs::hash::obeys_key_model;

use crate::de::Deserialize;
use crate::de::Place;
use crate::de::Scalar;
use crate::de::scalar_outcome;
use crate::de::Transparent;
use crate::error::Error;

verus! {

// ---------------------------------------------------------------------------
// Integers read from a scalar.

/// Whether a signed integer type with range `min..=max` accepts `s`:
/// a `Negative` scalar must not be below `min`, a `Nonnegative` one must not
/// be above `max`.
pub open spec fn signed_accepts(s: Scalar, min: int, max: int) -> bool {
    match s {
        Scalar::Negative(n) => n >= min,
        Scalar::Nonnegative(n) => n <= max,
        _ => false,
    }
}

/// Whether an unsigned integer type with maximum `max` accepts `s`: only a
/// `Nonnegative` scalar not above `max`.
pub open spec fn unsigned_accepts(s: Scalar, max: int) -> bool {
    match s {
        Scalar::Nonnegative(n) => n <= max,
        _ => false,
    }
}

/// The integer carried by a numeric scalar.
pub open spec fn scalar_int(s: Scalar) -> int {
    match s {
        Scalar::Negative(n) => n as int,
        Scalar::Nonnegative(n) => n as int,
        _ => 0,
    }
}

impl Deserialize for () {
    open spec fn accepts_scalar(s: Scalar) -> bool {
        s is Null
    }

    open spec fn scalar_value(s: Scalar, v: ()) -> bool {
        s is Null
    }

    open spec fn refused_slot(before: Option<()>) -> Option<()> {
        before
    }

    open spec fn default_slot_spec() -> Option<()> {
        None
    }

    fn scalar(out: &mut Option<()>, s: &Scalar) -> (r: Result<(), Error>) {
        match s {
            Scalar::Null => {
                *out = Some(());
                Ok(())
            },
            _ => Err(Error),
        }
    }

    fn default_slot() -> (r: Option<()>) {
        None
    }
}

impl Deserialize for bool {
    open spec fn accepts_scalar(s: Scalar) -> bool {
        s is Bool
    }

    open spec fn scalar_value(s: Scalar, v: bool) -> bool {
        s matches Scalar::Bool(b) && v == b
    }

    open spec fn refused_slot(before: Option<bool>) -> Option<bool> {
        before
    }

    open spec fn default_slot_spec() -> Option<bool> {
        None
    }

    fn scalar(out: &mut Option<bool>, s: &Scalar) -> (r: Result<(), Error>) {
        match s {
            Scalar::Bool(b) => {
                *out = Some(*b);
                Ok(())
            },
            _ => Err(Error),
        }
    }

    fn default_slot() -> (r: Option<bool>) {
        None
    }
}

impl Deserialize for String {
    open spec fn accepts_scalar(s: Scalar) -> bool {
        s is Str
    }

    open spec fn scalar_value(s: Scalar, v: String) -> bool {
        s matches Scalar::Str(t) && v@ == t@
    }

    open spec fn refused_slot(before: Option<String>) -> Option<String> {
        before
    }

    open spec fn default_slot_spec() -> Option<String> {
        None
    }

    fn scalar(out: &mut Option<String>, s: &Scalar) -> (r: Result<(), Error>) {
        match s {
            Scalar::Str(t) => {
                *out = Some((*t).to_owned());
                Ok(())
            },
            _ => Err(Error),
        }
    }

    fn default_slot() -> (r: Option<String>) {
        None
    }
}

/// The path `PathBuf::from` makes of a string.
pub uninterp spec fn path_buf_from(s: Seq<char>) -> PathBuf;

#[verifier::external_type_specification]
#[verifier::external_body]
pub struct ExPathBuf(std::path::PathBuf);

/// `PathBuf::from(&str)`: the path whose text is the string. Its result is
/// stated only as the name `path_buf_from` of the string.
#[verifier::external_body]
fn path_from_str(s: &str) -> (p: PathBuf)
    ensures
        p == path_buf_from(s@),
{
    PathBuf::from(s)
}

impl Deserialize for PathBuf {
    open spec fn accepts_scalar(s: Scalar) -> bool {
        s is Str
    }

    open spec fn scalar_value(s: Scalar, v: PathBuf) -> bool {
        s matches Scalar::Str(t) && v == path_buf_from(t@)
    }

    open spec fn refused_slot(before: Option<PathBuf>) -> Option<PathBuf> {
        before
    }

    open spec fn default_slot_spec() -> Option<PathBuf> {
        None
    }

    fn scalar(out: &mut Option<PathBuf>, s: &Scalar) -> (r: Result<(), Error>) {
        match s {
            Scalar::Str(t) => {
                *out = Some(path_from_str(*t));
                Ok(())
            },
            _ => Err(Error),
        }
    }

    fn default_slot() -> (r: Option<PathBuf>) {
        None
    }
}

impl Deserialize for i8 {
    open spec fn accepts_scalar(s: Scalar) -> bool {
        signed_accepts(s, i8::MIN as int, i8::MAX as int)
    }

    open spec fn scalar_value(s: Scalar, v: i8) -> bool {
        match s {
            Scalar::Negative(n) => v == n as i8,
            Scalar::Nonnegative(n) => v == n as i8,
            _ => false,
        }
    }

    open spec fn refused_slot(before: Option<i8>) -> Option<i8> {
        before
    }

    open spec fn default_slot_spec() -> Option<i8> {
        None
    }

    fn scalar(out: &mut Option<i8>, s: &Scalar) -> (r: Result<(), Error>) {
        match s {
            Scalar::Negative(n) => {
                if *n >= -128i64 {
                    *out = Some(*n as i8);
                    Ok(())
                } else {
                    Err(Error)
                }
            },
            Scalar::Nonnegative(n) => {
                if *n <= 127u64 {
                    *out = Some(*n as i8);
                    Ok(())
                } else {
                    Err(Error)
                }
            },
            _ => Err(Error),
        }
    }

    fn default_slot() -> (r: Option<i8>) {
        None
    }
}

impl Deserialize for i16 {
    open spec fn accepts_scalar(s: Scalar) -> bool {
        signed_accepts(s, i16::MIN as int, i16::MAX as int)
    }

    open spec fn scalar_value(s: Scalar, v: i16) -> bool {
        match s {
            Scalar::Negative(n) => v == n as i16,
            Scalar::Nonnegative(n) => v == n as i16,
            _ => false,
        }
    }

    open spec fn refused_slot(before: Option<i16>) -> Option<i16> {
        before
    }

    open spec fn default_slot_spec() -> Option<i16> {
        None
    }

    fn scalar(out: &mut Option<i16>, s: &Scalar) -> (r: Result<(), Error>) {
        match s {
            Scalar::Negative(n) => {
                if *n >= -32768i64 {
                    *out = Some(*n as i16);
                    Ok(())
                } else {
                    Err(Error)
                }
            },
            Scalar::Nonnegative(n) => {
                if *n <= 32767u64 {
                    *out = Some(*n as i16);
                    Ok(())
                } else {
                    Err(Error)
                }
            },
            _ => Err(Error),
        }
    }

    fn default_slot() -> (r: Option<i16>) {
        None
    }
}

impl Deserialize for i32 {
    open spec fn accepts_scalar(s: Scalar) -> bool {
        signed_accepts(s, i32::MIN as int, i32::MAX as int)
    }

    open spec fn scalar_value(s: Scalar, v: i32) -> bool {
        match s {
            Scalar::Negative(n) => v == n as i32,
            Scalar::Nonnegative(n) => v == n as i32,
            _ => false,
        }
    }

    open spec fn refused_slot(before: Option<i32>) -> Option<i32> {
        before
    }

    open spec fn default_slot_spec() -> Option<i32> {
        None
    }

    fn scalar(out: &mut Option<i32>, s: &Scalar) -> (r: Result<(), Error>) {
        match s {
            Scalar::Negative(n) => {
                if *n >= -2147483648i64 {
                    *out = Some(*n as i32);
                    Ok(())
                } else {
                    Err(Error)
                }
            },
            Scalar::Nonnegative(n) => {
                if *n <= 2147483647u64 {
                    *out = Some(*n as i32);
                    Ok(())
                } else {
                    Err(Error)
                }
            },
            _ => Err(Error),
        }
    }

    fn default_slot() -> (r: Option<i32>) {
        None
    }
}

impl Deserialize for i64 {
    open spec fn accepts_scalar(s: Scalar) -> bool {
        signed_accepts(s, i64::MIN as int, i64::MAX as int)
    }

    open spec fn scalar_value(s: Scalar, v: i64) -> bool {
        match s {
            Scalar::Negative(n) => v == n,
            Scalar::Nonnegative(n) => v == n as i64,
            _ => false,
        }
    }

    open spec fn refused_slot(before: Option<i64>) -> Option<i64> {
        before
    }

    open spec fn default_slot_spec() -> Option<i64> {
        None
    }

    fn scalar(out: &mut Option<i64>, s: &Scalar) -> (r: Result<(), Error>) {
        match s {
            Scalar::Negative(n) => {
                *out = Some(*n);
                Ok(())
            },
            Scalar::Nonnegative(n) => {
                if *n <= 9223372036854775807u64 {
                    *out = Some(*n as i64);
                    Ok(())
                } else {
                    Err(Error)
                }
            },
            _ => Err(Error),
        }
    }

    fn default_slot() -> (r: Option<i64>) {
        None
    }
}

impl Deserialize for isize {
    open spec fn accepts_scalar(s: Scalar) -> bool {
        signed_accepts(s, isize::MIN as int, isize::MAX as int)
    }

    open spec fn scalar_value(s: Scalar, v: isize) -> bool {
        match s {
            Scalar::Negative(n) => v == n as isize,
            Scalar::Nonnegative(n) => v == n as isize,
            _ => false,
        }
    }

    open spec fn refused_slot(before: Option<isize>) -> Option<isize> {
        before
    }

    open spec fn default_slot_spec() -> Option<isize> {
        None
    }

    fn scalar(out: &mut Option<isize>, s: &Scalar) -> (r: Result<(), Error>) {
        match s {
            Scalar::Negative(n) => {
                if *n >= isize::MIN as i64 {
                    *out = Some(*n as isize);
                    Ok(())
                } else {
                    Err(Error)
                }
            },
            Scalar::Nonnegative(n) => {
                if *n <= isize::MAX as u64 {
                    *out = Some(*n as isize);
                    Ok(())
                } else {
                    Err(Error)
                }
            },
            _ => Err(Error),
        }
    }

    fn default_slot() -> (r: Option<isize>) {
        None
    }
}

impl Deserialize for u8 {
    open spec fn accepts_scalar(s: Scalar) -> bool {
        unsigned_accepts(s, u8::MAX as int)
    }

    open spec fn scalar_value(s: Scalar, v: u8) -> bool {
        s matches Scalar::Nonnegative(n) && v == n as u8
    }

    open spec fn refused_slot(before: Option<u8>) -> Option<u8> {
        before
    }

    open spec fn default_slot_spec() -> Option<u8> {
        None
    }

    fn scalar(out: &mut Option<u8>, s: &Scalar) -> (r: Result<(), Error>) {
        match s {
            Scalar::Nonnegative(n) => {
                if *n <= 255u64 {
                    *out = Some(*n as u8);
                    Ok(())
                } else {
                    Err(Error)
                }
            },
            _ => Err(Error),
        }
    }

    fn default_slot() -> (r: Option<u8>) {
        None
    }
}

impl Deserialize for u16 {
    open spec fn accepts_scalar(s: Scalar) -> bool {
        unsigned_accepts(s, u16::MAX as int)
    }

    open spec fn scalar_value(s: Scalar, v: u16) -> bool {
        s matches Scalar::Nonnegative(n) && v == n as u16
    }

    open spec fn refused_slot(before: Option<u16>) -> Option<u16> {
        before
    }

    open spec fn default_slot_spec() -> Option<u16> {
        None
    }

    fn scalar(out: &mut Option<u16>, s: &Scalar) -> (r: Result<(), Error>) {
        match s {
            Scalar::Nonnegative(n) => {
                if *n <= 65535u64 {
                    *out = Some(*n as u16);
                    Ok(())
                } else {
                    Err(Error)
                }
            },
            _ => Err(Error),
        }
    }

    fn default_slot() -> (r: Option<u16>) {
        None
    }
}

impl Deserialize for u32 {
    open spec fn accepts_scalar(s: Scalar) -> bool {
        unsigned_accepts(s, u32::MAX as int)
    }

    open spec fn scalar_value(s: Scalar, v: u32) -> bool {
        s matches Scalar::Nonnegative(n) && v == n as u32
    }

    open spec fn refused_slot(before: Option<u32>) -> Option<u32> {
        before
    }

    open spec fn default_slot_spec() -> Option<u32> {
        None
    }

    fn scalar(out: &mut Option<u32>, s: &Scalar) -> (r: Result<(), Error>) {
        match s {
            Scalar::Nonnegative(n) => {
                if *n <= 4294967295u64 {
                    *out = Some(*n as u32);
                    Ok(())
                } else {
                    Err(Error)
                }
            },
            _ => Err(Error),
        }
    }

    fn default_slot() -> (r: Option<u32>) {
        None
    }
}

impl Deserialize for u64 {
    open spec fn accepts_scalar(s: Scalar) -> bool {
        unsigned_accepts(s, u64::MAX as int)
    }

    open spec fn scalar_value(s: Scalar, v: u64) -> bool {
        s matches Scalar::Nonnegative(n) && v == n
    }

    open spec fn refused_slot(before: Option<u64>) -> Option<u64> {
        before
    }

    open spec fn default_slot_spec() -> Option<u64> {
        None
    }

    fn scalar(out: &mut Option<u64>, s: &Scalar) -> (r: Result<(), Error>) {
        match s {
            Scalar::Nonnegative(n) => {
                *out = Some(*n);
                Ok(())
            },
            _ => Err(Error),
        }
    }

    fn default_slot() -> (r: Option<u64>) {
        None
    }
}

impl Deserialize for usize {
    open spec fn accepts_scalar(s: Scalar) -> bool {
        unsigned_accepts(s, usize::MAX as int)
    }

    open spec fn scalar_value(s: Scalar, v: usize) -> bool {
        s matches Scalar::Nonnegative(n) && v == n as usize
    }

    open spec fn refused_slot(before: Option<usize>) -> Option<usize> {
        before
    }

    open spec fn default_slot_spec() -> Option<usize> {
        None
    }

    fn scalar(out: &mut Option<usize>, s: &Scalar) -> (r: Result<(), Error>) {
        match s {
            Scalar::Nonnegative(n) => {
                if *n <= usize::MAX as u64 {
                    *out = Some(*n as usize);
                    Ok(())
                } else {
                    Err(Error)
                }
            },
            _ => Err(Error),
        }
    }

    fn default_slot() -> (r: Option<usize>) {
        None
    }
}

// ---------------------------------------------------------------------------
// Box and Option.

impl<T> Transparent for Box<T> {
    type Inner = T;

    open spec fn wrap_spec(inner: T) -> Box<T> {
        Box::new(inner)
    }

    fn wrap(inner: T) -> (r: Box<T>) {
        Box::new(inner)
    }
}

impl<T: Deserialize> Deserialize for Box<T> {
    open spec fn accepts_scalar(s: Scalar) -> bool {
        T::accepts_scalar(s)
    }

    open spec fn scalar_value(s: Scalar, v: Box<T>) -> bool {
        T::scalar_value(s, *v)
    }

    open spec fn refused_slot(before: Option<Box<T>>) -> Option<Box<T>> {
        before
    }

    open spec fn default_slot_spec() -> Option<Box<T>> {
        None
    }

    fn scalar(out: &mut Option<Box<T>>, s: &Scalar) -> (r: Result<(), Error>) {
        let mut value: Option<T> = None;
        match T::scalar(&mut value, s) {
            Ok(()) => match value {
                Some(inner) => {
                    *out = Some(Box::new(inner));
                    Ok(())
                },
                None => Err(Error),
            },
            Err(e) => Err(e),
        }
    }

    fn default_slot() -> (r: Option<Box<T>>) {
        None
    }
}

impl<T: Deserialize> Deserialize for Option<T> {
    open spec fn accepts_scalar(s: Scalar) -> bool {
        s is Null || T::accepts_scalar(s)
    }

    open spec fn scalar_value(s: Scalar, v: Option<T>) -> bool {
        if s is Null {
            v is None
        } else {
            v matches Some(x) && T::scalar_value(s, x)
        }
    }

    /// A refused non-null scalar leaves the slot holding `Some` of what the
    /// inner type leaves in a fresh slot.
    open spec fn refused_slot(before: Option<Option<T>>) -> Option<Option<T>> {
        Some(T::refused_slot(None))
    }

    open spec fn default_slot_spec() -> Option<Option<T>> {
        Some(None)
    }

    fn scalar(out: &mut Option<Option<T>>, s: &Scalar) -> (r: Result<(), Error>) {
        match s {
            Scalar::Null => {
                *out = Some(None);
                Ok(())
            },
            _ => {
                *out = Some(None);
                let inner = out.as_mut().unwrap();
                T::scalar(inner, s)
            },
        }
    }

    fn default_slot() -> (r: Option<Option<T>>) {
        Some(None)
    }
}

impl<'a, T> Place<'a, Option<T>> {
    /// The place inside `Some`: the slot is set to `Some(None)` and the
    /// returned place writes the inner value. A sequence or map written into
    /// an `Option<T>` is written through this place.
    pub fn inner(self) -> (p: Place<'a, T>)
        ensures
            *p.out is None,
            *final(self.out) == Some(*final(p.out)),
    {
        *self.out = Some(None);
        let inner = self.out.as_mut().unwrap();
        Place { out: inner }
    }

    /// Begin writing the scalar `s`: `null` writes `Some(None)` and leaves
    /// nothing more to write; any other scalar is to be written into the
    /// place inside `Some`, which is returned.
    pub fn null_or_inner(self, s: &Scalar) -> (r: Option<Place<'a, T>>)
        ensures
            s is Null ==> r is None && *final(self.out) == Some(None::<T>),
            !(s is Null) ==> (r matches Some(p) && *p.out is None && *final(self.out) == Some(*final(p.out))),
    {
        match s {
            Scalar::Null => {
                *self.out = Some(None);
                None
            },
            _ => Some(self.inner()),
        }
    }
}

// ---------------------------------------------------------------------------
// Pairs.

/// The slot handed out for the next element of a pair.
pub enum TupleSlot<'b, A, B> {
    First(&'b mut Option<A>),
    Second(&'b mut Option<B>),
}

/// The sequence builder of a pair `(A, B)`.
pub struct TupleBuilder<'a, A, B> {
    pub out: &'a mut Option<(A, B)>,
    pub tuple: (Option<A>, Option<B>),
}

impl<'a, A, B> Place<'a, (A, B)> {
    /// Begin a sequence of two elements.
    pub fn seq(self) -> (b: TupleBuilder<'a, A, B>)
        ensures
            *b.out == *old(self.out),
            *final(b.out) == *final(self.out),
            b.tuple.0 is None,
            b.tuple.1 is None,
    {
        TupleBuilder { out: self.out, tuple: (None, None) }
    }
}

impl<'a, A, B> TupleBuilder<'a, A, B> {
    /// The slot of the next element: the first slot not yet written. A third
    /// element is refused.
    pub fn element(&mut self) -> (r: Result<TupleSlot<'_, A, B>, Error>)
        ensures
            *final(self).out == *old(self).out,
            *final(final(self).out) == *final(old(self).out),
            match r {
                Ok(TupleSlot::First(slot)) => {
                    &&& old(self).tuple.0 is None
                    &&& *slot is None
                    &&& final(self).tuple == (*final(slot), old(self).tuple.1)
                },
                Ok(TupleSlot::Second(slot)) => {
                    &&& old(self).tuple.0 is Some
                    &&& old(self).tuple.1 is None
                    &&& *slot is None
                    &&& final(self).tuple == (old(self).tuple.0, *final(slot))
                },
                Err(_) => {
                    &&& old(self).tuple.0 is Some
                    &&& old(self).tuple.1 is Some
                    &&& final(self).tuple == old(self).tuple
                },
            },
    {
        if self.tuple.0.is_none() {
            Ok(TupleSlot::First(&mut self.tuple.0))
        } else if self.tuple.1.is_none() {
            Ok(TupleSlot::Second(&mut self.tuple.1))
        } else {
            Err(Error)
        }
    }

    /// Write both elements as the pair; fails unless both were written.
    /// Either way the builder is emptied.
    pub fn finish(&mut self) -> (r: Result<(), Error>)
        ensures
            r is Ok <==> (old(self).tuple.0 is Some && old(self).tuple.1 is Some),
            r is Ok ==> *final(self).out == Some((old(self).tuple.0->0, old(self).tuple.1->0)),
            r is Err ==> *final(self).out == *old(self).out,
            final(self).tuple == (None::<A>, None::<B>),
            *final(final(self).out) == *final(old(self).out),
    {
        let first = self.tuple.0.take();
        let second = self.tuple.1.take();
        match (first, second) {
            (Some(a), Some(b)) => {
                *self.out = Some((a, b));
                Ok(())
            },
            _ => Err(Error),
        }
    }
}

impl<'a, A: Deserialize, B: Deserialize> TupleBuilder<'a, A, B> {
    /// Write a scalar element into the first slot not yet written.
    pub fn scalar(&mut self, s: &Scalar) -> (r: Result<(), Error>)
        ensures
            *final(self).out == *old(self).out,
            *final(final(self).out) == *final(old(self).out),
            old(self).tuple.0 is None ==> {
                &&& final(self).tuple.1 == old(self).tuple.1
                &&& scalar_outcome::<A>(*s, r is Ok, None, final(self).tuple.0)
            },
            (old(self).tuple.0 is Some && old(self).tuple.1 is None) ==> {
                &&& final(self).tuple.0 == old(self).tuple.0
                &&& scalar_outcome::<B>(*s, r is Ok, None, final(self).tuple.1)
            },
            (old(self).tuple.0 is Some && old(self).tuple.1 is Some) ==> {
                &&& r is Err
                &&& final(self).tuple == old(self).tuple
            },
    {
        if self.tuple.0.is_none() {
            A::scalar(&mut self.tuple.0, s)
        } else if self.tuple.1.is_none() {
            B::scalar(&mut self.tuple.1, s)
        } else {
            Err(Error)
        }
    }
}

// ---------------------------------------------------------------------------
// Vec.

/// The elements of an optional value: none or one.
pub open spec fn opt_seq<T>(o: Option<T>) -> Seq<T> {
    match o {
        Some(v) => seq![v],
        None => Seq::empty(),
    }
}

/// The sequence builder of `Vec<T>`: previous elements are accumulated in
/// `vec`, the element being written sits in `element`.
pub struct VecBuilder<'a, T> {
    pub out: &'a mut Option<Vec<T>>,
    pub vec: Vec<T>,
    pub element: Option<T>,
}

impl<'a, T> VecBuilder<'a, T> {
    /// The elements collected so far, the last written one included.
    pub open spec fn collected(&self) -> Seq<T> {
        self.vec@ + opt_seq(self.element)
    }
}

impl<'a, T> Place<'a, Vec<T>> {
    /// Begin a sequence.
    pub fn seq(self) -> (b: VecBuilder<'a, T>)
        ensures
            *b.out == *old(self.out),
            *final(b.out) == *final(self.out),
            b.vec@ == Seq::<T>::empty(),
            b.element is None,
    {
        VecBuilder { out: self.out, vec: Vec::new(), element: None }
    }
}

impl<'a, T> VecBuilder<'a, T> {
    /// Move the last written element, if any, to the collected elements.
    pub fn shift(&mut self)
        ensures
            final(self).vec@ == old(self).collected(),
            final(self).element is None,
            *final(self).out == *old(self).out,
            *final(final(self).out) == *final(old(self).out),
    {
        if let Some(e) = self.element.take() {
            self.vec.push(e);
        }
    }

    /// The slot of the next element.
    pub fn element(&mut self) -> (slot: &mut Option<T>)
        ensures
            *slot is None,
            final(self).vec@ == old(self).collected(),
            final(self).element == *final(slot),
            *final(self).out == *old(self).out,
            *final(final(self).out) == *final(old(self).out),
    {
        self.shift();
        &mut self.element
    }

    /// Write the collected elements, in the order they were written.
    pub fn finish(&mut self) -> (r: Result<(), Error>)
        ensures
            r is Ok,
            *final(self).out matches Some(v) && v@ == old(self).collected(),
            final(self).vec@ == Seq::<T>::empty(),
            final(self).element is None,
            *final(final(self).out) == *final(old(self).out),
    {
        self.shift();
        let mut vec = Vec::new();
        std::mem::swap(&mut vec, &mut self.vec);
        *self.out = Some(vec);
        Ok(())
    }
}

impl<'a, T: Deserialize> VecBuilder<'a, T> {
    /// Write a scalar as the next element.
    pub fn scalar(&mut self, s: &Scalar) -> (r: Result<(), Error>)
        ensures
            final(self).vec@ == old(self).collected(),
            scalar_outcome::<T>(*s, r is Ok, None, final(self).element),
            *final(self).out == *old(self).out,
            *final(final(self).out) == *final(old(self).out),
    {
        self.shift();
        T::scalar(&mut self.element, s)
    }
}

// ---------------------------------------------------------------------------
// Maps.

/// Types that map keys are parsed into, from the text of a JSON object key.
pub trait MapKey: Sized {
    spec fn parses(s: Seq<char>) -> bool;

    spec fn parsed_value(s: Seq<char>, k: Self) -> bool;

    fn parse_key(s: &str) -> (r: Option<Self>)
        ensures
            r is Some <==> Self::parses(s@),
            r matches Some(k) ==> Self::parsed_value(s@, k),
    ;
}

impl MapKey for String {
    open spec fn parses(s: Seq<char>) -> bool {
        true
    }

    open spec fn parsed_value(s: Seq<char>, k: String) -> bool {
        k@ == s
    }

    fn parse_key(s: &str) -> (r: Option<String>) {
        Some(s.to_owned())
    }
}

/// The entry a map builder holds: inserted when both key and value are
/// present.
pub open spec fn pending_entry<K, V>(key: Option<K>, value: Option<V>) -> Option<(K, V)> {
    match (key, value) {
        (Some(k), Some(v)) => Some((k, v)),
        _ => None,
    }
}

/// The map builder of `BTreeMap<K, V>`.
pub struct BTreeMapBuilder<'a, K, V> {
    pub out: &'a mut Option<BTreeMap<K, V>>,
    pub map: BTreeMap<K, V>,
    pub key: Option<K>,
    pub value: Option<V>,
}

impl<'a, K: MapKey + Ord, V> Place<'a, BTreeMap<K, V>> {
    /// Begin a map.
    pub fn map(self) -> (b: BTreeMapBuilder<'a, K, V>)
        ensures
            *b.out == *old(self.out),
            *final(b.out) == *final(self.out),
            b.map@ == Map::<K, V>::empty(),
            b.key is None,
            b.value is None,
    {
        BTreeMapBuilder { out: self.out, map: BTreeMap::new(), key: None, value: None }
    }
}

impl<'a, K: MapKey + Ord, V> BTreeMapBuilder<'a, K, V> {
    /// The map with the pending entry inserted, for keys whose order obeys
    /// the specification of `Ord`.
    pub open spec fn collected(&self) -> Map<K, V> {
        match pending_entry(self.key, self.value) {
            Some((k, v)) => self.map@.insert(k, v),
            None => self.map@,
        }
    }

    /// Insert the pending entry, if both its key and value were written.
    /// Key and value are cleared either way.
    pub fn shift(&mut self)
        ensures
            obeys_cmp::<K>() ==> final(self).map@ == old(self).collected(),
            final(self).key is None,
            final(self).value is None,
            *final(self).out == *old(self).out,
            *final(final(self).out) == *final(old(self).out),
    {
        let key = self.key.take();
        let value = self.value.take();
        match (key, value) {
            (Some(k), Some(v)) => {
                self.map.insert(k, v);
            },
            _ => {},
        }
    }

    /// Insert the pending entry and parse the next key.
    pub fn parse_key(&mut self, k: &str) -> (r: Result<(), Error>)
        ensures
            obeys_cmp::<K>() ==> final(self).map@ == old(self).collected(),
            r is Ok <==> K::parses(k@),
            r is Ok ==> (final(self).key matches Some(key) && K::parsed_value(k@, key)),
            r is Err ==> final(self).key is None,
            final(self).value is None,
            *final(self).out == *old(self).out,
            *final(final(self).out) == *final(old(self).out),
    {
        self.shift();
        match K::parse_key(k) {
            Some(key) => {
                self.key = Some(key);
                Ok(())
            },
            None => Err(Error),
        }
    }

    /// Parse the key `k` and hand out the slot of its value.
    pub fn key(&mut self, k: &str) -> (r: Result<&mut Option<V>, Error>)
        ensures
            obeys_cmp::<K>() ==> final(self).map@ == old(self).collected(),
            r is Ok <==> K::parses(k@),
            r matches Ok(slot) ==> {
                &&& final(self).key matches Some(key) && K::parsed_value(k@, key)
                &&& *slot is None
                &&& final(self).value == *final(slot)
            },
            r is Err ==> final(self).key is None && final(self).value is None,
            *final(self).out == *old(self).out,
            *final(final(self).out) == *final(old(self).out),
    {
        match self.parse_key(k) {
            Ok(()) => Ok(&mut self.value),
            Err(e) => Err(e),
        }
    }

    /// Write the collected entries as the map.
    pub fn finish(&mut self) -> (r: Result<(), Error>)
        ensures
            r is Ok,
            *final(self).out matches Some(m) && (obeys_cmp::<K>() ==> m@ == old(self).collected()),
            final(self).map@ == Map::<K, V>::empty(),
            *final(final(self).out) == *final(old(self).out),
    {
        self.shift();
        let mut map = BTreeMap::new();
        std::mem::swap(&mut map, &mut self.map);
        *self.out = Some(map);
        Ok(())
    }
}

impl<'a, K: MapKey + Ord, V: Deserialize> BTreeMapBuilder<'a, K, V> {
    /// Write a scalar as the value of the key `k`.
    pub fn scalar(&mut self, k: &str, s: &Scalar) -> (r: Result<(), Error>)
        ensures
            obeys_cmp::<K>() ==> final(self).map@ == old(self).collected(),
            !K::parses(k@) ==> r is Err && final(self).key is None && final(self).value is None,
            K::parses(k@) ==> {
                &&& final(self).key matches Some(key) && K::parsed_value(k@, key)
                &&& scalar_outcome::<V>(*s, r is Ok, None, final(self).value)
            },
            *final(self).out == *old(self).out,
            *final(final(self).out) == *final(old(self).out),
    {
        match self.parse_key(k) {
            Ok(()) => V::scalar(&mut self.value, s),
            Err(e) => Err(e),
        }
    }
}

/// The map builder of `HashMap<K, V, H>`.
#[verifier::reject_recursive_types(K)]
#[verifier::reject_recursive_types(H)]
pub struct HashMapBuilder<'a, K, V, H> {
    pub out: &'a mut Option<HashMap<K, V, H>>,
    pub map: HashMap<K, V, H>,
    pub key: Option<K>,
    pub value: Option<V>,
}

impl<'a, K: MapKey + Hash + Eq, V, H: BuildHasher + Default> Place<'a, HashMap<K, V, H>> {
    /// Begin a map.
    pub fn map(self) -> (b: HashMapBuilder<'a, K, V, H>)
        ensures
            *b.out == *old(self.out),
            *final(b.out) == *final(self.out),
            b.map@ == Map::<K, V>::empty(),
            b.key is None,
            b.value is None,
    {
        HashMapBuilder { out: self.out, map: HashMap::default(), key: None, value: None }
    }
}

impl<'a, K: MapKey + Hash + Eq, V, H: BuildHasher + Default> HashMapBuilder<'a, K, V, H> {
    /// Whether insertion obeys the map specification for this key and
    /// hasher type.
    pub open spec fn obeys_model() -> bool {
        obeys_key_model::<K>() && builds_valid_hashers::<H>()
    }

    /// The map with the pending entry inserted.
    pub open spec fn collected(&self) -> Map<K, V> {
        match pending_entry(self.key, self.value) {
            Some((k, v)) => self.map@.insert(k, v),
            None => self.map@,
        }
    }

    /// Insert the pending entry, if both its key and value were written.
    /// Key and value are cleared either way.
    pub fn shift(&mut self)
        ensures
            Self::obeys_model() ==> final(self).map@ == old(self).collected(),
            final(self).key is None,
            final(self).value is None,
            *final(self).out == *old(self).out,
            *final(final(self).out) == *final(old(self).out),
    {
        let key = self.key.take();
        let value = self.value.take();
        match (key, value) {
            (Some(k), Some(v)) => {
                self.map.insert(k, v);
            },
            _ => {},
        }
    }

    /// Insert the pending entry and parse the next key.
    pub fn parse_key(&mut self, k: &str) -> (r: Result<(), Error>)
        ensures
            Self::obeys_model() ==> final(self).map@ == old(self).collected(),
            r is Ok <==> K::parses(k@),
            r is Ok ==> (final(self).key matches Some(key) && K::parsed_value(k@, key)),
            r is Err ==> final(self).key is None,
            final(self).value is None,
            *final(self).out == *old(self).out,
            *final(final(self).out) == *final(old(self).out),
    {
        self.shift();
        match K::parse_key(k) {
            Some(key) => {
                self.key = Some(key);
                Ok(())
            },
            None => Err(Error),
        }
    }

    /// Parse the key `k` and hand out the slot of its value.
    pub fn key(&mut self, k: &str) -> (r: Result<&mut Option<V>, Error>)
        ensures
            Self::obeys_model() ==> final(self).map@ == old(self).collected(),
            r is Ok <==> K::parses(k@),
            r matches Ok(slot) ==> {
                &&& final(self).key matches Some(key) && K::parsed_value(k@, key)
                &&& *slot is None
                &&& final(self).value == *final(slot)
            },
            r is Err ==> final(self).key is None && final(self).value is None,
            *final(self).out == *old(self).out,
            *final(final(self).out) == *final(old(self).out),
    {
        match self.parse_key(k) {
            Ok(()) => Ok(&mut self.value),
            Err(e) => Err(e),
        }
    }

    /// Write the collected entries as the map.
    pub fn finish(&mut self) -> (r: Result<(), Error>)
        ensures
            r is Ok,
            *final(self).out matches Some(m) && (Self::obeys_model() ==> m@ == old(self).collected()),
            final(self).map@ == Map::<K, V>::empty(),
            *final(final(self).out) == *final(old(self).out),
    {
        self.shift();
        let mut map = HashMap::default();
        std::mem::swap(&mut map, &mut self.map);
        *self.out = Some(map);
        Ok(())
    }
}

impl<'a, K: MapKey + Hash + Eq, V: Deserialize, H: BuildHasher + Default> HashMapBuilder<'a, K, V, H> {
    /// Write a scalar as the value of the key `k`.
    pub fn scalar(&mut self, k: &str, s: &Scalar) -> (r: Result<(), Error>)
        ensures
            Self::obeys_model() ==> final(self).map@ == old(self).collected(),
            !K::parses(k@) ==> r is Err && final(self).key is None && final(self).value is None,
            K::parses(k@) ==> {
                &&& final(self).key matches Some(key) && K::parsed_value(k@, key)
                &&& scalar_outcome::<V>(*s, r is Ok, None, final(self).value)
            },
            *final(self).out == *old(self).out,
            *final(final(self).out) == *final(old(self).out),
    {
        match self.parse_key(k) {
            Ok(()) => V::scalar(&mut self.value, s),
            Err(e) => Err(e),
        }
    }
}

} // verus!

verus! {

// ---------------------------------------------------------------------------
// Laws.

/// A scalar as the parser produces it: `Negative` carries a negative number.
pub open spec fn well_signed(s: Scalar) -> bool {
    s matches Scalar::Negative(n) ==> n < 0
}

/// Whether an integer type with range `min..=max` takes `s` exactly: it
/// accepts `s` iff `s` is a number within the range, and then writes that
/// number.
pub open spec fn takes_exactly(s: Scalar, accepts: bool, min: int, max: int) -> bool {
    accepts <==> ((s is Negative || s is Nonnegative) && min <= scalar_int(s) <= max)
}

/// Every signed integer type accepts exactly the numbers within its range
/// and writes them unchanged, for scalars whose `Negative` numbers are
/// negative.
pub proof fn lemma_signed_scalars_exact(s: Scalar)
    requires
        well_signed(s),
    ensures
        takes_exactly(s, i8::accepts_scalar(s), i8::MIN as int, i8::MAX as int),
        takes_exactly(s, i16::accepts_scalar(s), i16::MIN as int, i16::MAX as int),
        takes_exactly(s, i32::accepts_scalar(s), i32::MIN as int, i32::MAX as int),
        takes_exactly(s, i64::accepts_scalar(s), i64::MIN as int, i64::MAX as int),
        takes_exactly(s, isize::accepts_scalar(s), isize::MIN as int, isize::MAX as int),
        forall|v: i8| #[trigger] i8::scalar_value(s, v) && i8::accepts_scalar(s) ==> v as int == scalar_int(s),
        forall|v: i16| #[trigger] i16::scalar_value(s, v) && i16::accepts_scalar(s) ==> v as int == scalar_int(s),
        forall|v: i32| #[trigger] i32::scalar_value(s, v) && i32::accepts_scalar(s) ==> v as int == scalar_int(s),
        forall|v: i64| #[trigger] i64::scalar_value(s, v) && i64::accepts_scalar(s) ==> v as int == scalar_int(s),
        forall|v: isize| #[trigger] isize::scalar_value(s, v) && isize::accepts_scalar(s) ==> v as int == scalar_int(s),
{
}

/// Every unsigned integer type accepts exactly the nonnegative numbers
/// within its range and writes them unchanged; negative numbers are refused.
pub proof fn lemma_unsigned_scalars_exact(s: Scalar)
    requires
        well_signed(s),
    ensures
        takes_exactly(s, u8::accepts_scalar(s), 0, u8::MAX as int),
        takes_exactly(s, u16::accepts_scalar(s), 0, u16::MAX as int),
        takes_exactly(s, u32::accepts_scalar(s), 0, u32::MAX as int),
        takes_exactly(s, u64::accepts_scalar(s), 0, u64::MAX as int),
        takes_exactly(s, usize::accepts_scalar(s), 0, usize::MAX as int),
        forall|v: u8| #[trigger] u8::scalar_value(s, v) && u8::accepts_scalar(s) ==> v as int == scalar_int(s),
        forall|v: u16| #[trigger] u16::scalar_value(s, v) && u16::accepts_scalar(s) ==> v as int == scalar_int(s),
        forall|v: u32| #[trigger] u32::scalar_value(s, v) && u32::accepts_scalar(s) ==> v as int == scalar_int(s),
        forall|v: u64| #[trigger] u64::scalar_value(s, v) && u64::accepts_scalar(s) ==> v as int == scalar_int(s),
        forall|v: usize| #[trigger] usize::scalar_value(s, v) && usize::accepts_scalar(s) ==> v as int == scalar_int(s),
{
}

/// A scalar refused by a built-in type leaves the slot as it was, except in
/// an `Option` slot: that is left holding `Some` of what the inner type
/// leaves in an empty slot, since the slot is set to `Some(None)` before
/// the inner value is written.
pub proof fn lemma_refusal_keeps_slot<T: Deserialize>()
    ensures
        forall|b: Option<()>| #[trigger] <() as Deserialize>::refused_slot(b) == b,
        forall|b: Option<bool>| #[trigger] <bool as Deserialize>::refused_slot(b) == b,
        forall|b: Option<String>| #[trigger] <String as Deserialize>::refused_slot(b) == b,
        forall|b: Option<PathBuf>| #[trigger] <PathBuf as Deserialize>::refused_slot(b) == b,
        forall|b: Option<i8>| #[trigger] <i8 as Deserialize>::refused_slot(b) == b,
        forall|b: Option<i16>| #[trigger] <i16 as Deserialize>::refused_slot(b) == b,
        forall|b: Option<i32>| #[trigger] <i32 as Deserialize>::refused_slot(b) == b,
        forall|b: Option<i64>| #[trigger] <i64 as Deserialize>::refused_slot(b) == b,
        forall|b: Option<isize>| #[trigger] <isize as Deserialize>::refused_slot(b) == b,
        forall|b: Option<u8>| #[trigger] <u8 as Deserialize>::refused_slot(b) == b,
        forall|b: Option<u16>| #[trigger] <u16 as Deserialize>::refused_slot(b) == b,
        forall|b: Option<u32>| #[trigger] <u32 as Deserialize>::refused_slot(b) == b,
        forall|b: Option<u64>| #[trigger] <u64 as Deserialize>::refused_slot(b) == b,
        forall|b: Option<usize>| #[trigger] <usize as Deserialize>::refused_slot(b) == b,
        forall|b: Option<Box<T>>| #[trigger] <Box<T> as Deserialize>::refused_slot(b) == b,
        forall|b: Option<Option<T>>| #[trigger] <Option<T> as Deserialize>::refused_slot(b) == Some(T::refused_slot(None)),
{
}

/// A map after inserting `entries` in turn.
pub open spec fn insert_all<K, V>(m: Map<K, V>, entries: Seq<(K, V)>) -> Map<K, V>
    decreases entries.len(),
{
    if entries.len() == 0 {
        m
    } else {
        insert_all(m, entries.drop_last()).insert(entries.last().0, entries.last().1)
    }
}

/// The index of the last entry with key `k`, or -1 if there is none.
pub open spec fn last_index_of<K, V>(entries: Seq<(K, V)>, k: K) -> int
    decreases entries.len(),
{
    if entries.len() == 0 {
        -1
    } else if entries.last().0 == k {
        entries.len() - 1
    } else {
        last_index_of(entries.drop_last(), k)
    }
}

/// When a map builder inserts entries in turn, a key that occurs several
/// times keeps the value of its last entry, and a key that does not occur
/// keeps what it had.
pub proof fn lemma_last_write_wins<K, V>(m: Map<K, V>, entries: Seq<(K, V)>, k: K)
    ensures
        last_index_of(entries, k) >= 0 ==> {
            let i = last_index_of(entries, k);
            &&& i < entries.len()
            &&& entries[i].0 == k
            &&& forall|j: int| i < j < entries.len() ==> entries[j].0 != k
            &&& insert_all(m, entries).contains_key(k)
            &&& insert_all(m, entries)[k] == entries[i].1
        },
        last_index_of(entries, k) < 0 ==> {
            &&& forall|j: int| 0 <= j < entries.len() ==> entries[j].0 != k
            &&& insert_all(m, entries).contains_key(k) == m.contains_key(k)
            &&& m.contains_key(k) ==> insert_all(m, entries)[k] == m[k]
        },
    decreases entries.len(),
{
    if entries.len() > 0 {
        let init = entries.drop_last();
        lemma_last_write_wins(m, init, k);
        assert forall|j: int| 0 <= j < init.len() implies init[j] == entries[j] by {}
    }
}

} // verus!
