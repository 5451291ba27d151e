use std::path::PathBuf;

use microserde::de::impls::MapKey;
use microserde::de::transparent;
use microserde::de::Deserialize;
use microserde::de::Place;
use microserde::de::Scalar;
use microserde::json::Number;
use microserde::json::Value;
use microserde::Error;

fn write<T: Deserialize>(s: &Scalar) -> (Result<(), Error>, Option<T>) {
    let mut out: Option<T> = None;
    let r = Place::new(&mut out).scalar(s);
    (r, out)
}

#[test]
fn place_writes_the_callers_slot() {
    let mut out: Option<bool> = None;
    {
        let mut place = Place::new(&mut out);
        assert_eq!(place.scalar(&Scalar::Bool(true)), Ok(()));
    }
    assert_eq!(out, Some(true));
}

#[test]
fn unit_and_bool() {
    assert_eq!(write::<()>(&Scalar::Null), (Ok(()), Some(())));
    assert_eq!(write::<()>(&Scalar::Bool(false)), (Err(Error), None));
    assert_eq!(write::<bool>(&Scalar::Bool(false)), (Ok(()), Some(false)));
    assert_eq!(write::<bool>(&Scalar::Null), (Err(Error), None));
    assert_eq!(write::<bool>(&Scalar::Str("true")), (Err(Error), None));
}

#[test]
fn strings() {
    assert_eq!(write::<String>(&Scalar::Str("X")), (Ok(()), Some("X".to_owned())));
    assert_eq!(write::<String>(&Scalar::Str("")), (Ok(()), Some(String::new())));
    assert_eq!(write::<String>(&Scalar::Nonnegative(1)), (Err(Error), None));
}

#[test]
fn refused_scalar_leaves_slot() {
    let mut out: Option<u8> = Some(7);
    assert_eq!(Place::new(&mut out).scalar(&Scalar::Nonnegative(256)), Err(Error));
    assert_eq!(out, Some(7));
}

#[test]
fn signed_bounds() {
    assert_eq!(write::<i8>(&Scalar::Negative(-128)), (Ok(()), Some(-128)));
    assert_eq!(write::<i8>(&Scalar::Negative(-129)), (Err(Error), None));
    assert_eq!(write::<i8>(&Scalar::Nonnegative(127)), (Ok(()), Some(127)));
    assert_eq!(write::<i8>(&Scalar::Nonnegative(128)), (Err(Error), None));
    assert_eq!(write::<i16>(&Scalar::Negative(-32768)), (Ok(()), Some(-32768)));
    assert_eq!(write::<i16>(&Scalar::Negative(-32769)), (Err(Error), None));
    assert_eq!(write::<i16>(&Scalar::Nonnegative(32768)), (Err(Error), None));
    assert_eq!(write::<i32>(&Scalar::Negative(-2147483648)), (Ok(()), Some(i32::MIN)));
    assert_eq!(write::<i32>(&Scalar::Negative(-2147483649)), (Err(Error), None));
    assert_eq!(write::<i32>(&Scalar::Nonnegative(2147483647)), (Ok(()), Some(i32::MAX)));
    assert_eq!(write::<i64>(&Scalar::Negative(i64::MIN)), (Ok(()), Some(i64::MIN)));
    assert_eq!(write::<i64>(&Scalar::Nonnegative(i64::MAX as u64)), (Ok(()), Some(i64::MAX)));
    assert_eq!(write::<i64>(&Scalar::Nonnegative(i64::MAX as u64 + 1)), (Err(Error), None));
    assert_eq!(write::<isize>(&Scalar::Negative(-5)), (Ok(()), Some(-5)));
    assert_eq!(write::<isize>(&Scalar::Nonnegative(5)), (Ok(()), Some(5)));
    assert_eq!(write::<i32>(&Scalar::Null), (Err(Error), None));
}

#[test]
fn negative_carrying_a_large_number_is_truncated() {
    // A `Negative` scalar is taken at or above the minimum and cast.
    assert_eq!(write::<i8>(&Scalar::Negative(200)), (Ok(()), Some(-56)));
}

#[test]
fn unsigned_bounds() {
    assert_eq!(write::<u8>(&Scalar::Nonnegative(255)), (Ok(()), Some(255)));
    assert_eq!(write::<u8>(&Scalar::Nonnegative(256)), (Err(Error), None));
    assert_eq!(write::<u8>(&Scalar::Negative(-1)), (Err(Error), None));
    assert_eq!(write::<u8>(&Scalar::Negative(0)), (Err(Error), None));
    assert_eq!(write::<u16>(&Scalar::Nonnegative(65535)), (Ok(()), Some(65535)));
    assert_eq!(write::<u16>(&Scalar::Nonnegative(65536)), (Err(Error), None));
    assert_eq!(write::<u32>(&Scalar::Nonnegative(4294967295)), (Ok(()), Some(u32::MAX)));
    assert_eq!(write::<u32>(&Scalar::Nonnegative(4294967296)), (Err(Error), None));
    assert_eq!(write::<u64>(&Scalar::Nonnegative(u64::MAX)), (Ok(()), Some(u64::MAX)));
    assert_eq!(write::<u64>(&Scalar::Bool(true)), (Err(Error), None));
    assert_eq!(write::<usize>(&Scalar::Nonnegative(3)), (Ok(()), Some(3)));
    assert_eq!(write::<usize>(&Scalar::Negative(-3)), (Err(Error), None));
}

#[test]
fn options() {
    assert_eq!(write::<Option<u32>>(&Scalar::Null), (Ok(()), Some(None)));
    assert_eq!(write::<Option<u32>>(&Scalar::Nonnegative(2)), (Ok(()), Some(Some(2))));
    // A refused inner scalar leaves `Some(None)` behind.
    assert_eq!(write::<Option<u32>>(&Scalar::Str("x")), (Err(Error), Some(None)));
    assert_eq!(write::<Option<Option<bool>>>(&Scalar::Null), (Ok(()), Some(None)));
    assert_eq!(<Option<u32> as Deserialize>::default_slot(), Some(None));
    assert_eq!(<u32 as Deserialize>::default_slot(), None);
    assert_eq!(<String as Deserialize>::default_slot(), None);
}

#[test]
fn boxes() {
    assert_eq!(write::<Box<u32>>(&Scalar::Nonnegative(1)), (Ok(()), Some(Box::new(1))));
    assert_eq!(write::<Box<u32>>(&Scalar::Bool(true)), (Err(Error), None));
    let mut out: Option<Box<u32>> = None;
    {
        let mut v = transparent(&mut out);
        assert_eq!(v.scalar(&Scalar::Nonnegative(1)), Ok(()));
    }
    assert_eq!(*out.unwrap(), 1);
    let mut out: Option<Box<u32>> = None;
    assert_eq!(transparent(&mut out).scalar(&Scalar::Bool(true)), Err(Error));
    assert!(out.is_none());
}

#[test]
fn paths() {
    assert_eq!(write::<PathBuf>(&Scalar::Str("src/lib.rs")), (Ok(()), Some(PathBuf::from("src/lib.rs"))));
    assert_eq!(write::<PathBuf>(&Scalar::Nonnegative(0)), (Err(Error), None));
}

#[test]
fn values_from_scalars() {
    assert_eq!(write::<Value>(&Scalar::Null), (Ok(()), Some(Value::Null)));
    assert_eq!(write::<Value>(&Scalar::Bool(true)), (Ok(()), Some(Value::Bool(true))));
    assert_eq!(write::<Value>(&Scalar::Str("s")), (Ok(()), Some(Value::String("s".to_owned()))));
    assert_eq!(write::<Value>(&Scalar::Negative(-3)), (Ok(()), Some(Value::Number(Number::I64(-3)))));
    assert_eq!(write::<Value>(&Scalar::Nonnegative(3)), (Ok(()), Some(Value::Number(Number::U64(3)))));
    assert_eq!(Value::default(), Value::Null);
}

#[test]
fn string_keys_parse_as_themselves() {
    assert_eq!(<String as MapKey>::parse_key("major"), Some("major".to_owned()));
    assert_eq!(<String as MapKey>::parse_key(""), Some(String::new()));
}
