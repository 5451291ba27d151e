use microserde::de::Place;
use microserde::de::Scalar;
use microserde::ignore::ignore;
use microserde::json::Number;
use microserde::json::Object;
use microserde::json::Value;

#[test]
fn array_of_scalars_and_nested_array() {
    // [null, [1, -2], "x"]
    let mut out: Option<Value> = None;
    {
        let mut a = Place::new(&mut out).seq();
        assert_eq!(a.scalar(&Scalar::Null), Ok(()));
        {
            let mut inner = Place::new(a.element()).seq();
            assert_eq!(inner.scalar(&Scalar::Nonnegative(1)), Ok(()));
            assert_eq!(inner.scalar(&Scalar::Negative(-2)), Ok(()));
            assert_eq!(inner.finish(), Ok(()));
        }
        assert_eq!(Place::new(a.element()).scalar(&Scalar::Str("x")), Ok(()));
        assert_eq!(a.finish(), Ok(()));
    }
    assert_eq!(
        out,
        Some(Value::Array(vec![
            Value::Null,
            Value::Array(vec![Value::Number(Number::U64(1)), Value::Number(Number::I64(-2))]),
            Value::String("x".to_owned()),
        ]))
    );
}

#[test]
fn object_keys_sorted_and_last_write_wins() {
    // {"b": 1, "a": true, "b": 2, "c": {}}
    let mut out: Option<Value> = None;
    {
        let mut o = Place::new(&mut out).map();
        assert_eq!(o.scalar("b", &Scalar::Nonnegative(1)), Ok(()));
        assert_eq!(o.scalar("a", &Scalar::Bool(true)), Ok(()));
        assert_eq!(Place::new(o.key("b")).scalar(&Scalar::Nonnegative(2)), Ok(()));
        {
            let mut inner = Place::new(o.key("c")).map();
            assert_eq!(inner.finish(), Ok(()));
        }
        assert_eq!(o.finish(), Ok(()));
    }
    let object = match out {
        Some(Value::Object(object)) => object,
        _ => panic!("expected an object"),
    };
    assert_eq!(object.len(), 3);
    let keys: Vec<&str> = object.entries().iter().map(|(k, _)| k.as_str()).collect();
    assert_eq!(keys, vec!["a", "b", "c"]);
    assert_eq!(object.get("b"), Some(&Value::Number(Number::U64(2))));
    assert_eq!(object.get("a"), Some(&Value::Bool(true)));
    assert_eq!(object.get("c"), Some(&Value::Object(Object::new())));
    assert_eq!(object.get("d"), None);
}

#[test]
fn object_key_without_value_is_dropped() {
    let mut out: Option<Value> = None;
    {
        let mut o = Place::new(&mut out).map();
        let _ = o.key("k");
        assert_eq!(o.finish(), Ok(()));
    }
    assert_eq!(out, Some(Value::Object(Object::new())));
}

#[test]
fn object_orders_keys_by_bytes() {
    let mut o = Object::new();
    assert!(o.is_empty());
    o.insert("é".to_owned(), Value::Null);
    o.insert("z".to_owned(), Value::Null);
    o.insert("ab".to_owned(), Value::Null);
    o.insert("a".to_owned(), Value::Null);
    o.insert("".to_owned(), Value::Bool(false));
    o.insert("Z".to_owned(), Value::Null);
    let keys: Vec<&str> = o.entries().iter().map(|(k, _)| k.as_str()).collect();
    assert_eq!(keys, vec!["", "Z", "a", "ab", "z", "é"]);
    o.insert("".to_owned(), Value::Bool(true));
    assert_eq!(o.len(), 6);
    assert_eq!(o.get(""), Some(&Value::Bool(true)));
    assert!(!o.is_empty());
}

#[test]
fn ignore_accepts_everything() {
    let mut i = ignore();
    assert_eq!(i.scalar(&Scalar::Null), Ok(()));
    assert_eq!(i.map_scalar("k", &Scalar::Bool(true)), Ok(()));
    let mut s = ignore().seq();
    let mut e = s.element().unwrap();
    assert_eq!(e.scalar(&Scalar::Str("x")), Ok(()));
    assert_eq!(s.finish(), Ok(()));
    let mut m = ignore().map();
    let mut v = m.key("extra").unwrap();
    assert_eq!(v.scalar(&Scalar::Negative(-1)), Ok(()));
    assert_eq!(m.finish(), Ok(()));
}
