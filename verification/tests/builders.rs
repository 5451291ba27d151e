use std::collections::BTreeMap;
use std::collections::HashMap;

use microserde::de::impls::TupleSlot;
use microserde::de::transparent;
use microserde::de::Place;
use microserde::de::Scalar;
use microserde::Error;

#[test]
fn vec_collects_in_order() {
    let mut out: Option<Vec<String>> = None;
    {
        let mut b = Place::new(&mut out).seq();
        for s in ["a", "b", "c"] {
            let slot = b.element();
            assert_eq!(Place::new(slot).scalar(&Scalar::Str(s)), Ok(()));
        }
        assert_eq!(b.finish(), Ok(()));
    }
    assert_eq!(out, Some(vec!["a".to_owned(), "b".to_owned(), "c".to_owned()]));
}

#[test]
fn vec_scalar_shortcut_matches_element() {
    let mut out1: Option<Vec<u32>> = None;
    let mut out2: Option<Vec<u32>> = None;
    {
        let mut b1 = Place::new(&mut out1).seq();
        let mut b2 = Place::new(&mut out2).seq();
        for n in [3u64, 1, 2] {
            assert_eq!(b1.scalar(&Scalar::Nonnegative(n)), Ok(()));
            let slot = b2.element();
            assert_eq!(Place::new(slot).scalar(&Scalar::Nonnegative(n)), Ok(()));
        }
        assert_eq!(b1.finish(), Ok(()));
        assert_eq!(b2.finish(), Ok(()));
    }
    assert_eq!(out1, Some(vec![3, 1, 2]));
    assert_eq!(out1, out2);
}

#[test]
fn vec_skips_empty_slots_and_refusals() {
    let mut out: Option<Vec<u8>> = None;
    {
        let mut b = Place::new(&mut out).seq();
        let _ = b.element();
        assert_eq!(b.scalar(&Scalar::Nonnegative(300)), Err(Error));
        assert_eq!(b.scalar(&Scalar::Nonnegative(4)), Ok(()));
        assert_eq!(b.finish(), Ok(()));
    }
    assert_eq!(out, Some(vec![4]));
}

#[test]
fn empty_vec() {
    let mut out: Option<Vec<u8>> = None;
    {
        let mut b = Place::new(&mut out).seq();
        assert_eq!(b.finish(), Ok(()));
    }
    assert_eq!(out, Some(Vec::new()));
}

#[test]
fn nested_vecs_through_option() {
    // [["Y", "Y"]] written into Option<Vec<Vec<String>>>.
    let mut out: Option<Option<Vec<Vec<String>>>> = None;
    {
        let mut outer = Place::new(&mut out).inner().seq();
        {
            let slot = outer.element();
            let mut inner = Place::new(slot).seq();
            assert_eq!(inner.scalar(&Scalar::Str("Y")), Ok(()));
            assert_eq!(inner.scalar(&Scalar::Str("Y")), Ok(()));
            assert_eq!(inner.finish(), Ok(()));
        }
        assert_eq!(outer.finish(), Ok(()));
    }
    assert_eq!(out, Some(Some(vec![vec!["Y".to_owned(), "Y".to_owned()]])));
}

#[test]
fn option_inner_place_starts_as_some_none() {
    let mut out: Option<Option<Vec<u8>>> = None;
    {
        let _ = Place::new(&mut out).inner();
    }
    assert_eq!(out, Some(None));
}

#[test]
fn pairs_take_two_elements() {
    let mut out: Option<(u8, String)> = None;
    {
        let mut b = Place::new(&mut out).seq();
        assert_eq!(b.scalar(&Scalar::Nonnegative(1)), Ok(()));
        match b.element() {
            Ok(TupleSlot::Second(slot)) => {
                assert_eq!(Place::new(slot).scalar(&Scalar::Str("x")), Ok(()));
            }
            _ => panic!("expected the second slot"),
        }
        assert!(b.element().is_err());
        assert_eq!(b.scalar(&Scalar::Nonnegative(2)), Err(Error));
        assert_eq!(b.finish(), Ok(()));
    }
    assert_eq!(out, Some((1, "x".to_owned())));
}

#[test]
fn pairs_need_both_elements() {
    let mut out: Option<(u8, u8)> = None;
    {
        let mut b = Place::new(&mut out).seq();
        match b.element() {
            Ok(TupleSlot::First(slot)) => {
                assert_eq!(Place::new(slot).scalar(&Scalar::Nonnegative(1)), Ok(()));
            }
            _ => panic!("expected the first slot"),
        }
        assert_eq!(b.finish(), Err(Error));
        assert!(b.tuple.0.is_none());
    }
    assert_eq!(out, None);
}

#[test]
fn pair_slot_is_offered_again_until_written() {
    let mut out: Option<(u8, u8)> = None;
    let mut b = Place::new(&mut out).seq();
    assert!(matches!(b.element(), Ok(TupleSlot::First(_))));
    assert!(matches!(b.element(), Ok(TupleSlot::First(_))));
}

#[test]
fn btree_map_last_write_wins() {
    let mut out: Option<BTreeMap<String, Option<u32>>> = None;
    {
        let mut b = Place::new(&mut out).map();
        assert_eq!(b.scalar("a", &Scalar::Nonnegative(1)), Ok(()));
        assert_eq!(b.scalar("b", &Scalar::Null), Ok(()));
        {
            let slot = b.key("a").unwrap();
            assert_eq!(Place::new(slot).scalar(&Scalar::Nonnegative(3)), Ok(()));
        }
        assert_eq!(b.finish(), Ok(()));
    }
    let map = out.unwrap();
    assert_eq!(map.len(), 2);
    assert_eq!(map["a"], Some(3));
    assert_eq!(map["b"], None);
}

#[test]
fn btree_map_refused_value() {
    let mut out: Option<BTreeMap<String, u32>> = None;
    {
        let mut b = Place::new(&mut out).map();
        assert_eq!(b.scalar("a", &Scalar::Str("x")), Err(Error));
        assert_eq!(b.scalar("b", &Scalar::Nonnegative(2)), Ok(()));
        assert_eq!(b.finish(), Ok(()));
    }
    let map = out.unwrap();
    assert_eq!(map.len(), 1);
    assert_eq!(map["b"], 2);
}

#[test]
fn hash_map_builder() {
    let mut out: Option<HashMap<String, Vec<u8>>> = None;
    {
        let mut b = Place::new(&mut out).map();
        {
            let slot = b.key("k").unwrap();
            let mut v = Place::new(slot).seq();
            assert_eq!(v.scalar(&Scalar::Nonnegative(1)), Ok(()));
            assert_eq!(v.finish(), Ok(()));
        }
        let _ = b.key("unused").unwrap();
        assert_eq!(b.finish(), Ok(()));
    }
    let map = out.unwrap();
    assert_eq!(map.len(), 1);
    assert_eq!(map["k"], vec![1]);
}

#[test]
fn boxed_sequence_is_wrapped() {
    let mut out: Option<Box<Vec<String>>> = None;
    {
        let mut t = transparent(&mut out).seq();
        {
            let mut v = Place::new(t.inner()).seq();
            assert_eq!(v.scalar(&Scalar::Str("a")), Ok(()));
            assert_eq!(v.scalar(&Scalar::Str("b")), Ok(()));
            assert_eq!(v.finish(), Ok(()));
        }
        assert_eq!(t.finish(), Ok(()));
    }
    assert_eq!(*out.unwrap(), vec!["a".to_owned(), "b".to_owned()]);
}

#[test]
fn boxed_map_is_wrapped() {
    let mut out: Option<Box<BTreeMap<String, String>>> = None;
    {
        let mut t = transparent(&mut out).map();
        {
            let mut m = Place::new(t.inner()).map();
            assert_eq!(m.scalar("z", &Scalar::Str("Z")), Ok(()));
            assert_eq!(m.finish(), Ok(()));
        }
        assert_eq!(t.finish(), Ok(()));
    }
    assert_eq!(out.unwrap()["z"], "Z".to_owned());
}

#[test]
fn transparent_finish_needs_inner_value() {
    let mut out: Option<Box<Vec<u8>>> = None;
    {
        let mut t = transparent(&mut out).seq();
        assert_eq!(t.finish(), Err(Error));
        let mut m = transparent(t.out).map();
        assert_eq!(m.finish(), Err(Error));
    }
    assert!(out.is_none());
}

#[test]
fn map_scalar_matches_key_then_write() {
    let mut by_scalar: Option<BTreeMap<String, u8>> = None;
    let mut by_key: Option<BTreeMap<String, u8>> = None;
    {
        let mut a = Place::new(&mut by_scalar).map();
        let mut b = Place::new(&mut by_key).map();
        for (k, s) in [("x", Scalar::Nonnegative(1)), ("y", Scalar::Nonnegative(300)), ("x", Scalar::Nonnegative(2))] {
            let r1 = a.scalar(k, &s);
            let r2 = Place::new(b.key(k).unwrap()).scalar(&s);
            assert_eq!(r1, r2);
        }
        assert_eq!(a.finish(), Ok(()));
        assert_eq!(b.finish(), Ok(()));
    }
    assert_eq!(by_scalar, by_key);
    let map = by_scalar.unwrap();
    assert_eq!(map.len(), 1);
    assert_eq!(map["x"], 2);
}

#[test]
fn option_writes_what_the_inner_type_writes() {
    for s in [Scalar::Nonnegative(7), Scalar::Nonnegative(300), Scalar::Bool(true)] {
        let mut outer: Option<Option<u8>> = None;
        let mut inner: Option<u8> = None;
        let r1 = Place::new(&mut outer).scalar(&s);
        let r2 = Place::new(&mut inner).scalar(&s);
        assert_eq!(r1, r2);
        assert_eq!(outer, Some(inner));
    }
}
