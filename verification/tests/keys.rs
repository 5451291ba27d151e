use std::collections::BTreeMap;
use std::collections::HashMap;

use microserde::de::impls::MapKey;
use microserde::de::Place;
use microserde::de::Scalar;
use microserde::Error;

#[test]
fn unsigned_keys_parse_decimal_text() {
    assert_eq!(<u8 as MapKey>::parse_key("0"), Some(0));
    assert_eq!(<u8 as MapKey>::parse_key("255"), Some(255));
    assert_eq!(<u8 as MapKey>::parse_key("+7"), Some(7));
    assert_eq!(<u8 as MapKey>::parse_key("007"), Some(7));
    assert_eq!(<u8 as MapKey>::parse_key("256"), None);
    assert_eq!(<u8 as MapKey>::parse_key("-1"), None);
    assert_eq!(<u8 as MapKey>::parse_key("-0"), None);
    assert_eq!(<u16 as MapKey>::parse_key("65535"), Some(65535));
    assert_eq!(<u32 as MapKey>::parse_key("4294967296"), None);
    assert_eq!(<u64 as MapKey>::parse_key("18446744073709551615"), Some(u64::MAX));
    assert_eq!(<u64 as MapKey>::parse_key("18446744073709551616"), None);
    assert_eq!(<usize as MapKey>::parse_key("42"), Some(42));
}

#[test]
fn signed_keys_parse_decimal_text() {
    assert_eq!(<i8 as MapKey>::parse_key("-128"), Some(-128));
    assert_eq!(<i8 as MapKey>::parse_key("127"), Some(127));
    assert_eq!(<i8 as MapKey>::parse_key("128"), None);
    assert_eq!(<i8 as MapKey>::parse_key("-129"), None);
    assert_eq!(<i16 as MapKey>::parse_key("-0"), Some(0));
    assert_eq!(<i32 as MapKey>::parse_key("+12"), Some(12));
    assert_eq!(<i64 as MapKey>::parse_key("-9223372036854775808"), Some(i64::MIN));
    assert_eq!(<isize as MapKey>::parse_key("-5"), Some(-5));
}

#[test]
fn keys_refuse_other_text() {
    assert_eq!(<u32 as MapKey>::parse_key(""), None);
    assert_eq!(<u32 as MapKey>::parse_key("+"), None);
    assert_eq!(<i32 as MapKey>::parse_key("-"), None);
    assert_eq!(<u32 as MapKey>::parse_key(" 1"), None);
    assert_eq!(<u32 as MapKey>::parse_key("1 "), None);
    assert_eq!(<u32 as MapKey>::parse_key("1_000"), None);
    assert_eq!(<u32 as MapKey>::parse_key("0x10"), None);
    assert_eq!(<i32 as MapKey>::parse_key("--1"), None);
    assert_eq!(<u32 as MapKey>::parse_key("\u{0663}"), None);
    assert_eq!(<String as MapKey>::parse_key(" any text "), Some(" any text ".to_owned()));
}

#[test]
fn btree_map_with_integer_keys() {
    let mut out: Option<BTreeMap<u32, String>> = None;
    {
        let mut b = Place::new(&mut out).map();
        assert_eq!(b.scalar("10", &Scalar::Str("ten")), Ok(()));
        assert_eq!(b.scalar("2", &Scalar::Str("two")), Ok(()));
        assert_eq!(b.scalar("+10", &Scalar::Str("TEN")), Ok(()));
        assert_eq!(b.scalar("x", &Scalar::Str("refused")), Err(Error));
        assert_eq!(b.finish(), Ok(()));
    }
    let map = out.unwrap();
    assert_eq!(map.len(), 2);
    assert_eq!(map[&2], "two");
    assert_eq!(map[&10], "TEN");
}

#[test]
fn hash_map_with_integer_keys() {
    let mut out: Option<HashMap<i64, bool>> = None;
    {
        let mut b = Place::new(&mut out).map();
        assert_eq!(b.scalar("-1", &Scalar::Bool(true)), Ok(()));
        assert!(b.key("99999999999999999999").is_err());
        {
            let slot = b.key("3").unwrap();
            assert_eq!(Place::new(slot).scalar(&Scalar::Bool(false)), Ok(()));
        }
        assert_eq!(b.finish(), Ok(()));
    }
    let map = out.unwrap();
    assert_eq!(map.len(), 2);
    assert_eq!(map[&-1], true);
    assert_eq!(map[&3], false);
}
