//! Integer map keys, read from the text of a JSON object key as
//! `str::parse` reads them.

use vstd::prelude::*;

use crate::de::impls::MapKey;

verus! {

/// Whether `c` is an ASCII decimal digit.
pub open spec fn is_decimal_digit(c: char) -> bool {
    '0' <= c && c <= '9'
}

/// Whether `d` is one or more ASCII decimal digits.
pub open spec fn all_digits(d: Seq<char>) -> bool {
    d.len() > 0 && forall|i: int| 0 <= i < d.len() ==> #[trigger] is_decimal_digit(d[i])
}

/// The number written by the decimal digits `d`.
pub open spec fn digits_value(d: Seq<char>) -> int
    decreases d.len(),
{
    if d.len() == 0 {
        0
    } else {
        digits_value(d.drop_last()) * 10 + (d.last() as int - '0' as int)
    }
}

/// The integer that `s` writes in decimal: an optional sign followed by one
/// or more ASCII digits, with nothing before or after. A `-` sign is read
/// only where `signed`; `+` is read either way.
pub open spec fn decimal_text(s: Seq<char>, signed: bool) -> Option<int> {
    if s.len() > 0 && s[0] == '+' && all_digits(s.drop_first()) {
        Some(digits_value(s.drop_first()))
    } else if signed && s.len() > 0 && s[0] == '-' && all_digits(s.drop_first()) {
        Some(-digits_value(s.drop_first()))
    } else if all_digits(s) {
        Some(digits_value(s))
    } else {
        None
    }
}

/// The integer that `s` writes in decimal, where it lies within `min..=max`.
pub open spec fn integer_text(s: Seq<char>, signed: bool, min: int, max: int) -> Option<int> {
    match decimal_text(s, signed) {
        Some(n) => if min <= n <= max {
            Some(n)
        } else {
            None
        },
        None => None,
    }
}

/// `<u8 as FromStr>::from_str`, called as `str::parse`: an optional sign
/// (`+`) and one or more ASCII decimal digits, nothing else,
/// whose value fits in `u8`; any other text is an error.
#[verifier::external_body]
fn parse_u8(s: &str) -> (r: Option<u8>)
    ensures
        match integer_text(s@, false, u8::MIN as int, u8::MAX as int) {
            Some(n) => r == Some(n as u8),
            None => r is None,
        },
{
    s.parse::<u8>().ok()
}

impl MapKey for u8 {
    open spec fn parses(s: Seq<char>) -> bool {
        integer_text(s, false, u8::MIN as int, u8::MAX as int) is Some
    }

    open spec fn parsed_value(s: Seq<char>, k: u8) -> bool {
        integer_text(s, false, u8::MIN as int, u8::MAX as int) == Some(k as int)
    }

    fn parse_key(s: &str) -> (r: Option<u8>) {
        parse_u8(s)
    }
}

/// `<u16 as FromStr>::from_str`, called as `str::parse`: an optional sign
/// (`+`) and one or more ASCII decimal digits, nothing else,
/// whose value fits in `u16`; any other text is an error.
#[verifier::external_body]
fn parse_u16(s: &str) -> (r: Option<u16>)
    ensures
        match integer_text(s@, false, u16::MIN as int, u16::MAX as int) {
            Some(n) => r == Some(n as u16),
            None => r is None,
        },
{
    s.parse::<u16>().ok()
}

impl MapKey for u16 {
    open spec fn parses(s: Seq<char>) -> bool {
        integer_text(s, false, u16::MIN as int, u16::MAX as int) is Some
    }

    open spec fn parsed_value(s: Seq<char>, k: u16) -> bool {
        integer_text(s, false, u16::MIN as int, u16::MAX as int) == Some(k as int)
    }

    fn parse_key(s: &str) -> (r: Option<u16>) {
        parse_u16(s)
    }
}

/// `<u32 as FromStr>::from_str`, called as `str::parse`: an optional sign
/// (`+`) and one or more ASCII decimal digits, nothing else,
/// whose value fits in `u32`; any other text is an error.
#[verifier::external_body]
fn parse_u32(s: &str) -> (r: Option<u32>)
    ensures
        match integer_text(s@, false, u32::MIN as int, u32::MAX as int) {
            Some(n) => r == Some(n as u32),
            None => r is None,
        },
{
    s.parse::<u32>().ok()
}

impl MapKey for u32 {
    open spec fn parses(s: Seq<char>) -> bool {
        integer_text(s, false, u32::MIN as int, u32::MAX as int) is Some
    }

    open spec fn parsed_value(s: Seq<char>, k: u32) -> bool {
        integer_text(s, false, u32::MIN as int, u32::MAX as int) == Some(k as int)
    }

    fn parse_key(s: &str) -> (r: Option<u32>) {
        parse_u32(s)
    }
}

/// `<u64 as FromStr>::from_str`, called as `str::parse`: an optional sign
/// (`+`) and one or more ASCII decimal digits, nothing else,
/// whose value fits in `u64`; any other text is an error.
#[verifier::external_body]
fn parse_u64(s: &str) -> (r: Option<u64>)
    ensures
        match integer_text(s@, false, u64::MIN as int, u64::MAX as int) {
            Some(n) => r == Some(n as u64),
            None => r is None,
        },
{
    s.parse::<u64>().ok()
}

impl MapKey for u64 {
    open spec fn parses(s: Seq<char>) -> bool {
        integer_text(s, false, u64::MIN as int, u64::MAX as int) is Some
    }

    open spec fn parsed_value(s: Seq<char>, k: u64) -> bool {
        integer_text(s, false, u64::MIN as int, u64::MAX as int) == Some(k as int)
    }

    fn parse_key(s: &str) -> (r: Option<u64>) {
        parse_u64(s)
    }
}

/// `<usize as FromStr>::from_str`, called as `str::parse`: an optional sign
/// (`+`) and one or more ASCII decimal digits, nothing else,
/// whose value fits in `usize`; any other text is an error.
#[verifier::external_body]
fn parse_usize(s: &str) -> (r: Option<usize>)
    ensures
        match integer_text(s@, false, usize::MIN as int, usize::MAX as int) {
            Some(n) => r == Some(n as usize),
            None => r is None,
        },
{
    s.parse::<usize>().ok()
}

impl MapKey for usize {
    open spec fn parses(s: Seq<char>) -> bool {
        integer_text(s, false, usize::MIN as int, usize::MAX as int) is Some
    }

    open spec fn parsed_value(s: Seq<char>, k: usize) -> bool {
        integer_text(s, false, usize::MIN as int, usize::MAX as int) == Some(k as int)
    }

    fn parse_key(s: &str) -> (r: Option<usize>) {
        parse_usize(s)
    }
}

/// `<i8 as FromStr>::from_str`, called as `str::parse`: an optional sign
/// (`+`, or `-`) and one or more ASCII decimal digits, nothing else,
/// whose value fits in `i8`; any other text is an error.
#[verifier::external_body]
fn parse_i8(s: &str) -> (r: Option<i8>)
    ensures
        match integer_text(s@, true, i8::MIN as int, i8::MAX as int) {
            Some(n) => r == Some(n as i8),
            None => r is None,
        },
{
    s.parse::<i8>().ok()
}

impl MapKey for i8 {
    open spec fn parses(s: Seq<char>) -> bool {
        integer_text(s, true, i8::MIN as int, i8::MAX as int) is Some
    }

    open spec fn parsed_value(s: Seq<char>, k: i8) -> bool {
        integer_text(s, true, i8::MIN as int, i8::MAX as int) == Some(k as int)
    }

    fn parse_key(s: &str) -> (r: Option<i8>) {
        parse_i8(s)
    }
}

/// `<i16 as FromStr>::from_str`, called as `str::parse`: an optional sign
/// (`+`, or `-`) and one or more ASCII decimal digits, nothing else,
/// whose value fits in `i16`; any other text is an error.
#[verifier::external_body]
fn parse_i16(s: &str) -> (r: Option<i16>)
    ensures
        match integer_text(s@, true, i16::MIN as int, i16::MAX as int) {
            Some(n) => r == Some(n as i16),
            None => r is None,
        },
{
    s.parse::<i16>().ok()
}

impl MapKey for i16 {
    open spec fn parses(s: Seq<char>) -> bool {
        integer_text(s, true, i16::MIN as int, i16::MAX as int) is Some
    }

    open spec fn parsed_value(s: Seq<char>, k: i16) -> bool {
        integer_text(s, true, i16::MIN as int, i16::MAX as int) == Some(k as int)
    }

    fn parse_key(s: &str) -> (r: Option<i16>) {
        parse_i16(s)
    }
}

/// `<i32 as FromStr>::from_str`, called as `str::parse`: an optional sign
/// (`+`, or `-`) and one or more ASCII decimal digits, nothing else,
/// whose value fits in `i32`; any other text is an error.
#[verifier::external_body]
fn parse_i32(s: &str) -> (r: Option<i32>)
    ensures
        match integer_text(s@, true, i32::MIN as int, i32::MAX as int) {
            Some(n) => r == Some(n as i32),
            None => r is None,
        },
{
    s.parse::<i32>().ok()
}

impl MapKey for i32 {
    open spec fn parses(s: Seq<char>) -> bool {
        integer_text(s, true, i32::MIN as int, i32::MAX as int) is Some
    }

    open spec fn parsed_value(s: Seq<char>, k: i32) -> bool {
        integer_text(s, true, i32::MIN as int, i32::MAX as int) == Some(k as int)
    }

    fn parse_key(s: &str) -> (r: Option<i32>) {
        parse_i32(s)
    }
}

/// `<i64 as FromStr>::from_str`, called as `str::parse`: an optional sign
/// (`+`, or `-`) and one or more ASCII decimal digits, nothing else,
/// whose value fits in `i64`; any other text is an error.
#[verifier::external_body]
fn parse_i64(s: &str) -> (r: Option<i64>)
    ensures
        match integer_text(s@, true, i64::MIN as int, i64::MAX as int) {
            Some(n) => r == Some(n as i64),
            None => r is None,
        },
{
    s.parse::<i64>().ok()
}

impl MapKey for i64 {
    open spec fn parses(s: Seq<char>) -> bool {
        integer_text(s, true, i64::MIN as int, i64::MAX as int) is Some
    }

    open spec fn parsed_value(s: Seq<char>, k: i64) -> bool {
        integer_text(s, true, i64::MIN as int, i64::MAX as int) == Some(k as int)
    }

    fn parse_key(s: &str) -> (r: Option<i64>) {
        parse_i64(s)
    }
}

/// `<isize as FromStr>::from_str`, called as `str::parse`: an optional sign
/// (`+`, or `-`) and one or more ASCII decimal digits, nothing else,
/// whose value fits in `isize`; any other text is an error.
#[verifier::external_body]
fn parse_isize(s: &str) -> (r: Option<isize>)
    ensures
        match integer_text(s@, true, isize::MIN as int, isize::MAX as int) {
            Some(n) => r == Some(n as isize),
            None => r is None,
        },
{
    s.parse::<isize>().ok()
}

impl MapKey for isize {
    open spec fn parses(s: Seq<char>) -> bool {
        integer_text(s, true, isize::MIN as int, isize::MAX as int) is Some
    }

    open spec fn parsed_value(s: Seq<char>, k: isize) -> bool {
        integer_text(s, true, isize::MIN as int, isize::MAX as int) == Some(k as int)
    }

    fn parse_key(s: &str) -> (r: Option<isize>) {
        parse_isize(s)
    }
}

} // verus!
