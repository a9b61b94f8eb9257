use rmidimap::util::number::{
    decimal_string, parse_signed, parse_unsigned, signed_decimal_string, to_chars, IntErrorKind,
};
use rmidimap::util::range::parse_range;
use rmidimap::util::smartset::{parse_int_set, SetItem};
use rmidimap::util::text::{contains_chars, find_char};
use rmidimap::util::time::Span;
use rmidimap::util::remap::Remapped;
use rmidimap::util::{map_opt_tryfrom, map_tryfrom, Range, Remapper, SmartSet};
use std::collections::BTreeSet;

fn set_of(values: &[u16]) -> BTreeSet<u16> {
    values.iter().copied().collect()
}

#[test]
fn set_literal_of_the_document() {
    let s = parse_int_set("0,2,5:7,9-11", 255).unwrap();
    assert_eq!(s, set_of(&[0, 2, 5, 6, 7, 9, 10, 11]));
}

#[test]
fn set_literal_single_and_ranges() {
    assert_eq!(parse_int_set("5", 255).unwrap(), set_of(&[5]));
    assert_eq!(parse_int_set("+5", 255).unwrap(), set_of(&[5]));
    assert_eq!(parse_int_set("5:7", 255).unwrap(), set_of(&[5, 6, 7]));
    assert_eq!(parse_int_set("5-7", 255).unwrap(), set_of(&[5, 6, 7]));
    assert_eq!(parse_int_set("7:5", 255).unwrap(), set_of(&[5, 6, 7]));
    assert_eq!(parse_int_set("3:3", 255).unwrap(), set_of(&[3]));
    assert_eq!(parse_int_set("1,1,1", 255).unwrap(), set_of(&[1]));
    assert_eq!(parse_int_set("0:255", 255).unwrap().len(), 256);
    assert_eq!(parse_int_set("0:65535", 65535).unwrap().len(), 65536);
    assert_eq!(parse_int_set("007", 255).unwrap(), set_of(&[7]));
}

#[test]
fn set_literal_empty_items() {
    assert_eq!(parse_int_set("", 255).unwrap(), set_of(&[]));
    assert_eq!(parse_int_set(",", 255).unwrap(), set_of(&[]));
    assert_eq!(parse_int_set("1,,2,", 255).unwrap(), set_of(&[1, 2]));
}

#[test]
fn set_literal_errors() {
    assert_eq!(parse_int_set("a", 255), Err(IntErrorKind::InvalidDigit));
    assert_eq!(parse_int_set("1, 2", 255), Err(IntErrorKind::InvalidDigit));
    assert_eq!(parse_int_set("-", 255), Err(IntErrorKind::Empty));
    assert_eq!(parse_int_set("5:", 255), Err(IntErrorKind::Empty));
    assert_eq!(parse_int_set(":5", 255), Err(IntErrorKind::Empty));
    assert_eq!(parse_int_set("+", 255), Err(IntErrorKind::InvalidDigit));
    assert_eq!(parse_int_set("256", 255), Err(IntErrorKind::PosOverflow));
    assert_eq!(parse_int_set("1:300", 255), Err(IntErrorKind::PosOverflow));
    assert_eq!(parse_int_set("65536", 65535), Err(IntErrorKind::PosOverflow));
    assert_eq!(parse_int_set("999x", 255), Err(IntErrorKind::PosOverflow));
    assert_eq!(parse_int_set("25x", 255), Err(IntErrorKind::InvalidDigit));
    assert_eq!(parse_int_set("1:2:3", 255), Err(IntErrorKind::InvalidDigit));
    assert_eq!(parse_int_set("1-2-3", 255), Err(IntErrorKind::InvalidDigit));
    assert_eq!(parse_int_set("300,a", 255), Err(IntErrorKind::PosOverflow));
    assert_eq!(parse_int_set("a,300", 255), Err(IntErrorKind::InvalidDigit));
}

#[test]
fn smart_set_basics() {
    let s = SmartSet::new();
    assert_eq!(s.len(), 0);
    assert!(!s.contains(0));
    let s = SmartSet::from_str("3,1,2", 255).unwrap();
    assert_eq!(s.len(), 3);
    assert!(s.contains(2));
    assert!(!s.contains(4));
    assert_eq!(s.to_vec(), vec![1, 2, 3]);
    let s = SmartSet::span(0, 15);
    assert_eq!(s.len(), 16);
    assert_eq!(s.to_vec(), (0u16..=15).collect::<Vec<u16>>());
    assert_eq!(SmartSet::from_number(5, 255).unwrap().set, set_of(&[5]));
    assert!(matches!(SmartSet::from_number(-1, 255), Err(IntErrorKind::NegOverflow)));
    assert!(matches!(SmartSet::from_number(256, 255), Err(IntErrorKind::PosOverflow)));
}

#[test]
fn smart_set_from_list() {
    let items = vec![
        SetItem::Number(0),
        SetItem::Text("2,5:7".to_string()),
        SetItem::Number(9),
        SetItem::Text("10-11".to_string()),
    ];
    let s = SmartSet::from_items(&items, 255).unwrap();
    assert_eq!(s.set, set_of(&[0, 2, 5, 6, 7, 9, 10, 11]));
    assert_eq!(SmartSet::from_items(&[], 255).unwrap().len(), 0);
    let bad = vec![SetItem::Number(1), SetItem::Text("x".to_string()), SetItem::Number(999)];
    assert!(matches!(SmartSet::from_items(&bad, 255), Err(IntErrorKind::InvalidDigit)));
    let bad = vec![SetItem::Number(999), SetItem::Text("x".to_string())];
    assert!(matches!(SmartSet::from_items(&bad, 255), Err(IntErrorKind::PosOverflow)));
}

#[test]
fn set_literal_written() {
    assert_eq!(SmartSet::new().to_literal(), "");
    assert_eq!(SmartSet::from_str("7", 255).unwrap().to_literal(), "7");
    assert_eq!(
        SmartSet::from_str("0,2,5:7,9-11", 255).unwrap().to_literal(),
        "0,2,5,6,7,9,10,11"
    );
    assert_eq!(SmartSet::from_str("300,20,1000", 65535).unwrap().to_literal(), "20,300,1000");
}

#[test]
fn set_literal_read_written_read() {
    for literal in ["", "5", "0,2,5:7,9-11", "255:250,3", "1,,1", "0:255", "12-12"] {
        let first = SmartSet::from_str(literal, 255).unwrap();
        let second = SmartSet::from_str(&first.to_literal(), 255).unwrap();
        assert_eq!(first.set, second.set);
        assert_eq!(first.to_literal(), second.to_literal());
    }
}

#[test]
fn range_literal() {
    let r = parse_range("0-100").unwrap();
    assert_eq!((r.start(), r.end()), (0, 100));
    let r = parse_range("5:7").unwrap();
    assert_eq!((r.start, r.end), (5, 7));
    let r = parse_range("100:0").unwrap();
    assert_eq!((r.start, r.end), (100, 0));
    let r = parse_range("42").unwrap();
    assert_eq!((r.start, r.end), (42, 42));
    let r = parse_range("-5:-3").unwrap();
    assert_eq!((r.start, r.end), (-5, -3));
    let r = parse_range("5--3").unwrap();
    assert_eq!((r.start, r.end), (5, -3));
    let r = parse_range("-9223372036854775808:9223372036854775807").unwrap();
    assert_eq!((r.start, r.end), (i64::MIN, i64::MAX));
}

#[test]
fn range_literal_errors() {
    assert_eq!(parse_range("").unwrap_err(), IntErrorKind::Empty);
    assert_eq!(parse_range("-5").unwrap_err(), IntErrorKind::Empty);
    assert_eq!(parse_range("1:").unwrap_err(), IntErrorKind::Empty);
    assert_eq!(parse_range("a:1").unwrap_err(), IntErrorKind::InvalidDigit);
    assert_eq!(parse_range("0.5:1").unwrap_err(), IntErrorKind::InvalidDigit);
    assert_eq!(parse_range("0:9223372036854775808").unwrap_err(), IntErrorKind::PosOverflow);
    assert_eq!(parse_range("-9223372036854775809:0").unwrap_err(), IntErrorKind::NegOverflow);
}

#[test]
fn range_accessors() {
    let r = Range::new(3u8, 9u8);
    assert_eq!(r.start(), 3);
    assert_eq!(r.end(), 9);
}

#[test]
fn remap_formula() {
    let r = Remapper::new(Range::new(0, 127), Range::new(0, 100));
    assert_eq!((r.src().start, r.src().end), (0, 127));
    assert_eq!((r.dst().start, r.dst().end), (0, 100));
    assert_eq!(r.remap(0), Remapped::At(0));
    assert_eq!(r.remap(127), Remapped::At(100));
    assert_eq!(r.remap(100), Remapped::At(78));
    assert_eq!(r.remap(64), Remapped::At(50));
    assert_eq!(r.remap_to(100), Some(78));
    assert_eq!(r.remap(200), Remapped::At(157));
    assert_eq!(r.remap(-1), Remapped::At(0));
    assert_eq!(r.remap(-127), Remapped::At(-100));
}

#[test]
fn remap_rounds_toward_zero() {
    let r = Remapper::new(Range::new(0, 127), Range::new(-50, 50));
    assert_eq!(r.remap_to(0), Some(-50));
    assert_eq!(r.remap_to(127), Some(50));
    assert_eq!(r.remap_to(63), Some(0));
    assert_eq!(r.remap_to(64), Some(0));
    assert_eq!(r.remap_to(1), Some(-49));
    let inverse = Remapper::new(Range::new(0, 127), Range::new(100, 0));
    assert_eq!(inverse.remap_to(0), Some(100));
    assert_eq!(inverse.remap_to(127), Some(0));
    assert_eq!(inverse.remap_to(100), Some(21));
    let backwards = Remapper::new(Range::new(127, 0), Range::new(0, 100));
    assert_eq!(backwards.remap_to(127), Some(0));
    assert_eq!(backwards.remap_to(0), Some(100));
    assert_eq!(backwards.remap_to(27), Some(78));
}

#[test]
fn remap_saturates() {
    let r = Remapper::new(Range::new(0, 1), Range::new(0, i64::MAX));
    assert_eq!(r.remap_to(1), Some(i64::MAX));
    assert_eq!(r.remap_to(2), Some(i64::MAX));
    assert_eq!(r.remap_to(i32::MAX), Some(i64::MAX));
    assert_eq!(r.remap_to(-1), Some(-i64::MAX));
    assert_eq!(r.remap_to(-2), Some(i64::MIN));
    assert_eq!(r.remap_to(i32::MIN), Some(i64::MIN));
    assert_eq!(r.remap(2), Remapped::At(2 * (i64::MAX as i128)));
    let wide = Remapper::new(Range::new(i32::MIN, i32::MAX), Range::new(i64::MIN, i64::MAX));
    assert_eq!(wide.remap_to(i32::MIN), Some(i64::MIN));
    assert_eq!(wide.remap_to(i32::MAX), Some(i64::MAX));
    for v in [i32::MIN, -1, 0, 1, 65535, i32::MAX] {
        assert!(wide.remap_to(v).is_some());
    }
}

#[test]
fn remap_of_a_point_range() {
    let r = Remapper::new(Range::new(127, 127), Range::new(0, 100));
    assert_eq!(r.remap(127), Remapped::Nowhere);
    assert_eq!(r.remap(128), Remapped::Above);
    assert_eq!(r.remap(0), Remapped::Below);
    assert_eq!(r.remap_to(127), Some(0));
    assert_eq!(r.remap_to(128), Some(i64::MAX));
    assert_eq!(r.remap_to(0), Some(i64::MIN));
    let down = Remapper::new(Range::new(5, 5), Range::new(100, 0));
    assert_eq!(down.remap_to(7), Some(i64::MIN));
    assert_eq!(down.remap_to(3), Some(i64::MAX));
    assert_eq!(down.remap_to(5), Some(0));
    let flat = Remapper::new(Range::new(0, 0), Range::new(9, 9));
    assert_eq!(flat.remap(0), Remapped::Nowhere);
    assert_eq!(flat.remap(77), Remapped::Nowhere);
    assert_eq!(flat.remap_to(77), Some(0));
    for v in [i32::MIN, -1, 0, 1, 127, i32::MAX] {
        assert!(r.remap_to(v).is_some());
        assert!(down.remap_to(v).is_some());
        assert!(flat.remap_to(v).is_some());
    }
}

#[test]
fn decimal_text() {
    assert_eq!(decimal_string(0), "0");
    assert_eq!(decimal_string(7), "7");
    assert_eq!(decimal_string(10), "10");
    assert_eq!(decimal_string(65535), "65535");
    assert_eq!(decimal_string(u64::MAX), "18446744073709551615");
    assert_eq!(signed_decimal_string(0), "0");
    assert_eq!(signed_decimal_string(-1), "-1");
    assert_eq!(signed_decimal_string(i64::MAX), "9223372036854775807");
    assert_eq!(signed_decimal_string(i64::MIN), "-9223372036854775808");
    assert_eq!(to_chars("aé7"), vec!['a', 'é', '7']);
}

#[test]
fn numbers_read() {
    let t = to_chars("x+12y");
    assert_eq!(parse_unsigned(&t, 1, 4, 255), Ok(12));
    assert_eq!(parse_unsigned(&t, 2, 4, 255), Ok(12));
    assert_eq!(parse_unsigned(&t, 2, 4, 11), Err(IntErrorKind::PosOverflow));
    assert_eq!(parse_unsigned(&t, 0, 4, 255), Err(IntErrorKind::InvalidDigit));
    assert_eq!(parse_unsigned(&t, 2, 2, 255), Err(IntErrorKind::Empty));
    assert_eq!(parse_unsigned(&t, 1, 2, 255), Err(IntErrorKind::InvalidDigit));
    let t = to_chars("-12");
    assert_eq!(parse_unsigned(&t, 0, 3, 255), Err(IntErrorKind::InvalidDigit));
    assert_eq!(parse_signed(&t, 0, 3), Ok(-12));
    assert_eq!(parse_signed(&t, 1, 3), Ok(12));
    assert_eq!(parse_signed(&t, 0, 1), Err(IntErrorKind::InvalidDigit));
    assert_eq!(parse_unsigned(&to_chars("18446744073709551615"), 0, 20, u64::MAX), Ok(u64::MAX));
    assert_eq!(
        parse_unsigned(&to_chars("18446744073709551616"), 0, 20, u64::MAX),
        Err(IntErrorKind::PosOverflow)
    );
}

#[test]
fn text_search() {
    let t = to_chars("a,b,,c");
    assert_eq!(find_char(&t, ',', 0, 6), 1);
    assert_eq!(find_char(&t, ',', 2, 6), 3);
    assert_eq!(find_char(&t, ',', 4, 6), 4);
    assert_eq!(find_char(&t, ',', 5, 6), 6);
    assert_eq!(find_char(&t, 'x', 0, 6), 6);
    assert_eq!(find_char(&t, 'c', 0, 5), 5);
    assert!(contains_chars(&to_chars("Keystation 49"), &to_chars("Keystation")));
    assert!(contains_chars(&to_chars("Keystation 49"), &to_chars("49")));
    assert!(contains_chars(&to_chars("Keystation 49"), &to_chars("")));
    assert!(contains_chars(&to_chars(""), &to_chars("")));
    assert!(!contains_chars(&to_chars("Other"), &to_chars("Keystation")));
    assert!(!contains_chars(&to_chars("abc"), &to_chars("abcd")));
    assert!(!contains_chars(&to_chars("aab"), &to_chars("abb")));
    assert!(contains_chars(&to_chars("aaab"), &to_chars("aab")));
}

#[test]
fn spans() {
    assert_eq!(Span::new(1, 2_500_000_000), Some(Span { secs: 3, nanos: 500_000_000 }));
    assert_eq!(Span::new(u64::MAX, 1_000_000_000), None);
    assert_eq!(Span::zero(), Span { secs: 0, nanos: 0 });
    let a = Span { secs: 1, nanos: 600_000_000 };
    let b = Span { secs: 2, nanos: 700_000_000 };
    assert!(a.shorter_than(&b));
    assert!(!b.shorter_than(&a));
    assert!(!a.shorter_than(&a));
    assert_eq!(a.checked_add(&b), Some(Span { secs: 4, nanos: 300_000_000 }));
    assert_eq!(b.checked_sub(&a), Some(Span { secs: 1, nanos: 100_000_000 }));
    assert_eq!(a.checked_sub(&b), None);
    assert_eq!(a.checked_sub(&a), Some(Span { secs: 0, nanos: 0 }));
    let c = Span { secs: 3, nanos: 100_000_000 };
    assert_eq!(c.checked_sub(&a), Some(Span { secs: 1, nanos: 500_000_000 }));
    let top = Span { secs: u64::MAX, nanos: 999_999_999 };
    assert_eq!(top.checked_add(&Span { secs: 0, nanos: 1 }), None);
    assert_eq!(top.checked_add(&Span::zero()), Some(top));
}

#[test]
fn lists_converted() {
    let r: Result<Vec<u8>, _> = map_tryfrom(vec![1u32, 2, 255]);
    assert_eq!(r.unwrap(), vec![1u8, 2, 255]);
    let r: Result<Vec<u8>, _> = map_tryfrom(vec![1u32, 256, 3]);
    assert!(r.is_err());
    let r: Result<Option<Vec<u8>>, _> = map_opt_tryfrom(Some(vec![7u32]));
    assert_eq!(r.unwrap(), Some(vec![7u8]));
    let r: Result<Option<Vec<u8>>, _> = map_opt_tryfrom(None::<Vec<u32>>);
    assert_eq!(r.unwrap(), None);
    let r: Result<Option<Vec<u8>>, _> = map_opt_tryfrom(Some(vec![300u32]));
    assert!(r.is_err());
}
