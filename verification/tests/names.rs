use sonicdisk::names::{u16_tolower, EntryName, EntryNameRef, NameMap};
use sonicdisk::text::{append_decimal, append_signed_decimal, parse_u64, starts_with};
use sonicdisk::wide::name_text;

fn units(text: &str) -> Vec<u16> {
    text.encode_utf16().collect()
}

#[test]
fn ascii_letters_are_lowered() {
    assert_eq!(u16_tolower('A' as u16), 'a' as u16);
    assert_eq!(u16_tolower('Z' as u16), 'z' as u16);
    assert_eq!(u16_tolower('@' as u16), '@' as u16);
    assert_eq!(u16_tolower('[' as u16), '[' as u16);
    assert_eq!(u16_tolower('a' as u16), 'a' as u16);
    // only ASCII has a lower case here
    assert_eq!(u16_tolower(0xC4), 0xC4);
}

#[test]
fn names_differ_without_regard_to_ascii_case() {
    let (a, b, c) = (units("Abbey Road"), units("aBBEY rOAD"), units("Abbey Road."));
    assert!(EntryNameRef::new(&a) == EntryNameRef::new(&b));
    assert!(EntryNameRef::new(&b) == EntryNameRef::new(&a));
    assert!(EntryNameRef::new(&a) != EntryNameRef::new(&c));
    assert!(EntryNameRef::new(&units("\u{e4}")) != EntryNameRef::new(&units("\u{c4}")));
    assert!(EntryNameRef::new(&[]) == EntryNameRef::new(&[]));
}

#[test]
fn equal_names_hash_equal_units() {
    let a = EntryName::from_text("ABBA");
    let b = EntryName::from_text("abba");
    assert!(a == b);
    assert_eq!(a.hash_units(), b.hash_units());
    assert_eq!(a.hash_units(), units("abba"));
    assert_eq!(a.borrow().hash_units(), units("abba"));
    assert!(a.clone() == a);
}

#[test]
fn entry_names_are_utf16() {
    assert_eq!(EntryName::from_text("a\u{1F3B5}").units, vec![0x61, 0xD83C, 0xDFB5]);
    assert_eq!(EntryName::from_text("").units, Vec::<u16>::new());
}

#[test]
fn names_are_decoded_if_they_are_utf16() {
    assert_eq!(name_text(&units("\\Bj\u{f6}rk")), Some(String::from("\\Bj\u{f6}rk")));
    assert_eq!(name_text(&[0xD83C, 0xDFB5]), Some(String::from("\u{1F3B5}")));
    assert_eq!(name_text(&[0xD83C]), None);
    assert_eq!(name_text(&[0xDFB5, 0xD83C]), None);
    assert_eq!(name_text(&[]), Some(String::new()));
}

#[test]
fn map_keeps_the_first_spelling_and_the_last_value() {
    let mut map: NameMap<u32> = NameMap::new();
    assert_eq!(map.insert(EntryName::from_text("Help!"), 1), None);
    assert_eq!(map.insert(EntryName::from_text("Revolver"), 2), None);
    assert_eq!(map.insert(EntryName::from_text("HELP!"), 3), Some(1));
    assert_eq!(map.items.len(), 2);
    assert_eq!(map.items[0].0.units, units("Help!"));
    assert_eq!(map.get(EntryNameRef::new(&units("help!"))), Some(&3));
    assert_eq!(map.get(EntryNameRef::new(&units("revolver"))), Some(&2));
    assert_eq!(map.get(EntryNameRef::new(&units("Let It Be"))), None);
}

#[test]
fn map_forgets_what_is_removed() {
    let mut map: NameMap<u32> = NameMap::new();
    map.insert(EntryName::from_text("a"), 1);
    map.insert(EntryName::from_text("b"), 2);
    assert_eq!(map.remove(EntryNameRef::new(&units("A"))), Some(1));
    assert_eq!(map.remove(EntryNameRef::new(&units("A"))), None);
    assert_eq!(map.get(EntryNameRef::new(&units("a"))), None);
    assert_eq!(map.get(EntryNameRef::new(&units("b"))), Some(&2));
}

#[test]
fn prefixes_are_told() {
    assert!(starts_with("\\ABBA\\Arrival", "\\ABBA"));
    assert!(starts_with("\\ABBA", "\\ABBA"));
    assert!(starts_with("x", ""));
    assert!(!starts_with("\\ABB", "\\ABBA"));
    assert!(!starts_with("\\abba", "\\ABBA"));
    assert!(starts_with("\u{e4}\u{f6}", "\u{e4}"));
}

#[test]
fn numbers_are_written_in_decimal() {
    let mut text = String::from("n=");
    append_decimal(&mut text, 0);
    append_decimal(&mut text, 1024);
    append_decimal(&mut text, u64::MAX);
    assert_eq!(text, "n=0102418446744073709551615");
    let mut text = String::new();
    append_signed_decimal(&mut text, i64::MIN);
    append_signed_decimal(&mut text, 7);
    append_signed_decimal(&mut text, -1);
    assert_eq!(text, "-92233720368547758087-1");
}

#[test]
fn written_numbers_are_read_again() {
    for n in [0, 9, 10, 4096, 123456789, u64::MAX] {
        let mut text = String::new();
        append_decimal(&mut text, n);
        assert_eq!(text, n.to_string());
        assert_eq!(parse_u64(text.as_bytes()), Some(n));
    }
}

#[test]
fn what_is_no_number_is_refused() {
    for bytes in ["", "+", "-", "-1", " 1", "1 ", "1.0", "0x10", "++1", "18446744073709551616"] {
        assert_eq!(parse_u64(bytes.as_bytes()), bytes.parse::<u64>().ok());
        assert_eq!(parse_u64(bytes.as_bytes()), None);
    }
    assert_eq!(parse_u64(b"+12"), Some(12));
    assert_eq!(parse_u64(b"00000000000000000000000000012"), Some(12));
}

#[test]
fn units_of_texts_are_joined_like_the_texts() {
    let mut joined = EntryName::from_text("\\Bj\u{f6}rk").units;
    joined.push('\\' as u16);
    joined.extend(EntryName::from_text("\u{1F3B5}.flac").units);
    assert_eq!(joined, EntryName::from_text("\\Bj\u{f6}rk\\\u{1F3B5}.flac").units);
    assert_eq!(name_text(&joined), Some(String::from("\\Bj\u{f6}rk\\\u{1F3B5}.flac")));
}
