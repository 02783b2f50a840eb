use ratelimit_agent::string_map::StringMap;
use ratelimit_agent::text::{
    decimal_text, eq_ignore_ascii_case, signed_decimal_text, starts_with,
};

#[test]
fn decimal_numerals() {
    assert_eq!(decimal_text(0), "0");
    assert_eq!(decimal_text(9), "9");
    assert_eq!(decimal_text(10), "10");
    assert_eq!(decimal_text(1_234_567_890), "1234567890");
    assert_eq!(decimal_text(u64::MAX), "18446744073709551615");
}

#[test]
fn signed_numerals() {
    assert_eq!(signed_decimal_text(0), "0");
    assert_eq!(signed_decimal_text(-1), "-1");
    assert_eq!(signed_decimal_text(1_700_000_001), "1700000001");
    assert_eq!(signed_decimal_text(i64::MAX), "9223372036854775807");
    assert_eq!(signed_decimal_text(i64::MIN), "-9223372036854775808");
}

#[test]
fn prefixes() {
    assert!(starts_with("/api/v1", "/api"));
    assert!(starts_with("/api", "/api"));
    assert!(starts_with("/api", ""));
    assert!(starts_with("", ""));
    assert!(!starts_with("/ap", "/api"));
    assert!(!starts_with("/apx/v1", "/api"));
    assert!(!starts_with("/API", "/api"));
    assert!(starts_with("/caf\u{e9}/x", "/caf\u{e9}"));
    assert!(!starts_with("/caf\u{e8}/x", "/caf\u{e9}"));
}

#[test]
fn ascii_case() {
    assert!(eq_ignore_ascii_case("GET", "get"));
    assert!(eq_ignore_ascii_case("", ""));
    assert!(eq_ignore_ascii_case("aZ@[`{", "Az@[`{"));
    assert!(!eq_ignore_ascii_case("@", "`"));
    assert!(!eq_ignore_ascii_case("[", "{"));
    assert!(!eq_ignore_ascii_case("GET", "GE"));
    assert!(!eq_ignore_ascii_case("GET", "PUT"));
    assert!(!eq_ignore_ascii_case("\u{c9}", "\u{e9}"));
}

#[test]
fn map_gives_back_what_was_put_in() {
    let mut map: StringMap<u32> = StringMap::new();
    assert_eq!(map.get(&"a".to_string()), None);
    map.insert("a".to_string(), 1);
    map.insert("b".to_string(), 2);
    assert_eq!(map.get(&"a".to_string()), Some(&1));
    assert_eq!(map.get(&"b".to_string()), Some(&2));
    assert_eq!(map.get(&"A".to_string()), None);
}

#[test]
fn map_has_each_key_once() {
    let mut map: StringMap<u32> = StringMap::new();
    map.insert("a".to_string(), 1);
    map.insert("b".to_string(), 2);
    map.insert("a".to_string(), 3);
    assert_eq!(map.entries(), &vec![("a".to_string(), 3), ("b".to_string(), 2)]);
}
