use defiant::debug::{
    debug_bytes, debug_list, debug_map, debug_option, debug_str, debug_struct, debug_tuple,
    fmt_decimal, fmt_unsigned,
};
use defiant::enumeration::Enumeration;

fn basic_enumeration() -> Enumeration {
    Enumeration::new(vec![("ZERO", 0), ("ONE", 1), ("TWO", 2), ("THREE", 3)])
}

/// The fields of the `Basic` message, in declaration order, as `Debug`
/// writes them.
fn basic_debug(
    enumeration: i32,
    enumeration_map: &[(i32, i32)],
    bytes_map: &[(&str, &[u8])],
) -> String {
    let e = basic_enumeration();
    let enum_entries: Vec<(String, String)> = enumeration_map
        .iter()
        .map(|(k, v)| (fmt_decimal(*k as i64), e.debug_value(*v)))
        .collect();
    let bytes_entries: Vec<(String, String)> = bytes_map
        .iter()
        .map(|(k, v)| (debug_str(k), debug_bytes(v)))
        .collect();
    let fields: Vec<(&str, String)> = vec![
        ("int32", fmt_decimal(0)),
        ("bools", debug_list(&[])),
        ("string", debug_str("")),
        ("optional_string", debug_option(None)),
        ("enumeration", e.debug_value(enumeration)),
        ("enumeration_map", debug_map(&enum_entries)),
        ("string_map", debug_map(&[])),
        ("enumeration_btree_map", debug_map(&[])),
        ("string_btree_map", debug_map(&[])),
        ("oneof", debug_option(None)),
        ("bytes_map", debug_map(&bytes_entries)),
    ];
    debug_struct("Basic", &fields)
}

#[test]
fn basic() {
    let e = basic_enumeration();
    assert_eq!(
        basic_debug(e.default_value(), &[], &[]),
        "Basic { \
         int32: 0, \
         bools: [], \
         string: \"\", \
         optional_string: None, \
         enumeration: ZERO, \
         enumeration_map: {}, \
         string_map: {}, \
         enumeration_btree_map: {}, \
         string_btree_map: {}, \
         oneof: None, \
         bytes_map: {} \
         }"
    );
    assert_eq!(
        basic_debug(42, &[(0, 2)], &[("hello", "world".as_bytes())]),
        "Basic { \
         int32: 0, \
         bools: [], \
         string: \"\", \
         optional_string: None, \
         enumeration: 42, \
         enumeration_map: {0: TWO}, \
         string_map: {}, \
         enumeration_btree_map: {}, \
         string_btree_map: {}, \
         oneof: None, \
         bytes_map: {\"hello\": [119, 111, 114, 108, 100]} \
         }"
    );
}

#[test]
fn tuple_struct() {
    let e = basic_enumeration();
    assert_eq!(debug_tuple("NewType", &[e.debug_value(2)]), "NewType(TWO)");
    assert_eq!(debug_tuple("NewType", &[e.debug_value(42)]), "NewType(42)");
}

#[test]
fn debug_tuple_without_fields_is_the_name() {
    assert_eq!(debug_tuple("Unit", &[]), "Unit");
    assert_eq!(debug_struct("Empty", &[]), "Empty");
}

#[test]
fn debug_str_escapes_quotes_backslashes_and_controls() {
    assert_eq!(debug_str("a\"b\\c\nd\te\r"), "\"a\\\"b\\\\c\\nd\\te\\r\"");
}

#[test]
fn debug_option_wraps_value() {
    assert_eq!(debug_option(Some("TWO")), "Some(TWO)");
    assert_eq!(debug_option(None), "None");
}

#[test]
fn fmt_decimal_signs_and_extremes() {
    assert_eq!(fmt_decimal(0), "0");
    assert_eq!(fmt_decimal(-7), "-7");
    assert_eq!(fmt_decimal(i64::MIN), i64::MIN.to_string());
    assert_eq!(fmt_decimal(i64::MAX), i64::MAX.to_string());
}

#[test]
fn debug_list_and_bytes_match_std() {
    let items = vec!["1".to_string(), "2".to_string(), "3".to_string()];
    assert_eq!(debug_list(&items), format!("{:?}", vec![1, 2, 3]));
    assert_eq!(debug_bytes(&[0, 255, 7]), format!("{:?}", vec![0u8, 255, 7]));
}

#[test]
fn debug_str_matches_std_on_ascii() {
    let all: String = (0u8..128).map(char::from).collect();
    assert_eq!(debug_str(&all), format!("{:?}", all));
    assert_eq!(debug_str("\0\u{1}\u{1f}\u{7f}'"), "\"\\0\\u{1}\\u{1f}\\u{7f}'\"");
    assert_eq!(debug_str("héllo"), format!("{:?}", "héllo"));
}

#[test]
fn fmt_unsigned_matches_std() {
    for v in [0u64, 9, 10, 4_294_967_296, u64::MAX] {
        assert_eq!(fmt_unsigned(v), v.to_string());
    }
}
