use core::fmt;

use defiant::enumeration::Enumeration;

fn an_enum() -> Enumeration {
    Enumeration::new(vec![("A", 0), ("B", 1)])
}

#[test]
fn tuple_struct_custom_debug() {
    #[derive(Clone, Copy, PartialEq)]
    struct NewType(i32);
    impl fmt::Debug for NewType {
        fn fmt(&self, f: &mut fmt::Formatter<'_>) -> fmt::Result {
            f.write_str("NewType(custom_debug)")
        }
    }
    let b = an_enum().try_from(1).map(|_| 1).unwrap();
    assert_eq!(format!("{:?}", NewType(b)), "NewType(custom_debug)");
    assert_eq!(format!("{:?}", NewType(42)), "NewType(custom_debug)");
}

#[test]
fn enumeration_lookups() {
    let e = an_enum();
    assert!(e.is_valid(0));
    assert!(e.is_valid(1));
    assert!(!e.is_valid(2));
    assert_eq!(e.from_i32(1), Some("B"));
    assert_eq!(e.from_i32(-1), None);
    assert_eq!(e.try_from(0), Ok("A"));
    assert_eq!(
        e.try_from(9),
        Err(defiant::enumeration::UnknownEnumValue(9))
    );
    assert_eq!(e.default_value(), 0);
    assert_eq!(e.default_name(), "A");
    assert_eq!(e.debug_value(1), "B");
    assert_eq!(e.debug_value(-3), "-3");
}

#[test]
fn enumeration_first_variant_wins_on_shared_value() {
    let e = Enumeration::new(vec![("FIRST", 5), ("ALIAS", 5), ("OTHER", 6)]);
    assert_eq!(e.from_i32(5), Some("FIRST"));
    assert_eq!(e.default_value(), 5);
}
