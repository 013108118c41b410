use defiant::arena::{Arena, ArenaMap};

#[test]
fn test_alloc_str() {
    let arena = Arena::new();
    let s = arena.alloc_str("hello");
    assert_eq!(s, "hello");
}

#[test]
fn test_alloc_bytes() {
    let arena = Arena::new();
    let bytes = arena.alloc_bytes(b"world");
    assert_eq!(bytes, b"world");
}

#[test]
fn test_alloc_slice() {
    let arena = Arena::new();
    let slice = arena.alloc_slice_copy(&[1, 2, 3, 4, 5]);
    assert_eq!(slice, &[1, 2, 3, 4, 5]);
}

#[test]
fn test_reset() {
    let mut arena = Arena::new();
    let _ = arena.alloc_str("test");
    let before = arena.allocated_bytes();
    assert!(before > 0);

    arena.reset();
    let after = arena.allocated_bytes();
    assert!(after <= usize::MAX);

    let s = arena.alloc_str("after reset");
    assert_eq!(s, "after reset");
}

#[test]
fn test_with_capacity() {
    let arena = Arena::with_capacity(1024);
    let s = arena.alloc_str("test");
    assert_eq!(s, "test");
}

#[test]
fn alloc_helpers_copy_their_input() {
    let arena = Arena::default();
    assert_eq!(arena.alloc_vec(vec![7u32, 8, 9]), &[7, 8, 9]);
    let strs = arena.alloc_string_vec(vec!["a".to_string(), "bc".to_string()]);
    assert_eq!(strs, &["a", "bc"]);
    assert_eq!(arena.alloc_slice_fill_copy(3, 4u8), &[4, 4, 4]);
    assert_eq!(*arena.alloc_value(41i64), 41);
}

#[test]
fn arena_map_doc_example() {
    let entries = [("a", 1), ("b", 2), ("c", 3)];
    let map = ArenaMap::new(&entries);
    assert_eq!(map.get(&"b"), Some(&2));
}

#[test]
fn arena_map_lookups() {
    let entries = [(1u32, "one"), (5, "five"), (9, "nine"), (12, "twelve")];
    let map = ArenaMap::new(&entries);
    assert_eq!(map.len(), 4);
    assert!(!map.is_empty());
    assert_eq!(map.get(&1), Some(&"one"));
    assert_eq!(map.get(&12), Some(&"twelve"));
    assert_eq!(map.get(&0), None);
    assert_eq!(map.get(&6), None);
    assert_eq!(map.get(&13), None);
    assert!(map.contains_key(&9));
    assert!(!map.contains_key(&10));
    assert_eq!(map.keys(), vec![&1, &5, &9, &12]);
    assert_eq!(map.values(), vec![&"one", &"five", &"nine", &"twelve"]);
    assert_eq!(map.iter(), vec![(&1, &"one"), (&5, &"five"), (&9, &"nine"), (&12, &"twelve")]);
    assert_eq!(map.as_slice(), &entries);
}

#[test]
fn arena_map_empty() {
    let map: ArenaMap<u32, u32> = ArenaMap::default();
    assert!(map.is_empty());
    assert_eq!(map.len(), 0);
    assert_eq!(map.get(&3), None);
    assert!(!map.contains_key(&3));
}

#[test]
fn alloc_from_owned_values() {
    let arena = Arena::new();
    let strings = arena.alloc_slice_fill_iter(vec!["x".to_string(), "yz".to_string()]);
    assert_eq!(strings, &["x".to_string(), "yz".to_string()]);
    let zeros: &[u64] = arena.alloc_slice_fill_default(3);
    assert_eq!(zeros, &[0, 0, 0]);
    let s: &str = defiant::ArenaInto::arena_into("owned".to_string(), &arena);
    assert_eq!(s, "owned");
    let b: &[u8] = defiant::ArenaFrom::arena_from(vec![1u8, 2], &arena);
    assert_eq!(b, &[1, 2]);
}
