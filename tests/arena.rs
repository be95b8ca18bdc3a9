use treentern::arena::{Arena, SharedArena};
use treentern::Interned;

#[test]
fn insert_arena() {
    let arena = Box::leak(Box::new(Arena::new()));

    let a = arena.insert_owned(String::from("Hello, World"));
    let b = arena.insert_owned(String::from("Bonjour"));
    let c = arena.insert_owned(String::from("Hello, World"));

    assert_ne!(a, b);
    assert_eq!(a, c);

    assert_eq!(a.as_ptr(), c.as_ptr());
}

#[test]
fn unsized_type() {
    let arena: &mut Arena<str> = Box::leak(Box::new(Arena::new()));

    let a = arena.insert("Hello, World");
    let b = arena.insert("Bonjour");
    let c = arena.insert("Hello, World");

    assert_ne!(a, b);
    assert_eq!(a, c);

    assert_eq!(a.as_ptr(), c.as_ptr());
}

#[test]
fn arena_returns_first_instance_for_equal_content() {
    let arena: &mut Arena<String> = Box::leak(Box::new(Arena::new()));
    let first: &'static String = Box::leak(Box::new(String::from("x")));
    let second: &'static String = Box::leak(Box::new(String::from("x")));
    assert!(!std::ptr::eq(first, second));

    let r1 = arena.insert(first);
    let r2 = arena.insert(second);
    assert!(std::ptr::eq(r1, first));
    assert!(std::ptr::eq(r2, first));
}

#[test]
fn arena_addresses_stay_put_as_it_grows() {
    let arena: &mut Arena<u64> = Box::leak(Box::new(Arena::new()));
    let seven = arena.insert_owned(7);
    for k in 0..1000u64 {
        arena.insert_owned(k + 100);
    }
    let again = arena.insert_owned(7);
    assert!(std::ptr::eq(seven, again));
    assert_eq!(*again, 7);
}

#[test]
fn arena_of_each_scalar_kind() {
    let a: &mut Arena<u128> = Box::leak(Box::new(Arena::new()));
    assert!(std::ptr::eq(a.insert_owned(u128::MAX), a.insert_owned(u128::MAX)));
    let b: &mut Arena<i64> = Box::leak(Box::new(Arena::new()));
    assert!(!std::ptr::eq(b.insert_owned(-1), b.insert_owned(1)));
    let c: &mut Arena<i128> = Box::leak(Box::new(Arena::new()));
    assert!(std::ptr::eq(c.insert_owned(i128::MIN), c.insert_owned(i128::MIN)));
}

#[test]
fn arena_empty_string_is_a_content() {
    let arena: &mut Arena<str> = Box::leak(Box::new(Arena::new()));
    let a = arena.insert("");
    let b = arena.insert(Box::leak(String::new().into_boxed_str()));
    assert!(std::ptr::eq(a, b));
    assert_eq!(a, "");
}

#[test]
fn handles_compare_by_identity() {
    let arena: &mut Arena<String> = Box::leak(Box::new(Arena::new()));
    let a = Interned::new(arena.insert_owned(String::from("same")));
    let b = Interned::new(arena.insert_owned(String::from("same")));
    let c = Interned::new(arena.insert_owned(String::from("other")));
    assert_eq!(a, b);
    assert_ne!(a, c);

    let loose1: &'static String = Box::leak(Box::new(String::from("same")));
    let loose2: &'static String = Box::leak(Box::new(String::from("same")));
    assert_ne!(Interned::new(loose1), Interned::new(loose2));
    assert_eq!(*a, "same");
    assert_eq!(a.get().as_str(), "same");
}

#[test]
fn arena_with_a_chosen_hasher() {
    type Fixed = std::hash::BuildHasherDefault<std::collections::hash_map::DefaultHasher>;
    let arena: &mut Arena<str, Fixed> = Box::leak(Box::new(Arena::default()));
    let a = arena.insert("Hello, World");
    let b = arena.insert("Bonjour");
    let c = arena.insert(Box::leak(String::from("Hello, World").into_boxed_str()));
    assert!(!std::ptr::eq(a, b));
    assert!(std::ptr::eq(a, c));
}

#[test]
fn arena_counts_only_new_contents() {
    let mut arena: Arena<u64> = Arena::new();
    assert_eq!(arena.len(), 0);
    arena.insert_owned(1);
    arena.insert_owned(2);
    arena.insert_owned(1);
    assert_eq!(arena.len(), 2);
    arena.insert_owned(3);
    assert_eq!(arena.len(), 3);
}

#[test]
fn shared_arena_dedups_through_shared_references() {
    let arena: &'static SharedArena<str> = Box::leak(Box::new(SharedArena::new()));
    let a = arena.insert("Hello, World");
    let b = arena.insert("Bonjour");
    let c = arena.insert(Box::leak(String::from("Hello, World").into_boxed_str()));
    assert!(!std::ptr::eq(a, b));
    assert!(std::ptr::eq(a, c));

    let owned: &'static SharedArena<String> = Box::leak(Box::new(SharedArena::new()));
    let e = owned.insert_owned(String::from("Bonjour"));
    let f = owned.insert_owned(String::from("Bonjour"));
    assert!(std::ptr::eq(e, f));
}
