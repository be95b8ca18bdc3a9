use treentern::store::Store;

fn leak(s: &str) -> &'static String {
    Box::leak(Box::new(String::from(s)))
}

#[test]
fn store_positions_follow_first_sight() {
    let mut s: Store<String> = Store::new();
    assert_eq!(s.len(), 0);
    assert_eq!(s.insert(leak("Hello, World")), 0);
    assert_eq!(s.insert(leak("Bonjour")), 1);
    assert_eq!(s.insert(leak("Hello, World")), 0);
    assert_eq!(s.len(), 2);
}

#[test]
fn store_grows_only_on_new_content() {
    let mut s: Store<u64> = Store::new();
    let values: [u64; 6] = [3, 3, 4, 3, 5, 4];
    let expected_len: [usize; 6] = [1, 1, 2, 2, 3, 3];
    for (v, n) in values.iter().zip(expected_len.iter()) {
        let before = s.len();
        s.insert(Box::leak(Box::new(*v)));
        assert!(s.len() >= before);
        assert_eq!(s.len(), *n);
    }
}

#[test]
fn store_keeps_references_stable() {
    let mut s: Store<String> = Store::new();
    let first = leak("first");
    let i = s.insert(first);
    for k in 0..100 {
        s.insert(leak(&format!("v{}", k)));
    }
    assert!(std::ptr::eq(s.get(i), first));
    assert_eq!(s.insert(leak("first")), i);
}

#[test]
fn store_find_reports_presence() {
    let mut s: Store<str> = Store::new();
    assert_eq!(s.find("a"), None);
    s.insert("a");
    s.insert("b");
    assert_eq!(s.find("b"), Some(1));
    assert_eq!(s.find("c"), None);
}
