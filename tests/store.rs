use russ::store::{identity_of, to_decimal, Store, StoreError};

#[test]
fn identity_is_stable() {
    let a = identity_of("https://example.com/feed");
    let b = identity_of("https://example.com/feed");
    assert_eq!(a, b);
    let c = identity_of("https://example.org/feed");
    assert_ne!(a, c);
}

#[test]
fn identity_is_a_decimal_digest() {
    let url = "https://example.com/feed";
    let id = identity_of(url);
    assert_ne!(id, url);
    assert!(!id.is_empty());
    assert!(id.chars().all(|c| c.is_ascii_digit()));
    assert!(id == "0" || !id.starts_with('0'));
}

#[test]
fn decimal_numerals() {
    assert_eq!(to_decimal(0), "0");
    assert_eq!(to_decimal(7), "7");
    assert_eq!(to_decimal(10), "10");
    assert_eq!(to_decimal(1234), "1234");
    assert_eq!(to_decimal(u64::MAX), "18446744073709551615");
}

#[test]
fn save_keeps_first_record() {
    let mut store: Store<String> = Store::new();
    assert!(store.save("k".to_string(), "v1".to_string()));
    assert!(!store.save("k".to_string(), "v2".to_string()));
    assert_eq!(store.load("k"), Ok(&"v1".to_string()));
}

#[test]
fn load_missing_is_not_found() {
    let store: Store<u32> = Store::new();
    assert_eq!(store.load("nothing"), Err(StoreError::NotFound));
    assert!(!store.contains("nothing"));
}

#[test]
fn put_overwrites() {
    let mut store: Store<u32> = Store::new();
    store.put("index".to_string(), 1);
    store.put("index".to_string(), 2);
    assert_eq!(store.load("index"), Ok(&2));
    store.put("other".to_string(), 3);
    assert_eq!(store.load("index"), Ok(&2));
    assert_eq!(store.load("other"), Ok(&3));
}

#[test]
fn remove_deletes_by_key() {
    let mut store: Store<u32> = Store::new();
    store.save("a".to_string(), 1);
    store.save("b".to_string(), 2);
    assert_eq!(store.remove("a"), Some(1));
    assert_eq!(store.remove("a"), None);
    assert_eq!(store.load("a"), Err(StoreError::NotFound));
    assert_eq!(store.load("b"), Ok(&2));
    assert!(store.save("a".to_string(), 5));
    assert_eq!(store.load("a"), Ok(&5));
}

#[test]
fn corrupt_is_its_own_error() {
    assert_ne!(StoreError::Corrupt, StoreError::NotFound);
}
