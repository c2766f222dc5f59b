use monkeylib::errors::Error;
use monkeylib::store::DiscStore;

#[test]
fn test_put() {
    let mut disc_store = DiscStore::open_in_memory("storedata").ok().unwrap();

    assert!(disc_store.put(&[1, 2], &[2, 3]).is_ok());
}

#[test]
fn test_get() {
    let mut disc_store = DiscStore::open_in_memory("storedata").ok().unwrap();

    assert!(disc_store.put(&[100, 101], &[11, 13]).is_ok());
    assert_eq!(disc_store.get(&[100, 101]), Some(vec![11, 13]));
    assert!(disc_store.get(&[10, 11]).is_none());
}

#[test]
fn put_replaces_and_leaves_other_keys() {
    let mut store = DiscStore::open_in_memory("replace").ok().unwrap();
    assert!(store.put(&[1], &[10]).is_ok());
    assert!(store.put(&[2], &[20]).is_ok());
    assert!(store.put(&[1], &[11, 12]).is_ok());
    assert_eq!(store.get(&[1]), Some(vec![11, 12]));
    assert_eq!(store.get(&[2]), Some(vec![20]));
    assert_eq!(store.get(&[]), None);
    assert_eq!(store.get(&[1]), Some(vec![11, 12]));
}

#[test]
fn flush_keeps_the_entries() {
    let mut store = DiscStore::open_in_memory("flush").ok().unwrap();
    assert!(!store.has_failed());
    assert!(store.flush().is_ok());
    assert!(store.put(&[7], &[]).is_ok());
    assert!(store.flush().is_ok());
    assert_eq!(store.get(&[7]), Some(vec![]));
    assert_eq!(store.get(&[8]), None);
    assert!(!store.has_failed());
}

#[test]
fn open_reports_a_database_error() {
    let result = DiscStore::open("/dev/null/no/store/here");
    match result {
        Err(Error::DBError(message)) => assert!(!message.is_empty()),
        Err(other) => panic!("unexpected error {:?}", other),
        Ok(_) => panic!("a store under /dev/null"),
    }
}

#[test]
fn a_store_in_memory_starts_empty() {
    let mut first = DiscStore::open_in_memory("fresh").ok().unwrap();
    assert!(first.put(&[1], &[2]).is_ok());
    let mut second = DiscStore::open_in_memory("fresh").ok().unwrap();
    assert_eq!(second.get(&[1]), None);
    assert_eq!(second.get(&[]), None);
    assert_eq!(first.get(&[1]), Some(vec![2]));
}
