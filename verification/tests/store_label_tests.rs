use inference_cache::cache::ClassifyError;
use inference_cache::labels::LabelTable;
use inference_cache::store::{CacheEntry, Store};

fn three_labels() -> LabelTable {
    LabelTable::new(vec!["cat".to_string(), "dog".to_string(), "car".to_string()])
}

#[test]
fn lookup_on_empty_store_misses() {
    let store = Store::new();
    assert_eq!(store.lookup(&"anything".to_string()), None);
}

#[test]
fn insert_then_lookup_returns_value() {
    let mut store = Store::new();
    store.insert("k1".to_string(), "v1".to_string());
    assert_eq!(store.lookup(&"k1".to_string()), Some("v1".to_string()));
    assert_eq!(store.lookup(&"k2".to_string()), None);
}

#[test]
fn upsert_is_idempotent() {
    let mut once = Store::new();
    once.insert("id".to_string(), "value".to_string());

    let mut twice = Store::new();
    twice.insert("id".to_string(), "value".to_string());
    twice.insert("id".to_string(), "value".to_string());

    assert_eq!(once.lookup(&"id".to_string()), twice.lookup(&"id".to_string()));
    assert_eq!(twice.lookup(&"id".to_string()), Some("value".to_string()));
    assert_eq!(once.lookup(&"other".to_string()), twice.lookup(&"other".to_string()));
}

#[test]
fn upsert_overwrites_by_id() {
    let mut store = Store::new();
    store.insert("id".to_string(), "old".to_string());
    store.insert("id".to_string(), "new".to_string());
    assert_eq!(store.lookup(&"id".to_string()), Some("new".to_string()));
}

#[test]
fn partition_key_is_the_id() {
    let entry = CacheEntry { id: "ABCD".to_string(), value: "a result".to_string() };
    assert_eq!(entry.partition_key(), "ABCD");
}

#[test]
fn resolve_rejects_zero_and_past_the_end() {
    let table = three_labels();
    assert_eq!(table.resolve(0), Err(ClassifyError::LookupError));
    assert_eq!(table.resolve(4), Err(ClassifyError::LookupError));
}

#[test]
fn resolve_maps_one_based_indices_to_lines() {
    let table = three_labels();
    assert_eq!(table.len(), 3);
    assert_eq!(table.resolve(1), Ok("cat".to_string()));
    assert_eq!(table.resolve(2), Ok("dog".to_string()));
    assert_eq!(table.resolve(3), Ok("car".to_string()));
}
