use workshop_manager::manager::{load_metadata, ManagerError, StoredMetadata, StoredRecord};
use workshop_manager::model::{FileInfo, WorkshopMetadata};
use workshop_manager::store::MetadataStore;

fn record(title: &str, version: &str, paths: &[&str], collections: &[&str]) -> WorkshopMetadata {
    WorkshopMetadata {
        title: title.to_string(),
        changelog_id: version.to_string(),
        files: paths
            .iter()
            .map(|p| FileInfo { path: p.to_string(), hash: format!("hash-of-{}", p) })
            .collect(),
        collection_ids: collections.iter().map(|c| c.to_string()).collect(),
    }
}

#[test]
fn new_store_is_empty() {
    let store = MetadataStore::new();
    assert!(store.is_empty());
    assert_eq!(store.len(), 0);
    assert!(store.get("100").is_none());
    assert!(!store.contains_key("100"));
    assert!(store.keys().is_empty());
}

#[test]
fn upsert_adds_a_new_record_at_the_end() {
    let mut store = MetadataStore::new();
    store.upsert("100".to_string(), record("a", "v1", &["a.bsp"], &[]));
    store.upsert("200".to_string(), record("b", "v1", &["b.bsp"], &[]));
    assert_eq!(store.len(), 2);
    assert_eq!(store.keys(), vec!["100".to_string(), "200".to_string()]);
    assert_eq!(store.get("200"), Some(&record("b", "v1", &["b.bsp"], &[])));
    assert_eq!(store.id_at(1), "200");
    assert_eq!(store.record_at(0), &record("a", "v1", &["a.bsp"], &[]));
}

#[test]
fn upsert_replaces_a_record_in_its_place() {
    let mut store = MetadataStore::new();
    store.upsert("100".to_string(), record("a", "v1", &["a.bsp"], &[]));
    store.upsert("200".to_string(), record("b", "v1", &["b.bsp"], &[]));
    store.upsert("100".to_string(), record("a2", "v2", &["a2.bsp"], &["9"]));
    assert_eq!(store.len(), 2);
    assert_eq!(store.keys(), vec!["100".to_string(), "200".to_string()]);
    assert_eq!(store.get("100"), Some(&record("a2", "v2", &["a2.bsp"], &["9"])));
}

#[test]
fn remove_hands_back_the_record_and_keeps_the_order() {
    let mut store = MetadataStore::new();
    store.upsert("100".to_string(), record("a", "v1", &["a.bsp"], &[]));
    store.upsert("200".to_string(), record("b", "v1", &["b.bsp"], &[]));
    store.upsert("300".to_string(), record("c", "v1", &["c.bsp"], &[]));
    assert_eq!(store.remove("200"), Some(record("b", "v1", &["b.bsp"], &[])));
    assert_eq!(store.keys(), vec!["100".to_string(), "300".to_string()]);
    assert_eq!(store.remove("200"), None);
    assert_eq!(store.len(), 2);
    assert!(!store.contains_key("200"));
    assert!(store.contains_key("300"));
}

#[test]
fn load_of_a_missing_file_gives_an_empty_store() {
    let store = load_metadata(StoredMetadata::Missing).ok().unwrap();
    assert!(store.is_empty());
}

#[test]
fn load_of_a_malformed_file_is_a_corrupt_store() {
    match load_metadata(StoredMetadata::Malformed) {
        Err(ManagerError::CorruptStore) => {}
        _ => panic!("a malformed file must not load"),
    }
}

#[test]
fn load_of_records_keeps_their_order_and_the_later_of_two() {
    let records = vec![
        ("100".to_string(), StoredRecord::of_metadata(&record("a", "v1", &["a.bsp"], &[]))),
        ("200".to_string(), StoredRecord::of_metadata(&record("b", "v1", &["b.bsp"], &[]))),
        ("100".to_string(), StoredRecord::of_metadata(&record("a2", "v2", &[], &[]))),
    ];
    let store = load_metadata(StoredMetadata::Records(records)).ok().unwrap();
    assert_eq!(store.keys(), vec!["100".to_string(), "200".to_string()]);
    assert_eq!(store.get("100"), Some(&record("a2", "v2", &[], &[])));
}

#[test]
fn lists_that_are_missing_are_read_as_empty() {
    let bare = StoredRecord {
        title: "t".to_string(),
        changelog_id: "v".to_string(),
        files: None,
        collection_ids: None,
    };
    assert_eq!(bare.clone().into_metadata(), record("t", "v", &[], &[]));
    let store = load_metadata(StoredMetadata::Records(vec![("7".to_string(), bare)])).ok().unwrap();
    let kept = store.get("7").unwrap();
    assert_eq!(kept.title, "t");
    assert_eq!(kept.changelog_id, "v");
    assert!(kept.files.is_empty());
    assert!(kept.collection_ids.is_empty());
}

#[test]
fn a_stored_record_holds_both_lists() {
    let full = record("a", "v1", &["a.bsp"], &["9"]);
    let stored = StoredRecord::of_metadata(&full);
    assert_eq!(stored.files, Some(full.files.clone()));
    assert_eq!(stored.collection_ids, Some(full.collection_ids.clone()));
    assert_eq!(stored.into_metadata(), full);
    let empty = StoredRecord::of_metadata(&record("a", "v1", &[], &[]));
    assert_eq!(empty.files, Some(vec![]));
    assert_eq!(empty.collection_ids, Some(vec![]));
}

#[test]
fn membership_is_noted_once() {
    let mut r = record("a", "v1", &[], &[]);
    r.add_collection("9");
    r.add_collection("9");
    r.add_collection("8");
    assert_eq!(r.collection_ids, vec!["9".to_string(), "8".to_string()]);
    assert!(!r.is_orphan_of("9"));
    let mut single = record("a", "v1", &[], &[]);
    assert!(!single.is_orphan_of("9"));
    single.add_collection("9");
    assert!(single.is_orphan_of("9"));
    assert!(!single.is_orphan_of("8"));
    assert_eq!(single.duplicate(), single);
}
