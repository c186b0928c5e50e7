use workshop_manager::model::{FileInfo, WorkshopMetadata};
use workshop_manager::removal::Removal;
use workshop_manager::store::MetadataStore;

fn file(path: &str, hash: &str) -> FileInfo {
    FileInfo { path: path.to_string(), hash: hash.to_string() }
}

fn member(collections: &[&str]) -> WorkshopMetadata {
    WorkshopMetadata {
        title: "t".to_string(),
        changelog_id: "v".to_string(),
        files: vec![file("f", "d")],
        collection_ids: collections.iter().map(|c| c.to_string()).collect(),
    }
}

fn store_of(entries: &[(&str, &[&str])]) -> MetadataStore {
    let mut store = MetadataStore::new();
    for (id, collections) in entries {
        store.upsert(id.to_string(), member(collections));
    }
    store
}

#[test]
fn a_missing_file_is_passed_over() {
    assert_eq!(file("a", "d").removal_after_exists(false), Removal::SkipMissing);
    assert_eq!(file("a", "").removal_after_exists(false), Removal::SkipMissing);
}

#[test]
fn a_file_without_digest_is_deleted_when_it_exists() {
    assert_eq!(file("a", "").removal_after_exists(true), Removal::Delete);
}

#[test]
fn a_file_with_digest_is_deleted_only_if_unchanged() {
    assert_eq!(file("a", "d").removal_after_exists(true), Removal::AwaitDigest);
    assert_eq!(file("a", "d").removal_after_digest("d"), Removal::Delete);
    assert_eq!(file("a", "d").removal_after_digest("e"), Removal::SkipModified);
}

#[test]
fn removing_a_collection_takes_its_orphans_and_keeps_shared_members() {
    let mut store = store_of(&[
        ("1", &["900"]),
        ("2", &["900", "901"]),
        ("3", &[]),
        ("4", &["901"]),
        ("5", &["900"]),
    ]);
    assert_eq!(store.orphans("900"), vec!["1".to_string(), "5".to_string()]);
    let order = store.removal_order("900");
    assert_eq!(order, vec!["1".to_string(), "5".to_string()]);
    for id in &order {
        assert!(store.remove(id).is_some());
    }
    assert_eq!(store.keys(), vec!["2".to_string(), "3".to_string(), "4".to_string()]);
    assert_eq!(store.get("2"), Some(&member(&["900", "901"])));
}

#[test]
fn removing_an_item_takes_the_item_first() {
    let store = store_of(&[("1", &["2"]), ("2", &["2"]), ("3", &["7"])]);
    assert_eq!(store.removal_order("2"), vec!["2".to_string(), "1".to_string()]);
    assert_eq!(store.orphans("2"), vec!["1".to_string()]);
    assert_eq!(store.removal_order("3"), vec!["3".to_string()]);
    assert!(store.removal_order("8").is_empty());
}

#[test]
fn a_collection_noted_twice_is_still_the_only_one() {
    let store = store_of(&[("1", &["900", "900"]), ("2", &["900", "901", "900"])]);
    assert_eq!(store.orphans("900"), vec!["1".to_string()]);
}
