use workshop_manager::collection::{member_request, CollectionRun};
use workshop_manager::model::{ParseResult, WorkshopCollection, WorkshopItem};
use workshop_manager::sync::SyncRequest;

fn collection(members: &[&str]) -> WorkshopCollection {
    WorkshopCollection {
        id: "900".to_string(),
        title: "maps".to_string(),
        item_ids: members.iter().map(|m| m.to_string()).collect(),
    }
}

fn item(id: &str) -> WorkshopItem {
    WorkshopItem { id: id.to_string(), title: "t".to_string(), changelog_id: "v".to_string() }
}

#[test]
fn a_member_that_is_an_item_is_requested_with_its_collection() {
    assert_eq!(
        member_request(ParseResult::Item(item("1")), Some("900".to_string()), true),
        Some(SyncRequest { item: item("1"), collection_id: Some("900".to_string()), force: true })
    );
    assert_eq!(
        member_request(ParseResult::Item(item("1")), None, false),
        Some(SyncRequest { item: item("1"), collection_id: None, force: false })
    );
}

#[test]
fn a_member_that_is_a_collection_is_passed_over() {
    assert_eq!(
        member_request(ParseResult::Collection(collection(&["1"])), Some("900".to_string()), false),
        None
    );
}

#[test]
fn a_failed_member_does_not_stop_the_others_and_is_reported() {
    let c = collection(&["1", "2", "3", "4"]);
    let outcomes = [true, false, true, false];
    let mut run = CollectionRun::begin();
    let mut seen = Vec::new();
    while let Some(id) = run.next_member(&c) {
        seen.push(id.clone());
        let ok = outcomes[seen.len() - 1];
        run.settle(&c, ok);
    }
    run.settle(&c, false);
    assert_eq!(seen, c.item_ids);
    assert_eq!(run.finish(), vec!["2".to_string(), "4".to_string()]);
}

#[test]
fn an_empty_collection_has_no_member_and_no_failure() {
    let c = collection(&[]);
    let mut run = CollectionRun::begin();
    assert_eq!(run.next_member(&c), None);
    run.settle(&c, false);
    assert!(run.finish().is_empty());
}
