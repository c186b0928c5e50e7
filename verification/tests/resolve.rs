use workshop_manager::model::{WorkshopCollection, WorkshopItem};
use workshop_manager::resolve::{
    changelog_url, collection_url, read_changelog_page, read_collection_page, ChangelogReading,
    Resolver,
};

const ITEM_PAGE: &str = "<html><body>\
    <div class=\"workshopItemTitle\">  De Dust \n</div>\
    <div class=\"changeLogCtn\"><p id=\"1700000002\">second</p></div>\
    <div class=\"changeLogCtn\"><p id=\"1700000001\">first</p><p>no id</p></div>\
    </body></html>";

const COLLECTION_CHANGES: &str = "<html><body>\
    <div class=\"workshopItemTitle\">My <b>Maps</b></div>\
    <div class=\"changeLogCtn\"><p>nothing with an id</p></div>\
    </body></html>";

const COLLECTION_PAGE: &str = "<html><body>\
    <div class=\"workshopItemTitle\">My <b>Maps</b></div>\
    <div id=\"sharedfile_100\">a</div>\
    <div id=\"other_5\">x</div>\
    <div id=\"sharedfile_200\"><span id=\"sharedfile_\">b</span></div>\
    <div id=\"Sharedfile_300\">c</div>\
    </body></html>";

#[test]
fn addresses_of_the_two_pages() {
    assert_eq!(
        changelog_url("100"),
        "https://steamcommunity.com/sharedfiles/filedetails/changelog/100"
    );
    assert_eq!(
        collection_url("100"),
        "https://steamcommunity.com/sharedfiles/filedetails/?id=100"
    );
}

#[test]
fn a_page_with_changes_is_an_item() {
    let resolver = Resolver::new().unwrap();
    assert_eq!(
        resolver.read_changelog("100", ITEM_PAGE),
        ChangelogReading::Item(WorkshopItem {
            id: "100".to_string(),
            title: "De Dust".to_string(),
            changelog_id: "1700000002".to_string(),
        })
    );
}

#[test]
fn a_page_without_changes_asks_for_the_collection() {
    let resolver = Resolver::new().unwrap();
    assert_eq!(
        resolver.read_changelog("900", COLLECTION_CHANGES),
        ChangelogReading::NeedsCollectionPage { title: "My Maps".to_string() }
    );
    assert_eq!(
        resolver.read_changelog("900", "not even html"),
        ChangelogReading::NeedsCollectionPage { title: "Untitled".to_string() }
    );
}

#[test]
fn a_collection_lists_its_members_in_the_order_of_the_page() {
    let resolver = Resolver::new().unwrap();
    assert_eq!(
        resolver.read_collection("900", "My Maps".to_string(), COLLECTION_PAGE),
        WorkshopCollection {
            id: "900".to_string(),
            title: "My Maps".to_string(),
            item_ids: vec!["100".to_string(), "200".to_string(), "".to_string()],
        }
    );
    assert_eq!(
        resolver.read_collection("900", "t".to_string(), "<p>empty</p>").item_ids,
        Vec::<String>::new()
    );
}

#[test]
fn what_was_picked_out_is_read_without_a_page() {
    let titles = vec!["\n first \t".to_string(), "second".to_string()];
    let changes = vec![Some("c2".to_string()), Some("c1".to_string())];
    assert_eq!(
        read_changelog_page("100", &titles, &changes),
        ChangelogReading::Item(WorkshopItem {
            id: "100".to_string(),
            title: "first".to_string(),
            changelog_id: "c2".to_string(),
        })
    );
    assert_eq!(
        read_changelog_page("100", &vec![], &vec![None, Some("c1".to_string())]),
        ChangelogReading::NeedsCollectionPage { title: "Untitled".to_string() }
    );
    assert_eq!(
        read_changelog_page("100", &titles, &vec![]),
        ChangelogReading::NeedsCollectionPage { title: "first".to_string() }
    );
    let ids = vec![
        Some("sharedfile_1".to_string()),
        None,
        Some("sharedfile".to_string()),
        Some("xsharedfile_2".to_string()),
        Some("sharedfile_sharedfile_3".to_string()),
    ];
    assert_eq!(
        read_collection_page("900", "t".to_string(), &ids).item_ids,
        vec!["1".to_string(), "sharedfile_3".to_string()]
    );
}
