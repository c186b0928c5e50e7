//! Reading what the remote source says of an ID: whether it names a single
//! item or a collection.
//!
//! Fetching the pages is the caller's part. The pages are parsed and
//! searched by the `scraper` crate, whose work is not proved here; what it
//! finds enters the contracts under the names declared below, and what is
//! made of its findings is proved.

use crate::model::{strings_view, WorkshopCollection, WorkshopItem};
use crate::text::{chars_of, concat, str_starts_with, string_of, trim, trimmed};
use scraper::{Html, Selector};
use vstd::prelude::*;

verus! {

#[verifier::external_type_specification]
#[verifier::external_body]
pub struct ExHtml(Html);

#[verifier::external_type_specification]
#[verifier::external_body]
pub struct ExSelector(Selector);

/// Whether `Selector::parse` accepts `text` as a group of selectors.
pub uninterp spec fn selector_parses(text: Seq<char>) -> bool;

/// The text that `Selector::parse` has parsed a selector from.
pub uninterp spec fn selector_source(selector: Selector) -> Seq<char>;

/// The text that `Html::parse_document` has parsed a document from.
pub uninterp spec fn html_source(document: Html) -> Seq<char>;

/// For the document that `Html::parse_document` makes of `html` and the
/// selector that `Selector::parse` makes of `selector`: the text inside
/// each element that `Html::select` yields, in the order in which it yields
/// them. The text inside an element is that of its descendant text nodes,
/// as `ElementRef::text` gives them, joined.
pub uninterp spec fn selected_texts(html: Seq<char>, selector: Seq<char>) -> Seq<Seq<char>>;

/// For the document that `Html::parse_document` makes of `html` and the
/// selector that `Selector::parse` makes of `selector`: the value of the
/// attribute `name` of each element that `Html::select` yields, in the
/// order in which it yields them, and `None` for an element without that
/// attribute.
pub uninterp spec fn selected_attrs(html: Seq<char>, selector: Seq<char>, name: Seq<char>) -> Seq<
    Option<Seq<char>>,
>;

/// The texts that a list of optional strings holds.
pub open spec fn options_view(v: Seq<Option<String>>) -> Seq<Option<Seq<char>>> {
    Seq::new(
        v.len(),
        |i: int|
            match v[i] {
                Some(s) => Some(s@),
                None => None,
            },
    )
}

/// `Html::parse_document`: parses a text as an HTML document. Parsing never
/// fails; the document stands for the text it came from. Trusted.
#[verifier::external_body]
fn parse_html(text: &str) -> (document: Html)
    ensures
        html_source(document) == text@,
{
    Html::parse_document(text)
}

/// `Selector::parse`: parses a group of CSS selectors. The result is there
/// exactly for the texts that the parser accepts, and stands for the text
/// it came from. Trusted.
#[verifier::external_body]
fn parse_selector(text: &str) -> (selector: Option<Selector>)
    ensures
        selector is Some == selector_parses(text@),
        selector matches Some(s) ==> selector_source(s) == text@,
{
    Selector::parse(text).ok()
}

/// `Html::select` with `ElementRef::text`: the text inside each element of
/// the document that matches the selector. What is found depends on the
/// texts of document and selector alone. Trusted.
#[verifier::external_body]
fn select_texts(document: &Html, selector: &Selector) -> (texts: Vec<String>)
    ensures
        strings_view(texts@) == selected_texts(
            html_source(*document),
            selector_source(*selector),
        ),
{
    document.select(selector).map(|element| element.text().collect::<String>()).collect()
}

/// `Html::select` with `Element::attr`: the value of one attribute of each
/// element of the document that matches the selector. What is found
/// depends on the texts of document and selector and on the attribute's
/// name alone. Trusted.
#[verifier::external_body]
fn select_attrs(document: &Html, selector: &Selector, name: &str) -> (values: Vec<Option<String>>)
    ensures
        options_view(values@) == selected_attrs(
            html_source(*document),
            selector_source(*selector),
            name@,
        ),
{
    document.select(selector).map(|element| element.value().attr(name).map(String::from)).collect()
}

/// The address of the page that lists the changes of `workshop_id`.
pub fn changelog_url(workshop_id: &str) -> (url: String)
    ensures
        url@ == "https://steamcommunity.com/sharedfiles/filedetails/changelog/"@ + workshop_id@,
{
    concat("https://steamcommunity.com/sharedfiles/filedetails/changelog/", workshop_id)
}

/// The address of the page that shows `workshop_id` itself.
pub fn collection_url(workshop_id: &str) -> (url: String)
    ensures
        url@ == "https://steamcommunity.com/sharedfiles/filedetails/?id="@ + workshop_id@,
{
    concat("https://steamcommunity.com/sharedfiles/filedetails/?id=", workshop_id)
}

/// The selector of the element that holds a page's title.
pub open spec fn title_selector() -> Seq<char> {
    ".workshopItemTitle"@
}

/// The selector of the elements that stand for the changes of an item.
pub open spec fn change_selector() -> Seq<char> {
    ".changeLogCtn p[id]"@
}

/// The selector of the elements that stand for the members of a
/// collection.
pub open spec fn member_selector() -> Seq<char> {
    "[id^=\"sharedfile_\"]"@
}

/// The prefix that marks the element of a member on a collection's page.
pub open spec fn member_prefix() -> Seq<char> {
    "sharedfile_"@
}

/// The title of a page whose title elements hold `texts`: the text of the
/// first, without the white space around it, or `Untitled` where the page
/// has no title element.
pub open spec fn title_text(texts: Seq<Seq<char>>) -> Seq<char> {
    if texts.len() > 0 {
        trimmed(texts[0])
    } else {
        "Untitled"@
    }
}

/// The identifier of the newest change, where `ids` are the identifiers of
/// the elements that stand for changes: that of the first.
pub open spec fn newest_change(ids: Seq<Option<Seq<char>>>) -> Option<Seq<char>> {
    if ids.len() > 0 {
        ids[0]
    } else {
        None
    }
}

/// The IDs of the members, where `ids` are the identifiers of the elements
/// that stand for members: of every identifier that begins with the prefix,
/// what follows it; in their order.
pub open spec fn member_ids(ids: Seq<Option<Seq<char>>>) -> Seq<Seq<char>>
    decreases ids.len(),
{
    if ids.len() == 0 {
        Seq::empty()
    } else {
        let front = member_ids(ids.drop_last());
        match ids.last() {
            Some(id) if member_prefix().is_prefix_of(id) => front.push(
                id.skip(member_prefix().len() as int),
            ),
            _ => front,
        }
    }
}

/// What the page of changes tells.
#[derive(Clone, Debug, PartialEq, Eq)]
pub enum ChangelogReading {
    /// The page lists a change: the ID names a single item, and the
    /// identifier of the newest change is the marker of its version.
    Item(WorkshopItem),
    /// The page lists no change: the ID is read as a collection, and the
    /// page of the ID itself is to be fetched.
    NeedsCollectionPage { title: String },
}

/// What a `ChangelogReading` stands for.
pub enum ReadingView {
    Item { id: Seq<char>, title: Seq<char>, changelog_id: Seq<char> },
    NeedsCollectionPage { title: Seq<char> },
}

impl View for ChangelogReading {
    type V = ReadingView;

    open spec fn view(&self) -> ReadingView {
        match *self {
            ChangelogReading::Item(item) => ReadingView::Item {
                id: item.id@,
                title: item.title@,
                changelog_id: item.changelog_id@,
            },
            ChangelogReading::NeedsCollectionPage { title } => ReadingView::NeedsCollectionPage {
                title: title@,
            },
        }
    }
}

/// The reading of the page of changes of `workshop_id`, where `titles` are
/// the texts of its title elements and `changes` the identifiers of its
/// change elements.
pub open spec fn changelog_reading(
    workshop_id: Seq<char>,
    titles: Seq<Seq<char>>,
    changes: Seq<Option<Seq<char>>>,
) -> ReadingView {
    match newest_change(changes) {
        Some(change) => ReadingView::Item {
            id: workshop_id,
            title: title_text(titles),
            changelog_id: change,
        },
        None => ReadingView::NeedsCollectionPage { title: title_text(titles) },
    }
}

/// Reads what was picked out of the page of changes of `workshop_id`.
pub fn read_changelog_page(
    workshop_id: &str,
    titles: &Vec<String>,
    changes: &Vec<Option<String>>,
) -> (reading: ChangelogReading)
    ensures
        reading@ == changelog_reading(workshop_id@, strings_view(titles@), options_view(changes@)),
{
    let title = if titles.len() > 0 {
        assert(strings_view(titles@)[0] == titles@[0]@);
        trim(titles[0].as_str())
    } else {
        String::from_str("Untitled")
    };
    if changes.len() > 0 {
        assert(options_view(changes@)[0] == match changes@[0] {
            Some(s) => Some(s@),
            None => None,
        });
        match &changes[0] {
            Some(change) => {
                return ChangelogReading::Item(
                    WorkshopItem {
                        id: String::from_str(workshop_id),
                        title,
                        changelog_id: change.clone(),
                    },
                );
            },
            None => {},
        }
    }
    ChangelogReading::NeedsCollectionPage { title }
}

/// Reads what was picked out of the page of the collection `workshop_id`:
/// `title` is the title read before, and `ids` are the identifiers of the
/// elements that stand for members.
pub fn read_collection_page(workshop_id: &str, title: String, ids: &Vec<Option<String>>)
    -> (collection: WorkshopCollection)
    ensures
        collection.id@ == workshop_id@,
        collection.title@ == title@,
        strings_view(collection.item_ids@) == member_ids(options_view(ids@)),
{
    let ghost all = options_view(ids@);
    let mut item_ids: Vec<String> = Vec::new();
    let mut i: usize = 0;
    while i < ids.len()
        invariant
            i <= ids.len(),
            all == options_view(ids@),
            strings_view(item_ids@) == member_ids(all.take(i as int)),
        decreases ids.len() - i,
    {
        proof {
            assert(all.take(i + 1).drop_last() =~= all.take(i as int));
            assert(all.take(i + 1).last() == all[i as int]);
            reveal_strlit("sharedfile_");
        }
        match &ids[i] {
            Some(id) => {
                let chars = chars_of(id.as_str());
                if str_starts_with(&chars, "sharedfile_") {
                    let ghost before = strings_view(item_ids@);
                    let member = string_of(&chars, 11, chars.len());
                    assert(chars@.subrange(11, chars.len() as int) =~= chars@.skip(11));
                    item_ids.push(member);
                    assert(strings_view(item_ids@) =~= before.push(chars@.skip(11)));
                }
            },
            None => {},
        }
        i += 1;
    }
    assert(all.take(i as int) =~= all);
    WorkshopCollection { id: String::from_str(workshop_id), title, item_ids }
}

/// The three selectors, parsed once and kept for every lookup.
pub struct Resolver {
    title: Selector,
    change: Selector,
    member: Selector,
}

impl Resolver {
    #[verifier::type_invariant]
    spec fn parsed(&self) -> bool {
        &&& selector_source(self.title) == title_selector()
        &&& selector_source(self.change) == change_selector()
        &&& selector_source(self.member) == member_selector()
    }

    /// Parses the three selectors. There is a resolver exactly when the
    /// parser accepts all three.
    pub fn new() -> (resolver: Option<Resolver>)
        ensures
            resolver is Some == (selector_parses(title_selector()) && selector_parses(
                change_selector(),
            ) && selector_parses(member_selector())),
    {
        let title = parse_selector(".workshopItemTitle");
        let change = parse_selector(".changeLogCtn p[id]");
        let member = parse_selector("[id^=\"sharedfile_\"]");
        match (title, change, member) {
            (Some(title), Some(change), Some(member)) => Some(Resolver { title, change, member }),
            _ => None,
        }
    }

    /// Reads the page of changes of `workshop_id`, given as the text `html`.
    pub fn read_changelog(&self, workshop_id: &str, html: &str) -> (reading: ChangelogReading)
        ensures
            reading@ == changelog_reading(
                workshop_id@,
                selected_texts(html@, title_selector()),
                selected_attrs(html@, change_selector(), "id"@),
            ),
    {
        proof {
            use_type_invariant(self);
        }
        let document = parse_html(html);
        let titles = select_texts(&document, &self.title);
        let changes = select_attrs(&document, &self.change, "id");
        read_changelog_page(workshop_id, &titles, &changes)
    }

    /// Reads the page of the collection `workshop_id`, given as the text
    /// `html`; `title` is the title read from the page of changes.
    pub fn read_collection(&self, workshop_id: &str, title: String, html: &str) -> (collection:
        WorkshopCollection)
        ensures
            collection.id@ == workshop_id@,
            collection.title@ == title@,
            strings_view(collection.item_ids@) == member_ids(
                selected_attrs(html@, member_selector(), "id"@),
            ),
    {
        proof {
            use_type_invariant(self);
        }
        let document = parse_html(html);
        let ids = select_attrs(&document, &self.member, "id");
        read_collection_page(workshop_id, title, &ids)
    }
}

} // verus!
