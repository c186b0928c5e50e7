//! Collections: the members of a collection are brought up to date one
//! after the other, each as a single item that notes the collection it was
//! fetched through. A member that fails does not stop the others; the
//! members that failed are reported at the end.

use crate::model::{strings_view, ParseResult, WorkshopCollection};
use crate::sync::{option_view, RequestView, SyncRequest};
use vstd::prelude::*;

verus! {

/// The request to bring up to date what a lookup found, if it found a
/// single item. A collection found where an item is expected is passed
/// over: collections within collections are not followed.
pub fn member_request(found: ParseResult, collection_id: Option<String>, force: bool) -> (request:
    Option<SyncRequest>)
    ensures
        match found {
            ParseResult::Item(item) => request matches Some(r) && r@ == (RequestView {
                id: item.id@,
                title: item.title@,
                changelog_id: item.changelog_id@,
                collection: option_view(collection_id),
                force,
            }),
            ParseResult::Collection(_) => request is None,
        },
{
    match found {
        ParseResult::Item(item) => Some(SyncRequest { item, collection_id, force }),
        ParseResult::Collection(_) => None,
    }
}

/// How far the run through a collection has come, as contracts see it.
pub struct RunView {
    /// The number of members dealt with.
    pub done: nat,
    /// The IDs of the members that failed, in the order of the collection.
    pub failed: Seq<Seq<char>>,
}

/// A run through the members of a collection.
pub struct CollectionRun {
    done: usize,
    failed: Vec<String>,
}

impl View for CollectionRun {
    type V = RunView;

    closed spec fn view(&self) -> RunView {
        RunView { done: self.done as nat, failed: strings_view(self.failed@) }
    }
}

impl CollectionRun {
    /// A run that has dealt with no member yet.
    pub fn begin() -> (run: CollectionRun)
        ensures
            run@.done == 0,
            run@.failed == Seq::<Seq<char>>::empty(),
    {
        let run = CollectionRun { done: 0, failed: Vec::new() };
        assert(run@.failed =~= Seq::<Seq<char>>::empty());
        run
    }

    /// The member that comes next, or `None` when all are dealt with.
    pub fn next_member<'a>(&self, collection: &'a WorkshopCollection) -> (member: Option<
        &'a String,
    >)
        ensures
            match member {
                Some(id) => self@.done < collection.item_ids.len() && *id
                    == collection.item_ids[self@.done as int],
                None => self@.done >= collection.item_ids.len(),
            },
    {
        if self.done < collection.item_ids.len() {
            Some(&collection.item_ids[self.done])
        } else {
            None
        }
    }

    /// Notes how the member that came next has fared, and moves on. A
    /// member that was passed over counts as one that succeeded. When all
    /// members are dealt with, nothing is noted.
    pub fn settle(&mut self, collection: &WorkshopCollection, succeeded: bool)
        ensures
            old(self)@.done < collection.item_ids.len() ==> final(self)@.done == old(self)@.done
                + 1 && final(self)@.failed == if succeeded {
                old(self)@.failed
            } else {
                old(self)@.failed.push(collection.item_ids[old(self)@.done as int]@)
            },
            old(self)@.done >= collection.item_ids.len() ==> final(self)@ == old(self)@,
    {
        if self.done < collection.item_ids.len() {
            if !succeeded {
                let ghost before = strings_view(self.failed@);
                self.failed.push(collection.item_ids[self.done].clone());
                assert(strings_view(self.failed@) =~= before.push(
                    collection.item_ids[self.done as int]@,
                ));
            }
            self.done += 1;
        }
    }

    /// The IDs of the members that failed, in the order of the collection.
    pub fn finish(self) -> (failed: Vec<String>)
        ensures
            strings_view(failed@) == self@.failed,
    {
        self.failed
    }
}

} // verus!
