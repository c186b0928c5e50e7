//! Removal: what becomes of the files of an item that is taken out of the
//! store, and which items go with a collection.

use crate::integrity::file_intact;
use crate::model::{strings_view, FileInfo, FileInfoView};
use crate::store::{
    distinct_ids, has_id, lemma_map_at, lemma_without, position_of, to_map, without, EntryView,
    MetadataStore,
};
use crate::text::str_eq;
use vstd::prelude::*;

verus! {

/// What is to be done with one file of an item that is being removed.
#[derive(Clone, Copy, Debug, PartialEq, Eq, Structural)]
pub enum Removal {
    /// The caller is to give the digest of the file.
    AwaitDigest,
    /// The file is to be deleted.
    Delete,
    /// The file is gone already; there is nothing to do.
    SkipMissing,
    /// The content is no longer the recorded one. The file stays, and the
    /// caller is to say so.
    SkipModified,
}

/// What the presence of the file settles: a missing file is passed over, a
/// file without a recorded digest is deleted, any other needs its digest.
pub open spec fn removal_after_exists(file: FileInfoView, exists: bool) -> Removal {
    if !exists {
        Removal::SkipMissing
    } else if file.hash.len() == 0 {
        Removal::Delete
    } else {
        Removal::AwaitDigest
    }
}

/// What the digest settles: the file is deleted if its content is the
/// recorded one, and stays otherwise.
pub open spec fn removal_after_digest(file: FileInfoView, digest: Seq<char>) -> Removal {
    if digest == file.hash {
        Removal::Delete
    } else {
        Removal::SkipModified
    }
}

/// What is done with `file` when the cache root holds `cache`.
pub open spec fn removal_of(file: FileInfoView, cache: Map<Seq<char>, Seq<char>>) -> Removal {
    if !cache.contains_key(file.path) {
        Removal::SkipMissing
    } else if file_intact(file, cache) {
        Removal::Delete
    } else {
        Removal::SkipModified
    }
}

/// Answered from the disk, the two questions lead to `removal_of`; and only
/// a file that is intact is ever deleted.
pub proof fn lemma_removal(file: FileInfoView, cache: Map<Seq<char>, Seq<char>>)
    ensures
        removal_of(file, cache) == match removal_after_exists(
            file,
            cache.contains_key(file.path),
        ) {
            Removal::AwaitDigest => removal_after_digest(file, cache[file.path]),
            settled => settled,
        },
        removal_of(file, cache) == Removal::Delete ==> file_intact(file, cache),
{
}

impl FileInfo {
    /// Takes the answer to whether this file exists below the cache root.
    pub fn removal_after_exists(&self, exists: bool) -> (step: Removal)
        ensures
            step == removal_after_exists(self@, exists),
    {
        if !exists {
            Removal::SkipMissing
        } else if self.needs_digest() {
            Removal::AwaitDigest
        } else {
            Removal::Delete
        }
    }

    /// Takes the digest of this file as it lies below the cache root.
    pub fn removal_after_digest(&self, digest: &str) -> (step: Removal)
        ensures
            step == removal_after_digest(self@, digest@),
    {
        if self.matches(digest) {
            Removal::Delete
        } else {
            Removal::SkipModified
        }
    }
}

/// An entry goes with the collection `collection` when it is another item
/// and an orphan of that collection.
pub open spec fn is_orphan_entry(entry: EntryView, collection: Seq<char>) -> bool {
    entry.id != collection && entry.record.is_orphan_of(collection)
}

/// The IDs of the orphans of `collection`, in the order of the store.
pub open spec fn orphans_of(entries: Seq<EntryView>, collection: Seq<char>) -> Seq<Seq<char>>
    decreases entries.len(),
{
    if entries.len() == 0 {
        Seq::empty()
    } else {
        let front = orphans_of(entries.drop_last(), collection);
        if is_orphan_entry(entries.last(), collection) {
            front.push(entries.last().id)
        } else {
            front
        }
    }
}

/// The IDs that the removal of `id` takes out of the store, in the order in
/// which they go: `id` itself if the store holds it, then its orphans.
pub open spec fn removal_order(entries: Seq<EntryView>, id: Seq<char>) -> Seq<Seq<char>> {
    if has_id(entries, id) {
        seq![id] + orphans_of(entries, id)
    } else {
        orphans_of(entries, id)
    }
}

/// The store after the records under `ids` have been taken out one after
/// the other.
pub open spec fn removed_all(entries: Seq<EntryView>, ids: Seq<Seq<char>>) -> Seq<EntryView>
    decreases ids.len(),
{
    if ids.len() == 0 {
        entries
    } else {
        removed_all(without(entries, ids[0]), ids.drop_first())
    }
}

/// An ID is among the orphans exactly when the store holds an orphan entry
/// under it.
pub proof fn lemma_orphans(entries: Seq<EntryView>, collection: Seq<char>, id: Seq<char>)
    ensures
        orphans_of(entries, collection).contains(id) <==> exists|i: int|
            0 <= i < entries.len() && (#[trigger] entries[i]).id == id && is_orphan_entry(
                entries[i],
                collection,
            ),
    decreases entries.len(),
{
    let found = orphans_of(entries, collection);
    if entries.len() > 0 {
        let front = entries.drop_last();
        let last = entries.last();
        lemma_orphans(front, collection, id);
        if found.contains(id) {
            let j = choose|j: int| 0 <= j < found.len() && found[j] == id;
            if is_orphan_entry(last, collection) && j == found.len() - 1 {
                assert(entries[entries.len() - 1] == last);
            } else {
                assert(orphans_of(front, collection)[j] == id);
                let i = choose|i: int|
                    0 <= i < front.len() && (#[trigger] front[i]).id == id && is_orphan_entry(
                        front[i],
                        collection,
                    );
                assert(entries[i] == front[i]);
            }
        }
        if exists|i: int|
            0 <= i < entries.len() && (#[trigger] entries[i]).id == id && is_orphan_entry(
                entries[i],
                collection,
            ) {
            let i = choose|i: int|
                0 <= i < entries.len() && (#[trigger] entries[i]).id == id && is_orphan_entry(
                    entries[i],
                    collection,
                );
            if i == entries.len() - 1 {
                assert(found[found.len() - 1] == id);
            } else {
                assert(front[i] == entries[i]);
                let j = choose|j: int|
                    0 <= j < orphans_of(front, collection).len() && orphans_of(
                        front,
                        collection,
                    )[j] == id;
                assert(found[j] == id);
            }
        }
    }
}

/// Taking records out one after the other removes their IDs from the
/// mapping and leaves every other record as it is.
pub proof fn lemma_removed_all(entries: Seq<EntryView>, ids: Seq<Seq<char>>)
    requires
        distinct_ids(entries),
    ensures
        distinct_ids(removed_all(entries, ids)),
        to_map(removed_all(entries, ids)) == to_map(entries).remove_keys(ids.to_set()),
    decreases ids.len(),
{
    if ids.len() == 0 {
        assert(to_map(entries) =~= to_map(entries).remove_keys(ids.to_set()));
    } else {
        let rest = ids.drop_first();
        lemma_without(entries, ids[0]);
        lemma_removed_all(without(entries, ids[0]), rest);
        assert forall|k: Seq<char>| ids.to_set().contains(k) == (k == ids[0] || rest.to_set().contains(
            k,
        )) by {
            if ids.contains(k) {
                let i = choose|i: int| 0 <= i < ids.len() && ids[i] == k;
                if i > 0 {
                    assert(rest[i - 1] == k);
                }
            }
            if rest.contains(k) {
                let i = choose|i: int| 0 <= i < rest.len() && rest[i] == k;
                assert(ids[i + 1] == k);
            }
            if k == ids[0] {
                assert(ids.contains(k));
            }
        }
        assert(to_map(entries).remove(ids[0]).remove_keys(rest.to_set()) =~= to_map(
            entries,
        ).remove_keys(ids.to_set()));
    }
}

/// The removal of a collection takes out every item whose only collection
/// it is, together with the record under the collection's own ID, and
/// keeps every other record as it is: an item that belongs to another
/// collection as well stays.
pub proof fn lemma_removal_sweeps_orphans(entries: Seq<EntryView>, id: Seq<char>)
    requires
        distinct_ids(entries),
    ensures
        ({
            let after = removed_all(entries, removal_order(entries, id));
            &&& distinct_ids(after)
            &&& forall|k: Seq<char>| #[trigger]
                to_map(after).contains_key(k) <==> to_map(entries).contains_key(k) && k != id
                    && !to_map(entries)[k].is_orphan_of(id)
            &&& forall|k: Seq<char>| #[trigger]
                to_map(after).contains_key(k) ==> to_map(after)[k] == to_map(entries)[k]
        }),
{
    let order = removal_order(entries, id);
    let after = removed_all(entries, order);
    lemma_removed_all(entries, order);
    assert forall|k: Seq<char>| #[trigger]
        to_map(after).contains_key(k) <==> to_map(entries).contains_key(k) && k != id && !to_map(
            entries,
        )[k].is_orphan_of(id) by {
        lemma_orphans(entries, id, k);
        let orphans = orphans_of(entries, id);
        assert(order.contains(k) <==> (k == id && has_id(entries, id)) || orphans.contains(k)) by {
            if has_id(entries, id) {
                if order.contains(k) {
                    let j = choose|j: int| 0 <= j < order.len() && order[j] == k;
                    if j > 0 {
                        assert(orphans[j - 1] == k);
                    }
                }
                if orphans.contains(k) {
                    let j = choose|j: int| 0 <= j < orphans.len() && orphans[j] == k;
                    assert(order[j + 1] == k);
                }
                if k == id {
                    assert(order[0] == k);
                }
            }
        }
        if to_map(entries).contains_key(k) {
            let p = position_of(entries, k);
            lemma_map_at(entries, p);
            if orphans.contains(k) {
                let i = choose|i: int|
                    0 <= i < entries.len() && (#[trigger] entries[i]).id == k && is_orphan_entry(
                        entries[i],
                        id,
                    );
                lemma_map_at(entries, i);
            }
            if k != id && to_map(entries)[k].is_orphan_of(id) {
                assert(is_orphan_entry(entries[p], id));
            }
        } else {
            if orphans.contains(k) {
                let i = choose|i: int|
                    0 <= i < entries.len() && (#[trigger] entries[i]).id == k && is_orphan_entry(
                        entries[i],
                        id,
                    );
                assert(has_id(entries, k));
            }
        }
    }
}

impl MetadataStore {
    /// The IDs of the orphans of `collection`, in the order of the store.
    pub fn orphans(&self, collection: &str) -> (ids: Vec<String>)
        ensures
            strings_view(ids@) == orphans_of(self@, collection@),
    {
        let mut ids: Vec<String> = Vec::new();
        let mut i: usize = 0;
        while i < self.len()
            invariant
                i <= self@.len(),
                strings_view(ids@) == orphans_of(self@.take(i as int), collection@),
            decreases self@.len() - i,
        {
            let ghost before = strings_view(ids@);
            proof {
                assert(self@.take(i + 1).drop_last() =~= self@.take(i as int));
                assert(self@.take(i + 1).last() == self@[i as int]);
            }
            if !str_eq(self.id_at(i).as_str(), collection) && self.record_at(i).is_orphan_of(
                collection,
            ) {
                ids.push(self.id_at(i).clone());
                assert(strings_view(ids@) =~= before.push(self@[i as int].id));
            }
            i += 1;
        }
        assert(self@.take(i as int) =~= self@);
        ids
    }

    /// The IDs that the removal of `id` takes out of the store, in the
    /// order in which they go.
    pub fn removal_order(&self, id: &str) -> (ids: Vec<String>)
        ensures
            strings_view(ids@) == removal_order(self@, id@),
    {
        let mut ids: Vec<String> = Vec::new();
        if self.contains_key(id) {
            ids.push(String::from_str(id));
        }
        let ghost head = strings_view(ids@);
        let mut orphans = self.orphans(id);
        let ghost tail = strings_view(orphans@);
        ids.append(&mut orphans);
        assert(strings_view(ids@) =~= head + tail);
        assert(head =~= if has_id(self@, id@) {
            seq![id@]
        } else {
            Seq::empty()
        });
        ids
    }
}

} // verus!
