//! The metadata store: the records of all items that are present locally,
//! each under the item's ID. The store keeps its records in the order in
//! which their IDs first came in, and holds no ID twice.

use crate::model::{strings_view, MetadataView, WorkshopMetadata};
use crate::text::str_eq;
use vstd::prelude::*;

verus! {

/// One record of the store under its ID, as contracts see it.
pub struct EntryView {
    pub id: Seq<char>,
    pub record: MetadataView,
}

/// The IDs of `entries`, in order.
pub open spec fn ids_of(entries: Seq<EntryView>) -> Seq<Seq<char>> {
    Seq::new(entries.len(), |i: int| entries[i].id)
}

/// No two of `entries` have the same ID.
pub open spec fn distinct_ids(entries: Seq<EntryView>) -> bool {
    forall|i: int, j: int|
        0 <= i < j < entries.len() ==> (#[trigger] entries[i]).id != (#[trigger] entries[j]).id
}

/// Whether `entries` holds a record under `id`.
pub open spec fn has_id(entries: Seq<EntryView>, id: Seq<char>) -> bool {
    exists|i: int| 0 <= i < entries.len() && (#[trigger] entries[i]).id == id
}

/// A place at which `entries` holds `id`, where there is one.
pub open spec fn position_of(entries: Seq<EntryView>, id: Seq<char>) -> int {
    choose|i: int| 0 <= i < entries.len() && (#[trigger] entries[i]).id == id
}

/// The mapping from ID to record that `entries` stands for.
pub open spec fn to_map(entries: Seq<EntryView>) -> Map<Seq<char>, MetadataView> {
    Map::new(
        |id: Seq<char>| has_id(entries, id),
        |id: Seq<char>| entries[position_of(entries, id)].record,
    )
}

/// `entries` with `record` under `id`: in the place of the record that was
/// there under that ID, or at the end where there was none.
pub open spec fn put(entries: Seq<EntryView>, id: Seq<char>, record: MetadataView) -> Seq<
    EntryView,
> {
    if has_id(entries, id) {
        entries.update(position_of(entries, id), EntryView { id, record })
    } else {
        entries.push(EntryView { id, record })
    }
}

/// `entries` without the record under `id`.
pub open spec fn without(entries: Seq<EntryView>, id: Seq<char>) -> Seq<EntryView> {
    if has_id(entries, id) {
        entries.remove(position_of(entries, id))
    } else {
        entries
    }
}

/// In a store without repeated IDs, the record that the mapping gives for
/// the ID at place `i` is the record at place `i`.
pub proof fn lemma_map_at(entries: Seq<EntryView>, i: int)
    requires
        distinct_ids(entries),
        0 <= i < entries.len(),
    ensures
        has_id(entries, entries[i].id),
        position_of(entries, entries[i].id) == i,
        to_map(entries).contains_key(entries[i].id),
        to_map(entries)[entries[i].id] == entries[i].record,
{
    let p = position_of(entries, entries[i].id);
    assert(entries[p].id == entries[i].id);
    if p < i {
        assert(entries[p].id != entries[i].id);
    } else if i < p {
        assert(entries[i].id != entries[p].id);
    }
}

/// Putting a record under an ID is an insertion into the mapping, and keeps
/// the IDs distinct.
pub proof fn lemma_put(entries: Seq<EntryView>, id: Seq<char>, record: MetadataView)
    requires
        distinct_ids(entries),
    ensures
        distinct_ids(put(entries, id, record)),
        to_map(put(entries, id, record)) == to_map(entries).insert(id, record),
        ids_of(put(entries, id, record)) == if has_id(entries, id) {
            ids_of(entries)
        } else {
            ids_of(entries).push(id)
        },
{
    let after = put(entries, id, record);
    if has_id(entries, id) {
        let p = position_of(entries, id);
        assert forall|i: int, j: int| 0 <= i < j < after.len() implies (#[trigger] after[i]).id != (
        #[trigger] after[j]).id by {
            assert(after[i].id == entries[i].id);
            assert(after[j].id == entries[j].id);
        }
        assert(ids_of(after) =~= ids_of(entries));
        assert forall|k: Seq<char>| has_id(after, k) == (k == id || has_id(entries, k)) by {
            if has_id(after, k) {
                let i = position_of(after, k);
                assert(entries[i].id == after[i].id);
            }
            if has_id(entries, k) {
                let i = position_of(entries, k);
                assert(after[i].id == k);
            }
            if k == id {
                assert(after[p].id == id);
            }
        }
        assert forall|k: Seq<char>| has_id(after, k) implies to_map(after)[k] == to_map(
            entries,
        ).insert(id, record)[k] by {
            let i = position_of(after, k);
            lemma_map_at(after, i);
            assert(after[i].id == entries[i].id);
            lemma_map_at(entries, i);
            if k == id {
                lemma_map_at(entries, p);
                assert(i == p);
            } else {
                assert(i != p);
            }
        }
        assert(to_map(after) =~= to_map(entries).insert(id, record));
    } else {
        let last = entries.len() as int;
        assert forall|i: int, j: int| 0 <= i < j < after.len() implies (#[trigger] after[i]).id != (
        #[trigger] after[j]).id by {
            if j == last {
                assert(entries[i].id != id);
            }
        }
        assert(ids_of(after) =~= ids_of(entries).push(id));
        assert forall|k: Seq<char>| has_id(after, k) == (k == id || has_id(entries, k)) by {
            if has_id(after, k) {
                let i = position_of(after, k);
                if i < last {
                    assert(entries[i].id == k);
                }
            }
            if has_id(entries, k) {
                let i = position_of(entries, k);
                assert(after[i].id == k);
            }
            if k == id {
                assert(after[last].id == id);
            }
        }
        assert forall|k: Seq<char>| has_id(after, k) implies to_map(after)[k] == to_map(
            entries,
        ).insert(id, record)[k] by {
            let i = position_of(after, k);
            lemma_map_at(after, i);
            if i < last {
                assert(after[i] == entries[i]);
                lemma_map_at(entries, i);
            }
        }
        assert(to_map(after) =~= to_map(entries).insert(id, record));
    }
}

/// Taking the record under an ID away is a removal from the mapping, and
/// keeps the IDs distinct and in their order.
pub proof fn lemma_without(entries: Seq<EntryView>, id: Seq<char>)
    requires
        distinct_ids(entries),
    ensures
        distinct_ids(without(entries, id)),
        !has_id(without(entries, id), id),
        to_map(without(entries, id)) == to_map(entries).remove(id),
        ids_of(without(entries, id)) == ids_of(entries).filter(|k: Seq<char>| k != id),
{
    let after = without(entries, id);
    let keep = |k: Seq<char>| k != id;
    if has_id(entries, id) {
        let p = position_of(entries, id);
        lemma_map_at(entries, p);
        assert forall|i: int| 0 <= i < after.len() implies #[trigger] after[i] == entries[if i
            < p {
            i
        } else {
            i + 1
        }] by {}
        assert forall|i: int, j: int| 0 <= i < j < after.len() implies (#[trigger] after[i]).id != (
        #[trigger] after[j]).id by {
            let a = if i < p { i } else { i + 1 };
            let b = if j < p { j } else { j + 1 };
            assert(entries[a].id != entries[b].id);
        }
        assert forall|k: Seq<char>| has_id(after, k) == (k != id && has_id(entries, k)) by {
            if has_id(after, k) {
                let i = position_of(after, k);
                let a = if i < p { i } else { i + 1 };
                assert(entries[a].id == k);
                if k == id {
                    lemma_map_at(entries, a);
                }
            }
            if k != id && has_id(entries, k) {
                let a = position_of(entries, k);
                let i = if a < p { a } else { a - 1 };
                assert(after[i].id == k);
            }
        }
        assert forall|k: Seq<char>| has_id(after, k) implies to_map(after)[k] == to_map(
            entries,
        ).remove(id)[k] by {
            let i = position_of(after, k);
            lemma_map_at(after, i);
            let a = if i < p { i } else { i + 1 };
            lemma_map_at(entries, a);
        }
        assert(to_map(after) =~= to_map(entries).remove(id));
        lemma_ids_without(entries, p);
    } else {
        assert(to_map(after) =~= to_map(entries).remove(id));
        lemma_ids_all_kept(ids_of(entries), id);
    }
}

/// A list in which `id` does not occur is left as it is by filtering `id`
/// out.
proof fn lemma_ids_all_kept(ids: Seq<Seq<char>>, id: Seq<char>)
    requires
        !ids.contains(id),
    ensures
        ids.filter(|k: Seq<char>| k != id) == ids,
    decreases ids.len(),
{
    let keep = |k: Seq<char>| k != id;
    reveal(Seq::filter);
    if ids.len() > 0 {
        let front = ids.drop_last();
        assert(!front.contains(id)) by {
            if front.contains(id) {
                let i = choose|i: int| 0 <= i < front.len() && front[i] == id;
                assert(ids[i] == id);
            }
        }
        lemma_ids_all_kept(front, id);
        assert(ids.last() != id) by {
            assert(ids[ids.len() - 1] == ids.last());
        }
        assert(ids.filter(keep) == front.filter(keep).push(ids.last()));
        assert(front.push(ids.last()) =~= ids);
    }
}

/// Removing the only entry with a given ID filters that ID out of the IDs.
proof fn lemma_ids_without(entries: Seq<EntryView>, p: int)
    requires
        distinct_ids(entries),
        0 <= p < entries.len(),
    ensures
        ids_of(entries.remove(p)) == ids_of(entries).filter(|k: Seq<char>| k != entries[p].id),
    decreases entries.len(),
{
    let id = entries[p].id;
    let keep = |k: Seq<char>| k != id;
    let ids = ids_of(entries);
    reveal(Seq::filter);
    let front = entries.drop_last();
    let last = entries.len() - 1;
    assert(ids.drop_last() =~= ids_of(front));
    assert(ids.filter(keep) == if keep(ids.last()) {
        ids.drop_last().filter(keep).push(ids.last())
    } else {
        ids.drop_last().filter(keep)
    });
    if p == last {
        assert(ids.last() == id);
        assert(!ids_of(front).contains(id)) by {
            if ids_of(front).contains(id) {
                let i = choose|i: int| 0 <= i < ids_of(front).len() && ids_of(front)[i] == id;
                assert(entries[i].id != entries[p].id);
            }
        }
        lemma_ids_all_kept(ids_of(front), id);
        assert(entries.remove(p) =~= front);
    } else {
        assert(distinct_ids(front)) by {
            assert forall|i: int, j: int| 0 <= i < j < front.len() implies (
            #[trigger] front[i]).id != (#[trigger] front[j]).id by {
                assert(entries[i].id != entries[j].id);
            }
        }
        assert(front[p].id == id);
        lemma_ids_without(front, p);
        assert(entries[p].id != entries[last].id);
        assert(ids.last() == entries[last].id);
        assert(ids_of(entries.remove(p)) =~= ids_of(front.remove(p)).push(ids.last()));
    }
}

struct Entry {
    id: String,
    record: WorkshopMetadata,
}

/// The records of the items that are present locally, by item ID.
pub struct MetadataStore {
    entries: Vec<Entry>,
}

impl View for MetadataStore {
    type V = Seq<EntryView>;

    closed spec fn view(&self) -> Seq<EntryView> {
        entries_view(self.entries@)
    }
}

spec fn entries_view(entries: Seq<Entry>) -> Seq<EntryView> {
    Seq::new(entries.len(), |i: int| EntryView { id: entries[i].id@, record: entries[i].record@ })
}

impl MetadataStore {
    #[verifier::type_invariant]
    spec fn distinct(&self) -> bool {
        distinct_ids(self@)
    }

    /// The mapping from ID to record that the store stands for.
    pub open spec fn map(&self) -> Map<Seq<char>, MetadataView> {
        to_map(self@)
    }

    /// The IDs in the store, in its order.
    pub open spec fn ids(&self) -> Seq<Seq<char>> {
        ids_of(self@)
    }

    /// A store without records.
    pub fn new() -> (store: MetadataStore)
        ensures
            store@ == Seq::<EntryView>::empty(),
    {
        let store = MetadataStore { entries: Vec::new() };
        assert(store@ =~= Seq::<EntryView>::empty());
        store
    }

    /// No store holds an ID twice.
    pub fn valid(&self)
        ensures
            distinct_ids(self@),
    {
        proof {
            use_type_invariant(self);
        }
    }

    /// The number of records.
    pub fn len(&self) -> (n: usize)
        ensures
            n == self@.len(),
    {
        self.entries.len()
    }

    /// Whether the store holds no record.
    pub fn is_empty(&self) -> (empty: bool)
        ensures
            empty == (self@.len() == 0),
    {
        self.entries.len() == 0
    }

    /// Moves the records out and leaves the store empty.
    fn take_entries(&mut self) -> (entries: Vec<Entry>)
        ensures
            entries_view(entries@) == old(self)@,
            final(self)@.len() == 0,
    {
        let mut taken = MetadataStore { entries: Vec::new() };
        core::mem::swap(self, &mut taken);
        taken.entries
    }

    fn find(&self, id: &str) -> (place: Option<usize>)
        ensures
            distinct_ids(self@),
            match place {
                Some(i) => i < self@.len() && self@[i as int].id == id@ && position_of(self@, id@)
                    == i && has_id(self@, id@),
                None => !has_id(self@, id@),
            },
    {
        proof {
            use_type_invariant(self);
        }
        let mut i: usize = 0;
        while i < self.entries.len()
            invariant
                i <= self.entries.len(),
                self@.len() == self.entries.len(),
                distinct_ids(self@),
                forall|j: int| 0 <= j < i ==> (#[trigger] self@[j]).id != id@,
            decreases self.entries.len() - i,
        {
            if str_eq(self.entries[i].id.as_str(), id) {
                proof {
                    assert(self@[i as int].id == id@);
                    lemma_map_at(self@, i as int);
                }
                return Some(i);
            }
            i += 1;
        }
        None
    }

    /// Whether the store holds a record under `id`.
    pub fn contains_key(&self, id: &str) -> (found: bool)
        ensures
            found == has_id(self@, id@),
            found == self.map().contains_key(id@),
    {
        self.find(id).is_some()
    }

    /// The record under `id`, if there is one.
    pub fn get(&self, id: &str) -> (record: Option<&WorkshopMetadata>)
        ensures
            match record {
                Some(r) => self.map().contains_key(id@) && r@ == self.map()[id@],
                None => !self.map().contains_key(id@),
            },
    {
        match self.find(id) {
            Some(i) => {
                proof {
                    lemma_map_at(self@, i as int);
                }
                Some(&self.entries[i].record)
            },
            None => None,
        }
    }

    /// Puts `record` under `id`. A record that was there under that ID gives
    /// way to it and the new record takes its place in the order; a new ID
    /// comes last.
    pub fn upsert(&mut self, id: String, record: WorkshopMetadata)
        ensures
            final(self)@ == put(old(self)@, id@, record@),
            final(self).map() == old(self).map().insert(id@, record@),
    {
        let ghost before = self@;
        let place = self.find(id.as_str());
        proof {
            lemma_put(before, id@, record@);
        }
        let mut entries = self.take_entries();
        match place {
            Some(i) => {
                entries.set(i, Entry { id, record });
            },
            None => {
                entries.push(Entry { id, record });
            },
        }
        assert(entries_view(entries@) =~= put(before, id@, record@));
        *self = MetadataStore { entries };
    }

    /// Takes the record under `id` out of the store and hands it back. The
    /// other records stay in their order.
    pub fn remove(&mut self, id: &str) -> (removed: Option<WorkshopMetadata>)
        ensures
            final(self)@ == without(old(self)@, id@),
            final(self).map() == old(self).map().remove(id@),
            match removed {
                Some(r) => old(self).map().contains_key(id@) && r@ == old(self).map()[id@],
                None => !old(self).map().contains_key(id@),
            },
    {
        let ghost before = self@;
        let place = self.find(id);
        proof {
            lemma_without(before, id@);
        }
        match place {
            Some(i) => {
                proof {
                    lemma_map_at(before, i as int);
                }
                let mut entries = self.take_entries();
                let entry = entries.remove(i);
                assert(entries_view(entries@) =~= without(before, id@));
                *self = MetadataStore { entries };
                Some(entry.record)
            },
            None => None,
        }
    }

    /// The IDs in the store, in its order.
    pub fn keys(&self) -> (ids: Vec<String>)
        ensures
            strings_view(ids@) == self.ids(),
    {
        let mut ids: Vec<String> = Vec::new();
        let mut i: usize = 0;
        while i < self.entries.len()
            invariant
                i <= self.entries.len(),
                ids.len() == i,
                self@.len() == self.entries.len(),
                forall|j: int| 0 <= j < i ==> ids@[j]@ == (#[trigger] self@[j]).id,
            decreases self.entries.len() - i,
        {
            ids.push(self.entries[i].id.clone());
            i += 1;
        }
        assert(strings_view(ids@) =~= self.ids());
        ids
    }

    /// The ID at place `i` of the store's order.
    pub fn id_at(&self, i: usize) -> (id: &String)
        requires
            i < self@.len(),
        ensures
            id@ == self@[i as int].id,
    {
        &self.entries[i].id
    }

    /// The record at place `i` of the store's order.
    pub fn record_at(&self, i: usize) -> (record: &WorkshopMetadata)
        requires
            i < self@.len(),
        ensures
            record@ == self@[i as int].record,
    {
        &self.entries[i].record
    }
}

} // verus!
