//! The records that are kept for each workshop item, and what a lookup at the
//! remote source hands back.

use crate::text::str_eq;
use vstd::prelude::*;

verus! {

/// One tracked file: where it lies below the cache root, and the digest of
/// its content. An empty digest means that only the file's presence counts.
#[derive(Clone, Debug, PartialEq, Eq)]
pub struct FileInfo {
    pub path: String,
    pub hash: String,
}

/// What a `FileInfo` stands for.
pub struct FileInfoView {
    pub path: Seq<char>,
    pub hash: Seq<char>,
}

impl View for FileInfo {
    type V = FileInfoView;

    open spec fn view(&self) -> FileInfoView {
        FileInfoView { path: self.path@, hash: self.hash@ }
    }
}

impl FileInfo {
    /// A copy of this entry.
    pub fn duplicate(&self) -> (copy: FileInfo)
        ensures
            copy@ == self@,
    {
        FileInfo { path: self.path.clone(), hash: self.hash.clone() }
    }
}

/// The texts that a list of strings holds.
pub open spec fn strings_view(v: Seq<String>) -> Seq<Seq<char>> {
    Seq::new(v.len(), |i: int| v[i]@)
}

/// The entries that a list of tracked files holds.
pub open spec fn files_view(v: Seq<FileInfo>) -> Seq<FileInfoView> {
    Seq::new(v.len(), |i: int| v[i]@)
}

/// A copy of a list of strings.
pub fn duplicate_strings(v: &Vec<String>) -> (copy: Vec<String>)
    ensures
        strings_view(copy@) == strings_view(v@),
{
    let mut copy: Vec<String> = Vec::new();
    let mut i: usize = 0;
    while i < v.len()
        invariant
            i <= v.len(),
            copy.len() == i,
            forall|j: int| 0 <= j < i ==> copy@[j]@ == v@[j]@,
        decreases v.len() - i,
    {
        copy.push(v[i].clone());
        i += 1;
    }
    assert(strings_view(copy@) =~= strings_view(v@));
    copy
}

/// A copy of a list of tracked files.
pub fn duplicate_files(v: &Vec<FileInfo>) -> (copy: Vec<FileInfo>)
    ensures
        files_view(copy@) == files_view(v@),
{
    let mut copy: Vec<FileInfo> = Vec::new();
    let mut i: usize = 0;
    while i < v.len()
        invariant
            i <= v.len(),
            copy.len() == i,
            forall|j: int| 0 <= j < i ==> copy@[j]@ == v@[j]@,
        decreases v.len() - i,
    {
        copy.push(v[i].duplicate());
        i += 1;
    }
    assert(files_view(copy@) =~= files_view(v@));
    copy
}

/// Whether `needle` is one of the strings in `v`.
pub fn contains_string(v: &Vec<String>, needle: &str) -> (found: bool)
    ensures
        found == strings_view(v@).contains(needle@),
{
    let mut i: usize = 0;
    while i < v.len()
        invariant
            i <= v.len(),
            forall|j: int| 0 <= j < i ==> v@[j]@ != needle@,
        decreases v.len() - i,
    {
        if str_eq(v[i].as_str(), needle) {
            assert(strings_view(v@)[i as int] == needle@);
            return true;
        }
        i += 1;
    }
    assert forall|j: int| 0 <= j < strings_view(v@).len() implies strings_view(v@)[j]
        != needle@ by {
        assert(strings_view(v@)[j] == v@[j]@);
    }
    false
}

/// The record of one workshop item: its title, the marker of the version
/// that is held locally, the files that this version placed below the cache
/// root, and the collections through which the item was fetched.
#[derive(Clone, Debug, PartialEq, Eq)]
pub struct WorkshopMetadata {
    pub title: String,
    pub changelog_id: String,
    pub files: Vec<FileInfo>,
    pub collection_ids: Vec<String>,
}

/// What a `WorkshopMetadata` stands for.
pub struct MetadataView {
    pub title: Seq<char>,
    pub changelog_id: Seq<char>,
    pub files: Seq<FileInfoView>,
    pub collection_ids: Seq<Seq<char>>,
}

impl MetadataView {
    /// The collections that the item belongs to, as a set.
    pub open spec fn collections(self) -> Set<Seq<char>> {
        self.collection_ids.to_set()
    }

    /// The record with `collection` among its collections: appended where it
    /// was missing, and the record as it is where it was there.
    pub open spec fn with_collection(self, collection: Seq<char>) -> MetadataView {
        if self.collection_ids.contains(collection) {
            self
        } else {
            MetadataView { collection_ids: self.collection_ids.push(collection), ..self }
        }
    }

    /// The record with `collection` added where one is given.
    pub open spec fn with_membership(self, collection: Option<Seq<char>>) -> MetadataView {
        match collection {
            Some(c) => self.with_collection(c),
            None => self,
        }
    }

    /// An item is an orphan of a collection when that collection is the only
    /// one it belongs to.
    pub open spec fn is_orphan_of(self, collection: Seq<char>) -> bool {
        self.collections() == set![collection]
    }
}

impl View for WorkshopMetadata {
    type V = MetadataView;

    open spec fn view(&self) -> MetadataView {
        MetadataView {
            title: self.title@,
            changelog_id: self.changelog_id@,
            files: files_view(self.files@),
            collection_ids: strings_view(self.collection_ids@),
        }
    }
}

impl WorkshopMetadata {
    /// A copy of this record.
    pub fn duplicate(&self) -> (copy: WorkshopMetadata)
        ensures
            copy@ == self@,
    {
        WorkshopMetadata {
            title: self.title.clone(),
            changelog_id: self.changelog_id.clone(),
            files: duplicate_files(&self.files),
            collection_ids: duplicate_strings(&self.collection_ids),
        }
    }

    /// Notes that the item was fetched through `collection`. A collection
    /// that is already noted is not noted twice.
    pub fn add_collection(&mut self, collection: &str)
        ensures
            final(self)@ == old(self)@.with_collection(collection@),
    {
        if !contains_string(&self.collection_ids, collection) {
            self.collection_ids.push(String::from_str(collection));
            assert(strings_view(self.collection_ids@) =~= strings_view(
                old(self).collection_ids@,
            ).push(collection@));
        }
    }

    /// Whether `collection` is the only collection that the item belongs to.
    pub fn is_orphan_of(&self, collection: &str) -> (orphan: bool)
        ensures
            orphan == self@.is_orphan_of(collection@),
    {
        let ghost ids = strings_view(self.collection_ids@);
        if self.collection_ids.len() == 0 {
            assert(!ids.to_set().contains(collection@));
            assert(set![collection@].contains(collection@));
            return false;
        }
        let mut i: usize = 0;
        while i < self.collection_ids.len()
            invariant
                i <= self.collection_ids.len(),
                ids == strings_view(self.collection_ids@),
                forall|j: int| 0 <= j < i ==> ids[j] == collection@,
            decreases self.collection_ids.len() - i,
        {
            if !str_eq(self.collection_ids[i].as_str(), collection) {
                assert(ids[i as int] != collection@);
                assert(ids.to_set().contains(ids[i as int]));
                assert(!set![collection@].contains(ids[i as int]));
                return false;
            }
            i += 1;
        }
        assert(ids.to_set().contains(ids[0]));
        assert(ids.to_set() =~= set![collection@]);
        true
    }
}

/// A single item as the remote source describes it.
#[derive(Clone, Debug, PartialEq, Eq)]
pub struct WorkshopItem {
    pub id: String,
    pub title: String,
    pub changelog_id: String,
}

/// A collection as the remote source describes it: its members in the order
/// in which the source lists them.
#[derive(Clone, Debug, PartialEq, Eq)]
pub struct WorkshopCollection {
    pub id: String,
    pub title: String,
    pub item_ids: Vec<String>,
}

/// What a lookup at the remote source yields.
#[derive(Clone, Debug, PartialEq, Eq)]
pub enum ParseResult {
    Item(WorkshopItem),
    Collection(WorkshopCollection),
}

} // verus!
