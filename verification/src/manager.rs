//! The manager: the settings, the places, the store and the inclusion
//! policy that one run works with.

use crate::config::{first_blank, validate_config, Config, ConfigError};
use crate::model::{files_view, strings_view, FileInfo, MetadataView, WorkshopMetadata};
use crate::paths::{joined, parent_of, workshop_dir, ManagerPaths};
use crate::policy::{all_parse, allows, glob_parses, glob_set_compiles, InclusionPolicy};
use crate::store::{distinct_ids, lemma_put, put, EntryView, MetadataStore};
use crate::transfer::{agent_args, download_args};
use vstd::prelude::*;

verus! {

/// One record as the persisted store holds it. The list of files and the
/// list of collections may be missing there.
#[derive(Clone, Debug, PartialEq, Eq)]
pub struct StoredRecord {
    pub title: String,
    pub changelog_id: String,
    pub files: Option<Vec<FileInfo>>,
    pub collection_ids: Option<Vec<String>>,
}

impl StoredRecord {
    /// The record that a stored record is read as: a list that is missing
    /// is read as an empty one.
    pub open spec fn read(self) -> MetadataView {
        MetadataView {
            title: self.title@,
            changelog_id: self.changelog_id@,
            files: match self.files {
                Some(files) => files_view(files@),
                None => Seq::empty(),
            },
            collection_ids: match self.collection_ids {
                Some(ids) => strings_view(ids@),
                None => Seq::empty(),
            },
        }
    }

    /// Reads a stored record.
    pub fn into_metadata(self) -> (metadata: WorkshopMetadata)
        ensures
            metadata@ == self.read(),
    {
        let files = match self.files {
            Some(files) => files,
            None => {
                let none: Vec<FileInfo> = Vec::new();
                assert(files_view(none@) =~= Seq::empty());
                none
            },
        };
        let collection_ids = match self.collection_ids {
            Some(ids) => ids,
            None => {
                let none: Vec<String> = Vec::new();
                assert(strings_view(none@) =~= Seq::empty());
                none
            },
        };
        WorkshopMetadata { title: self.title, changelog_id: self.changelog_id, files, collection_ids }
    }

    /// The stored record for `metadata`. Both lists are written out, also
    /// where they are empty.
    pub fn of_metadata(metadata: &WorkshopMetadata) -> (stored: StoredRecord)
        ensures
            stored.read() == metadata@,
            stored.files is Some,
            stored.collection_ids is Some,
    {
        let copy = metadata.duplicate();
        StoredRecord {
            title: copy.title,
            changelog_id: copy.changelog_id,
            files: Some(copy.files),
            collection_ids: Some(copy.collection_ids),
        }
    }
}

/// What was found at the place where the store is persisted.
#[derive(Clone, Debug, PartialEq, Eq)]
pub enum StoredMetadata {
    /// There is no file, or it cannot be read: nothing was stored yet.
    Missing,
    /// There is a file, and it does not hold a store.
    Malformed,
    /// The records that the file holds, each under its ID.
    Records(Vec<(String, StoredRecord)>),
}

/// Why the manager cannot start.
#[derive(Clone, Debug, PartialEq, Eq)]
pub enum ManagerError {
    /// The settings are at fault.
    Config(ConfigError),
    /// The persisted store is there and cannot be read as a store. It is
    /// left as it is.
    CorruptStore,
}

/// The records of a list, in the list's order, as entries of a store.
pub open spec fn records_view(records: Seq<(String, StoredRecord)>) -> Seq<EntryView> {
    Seq::new(records.len(), |i: int| EntryView { id: records[i].0@, record: records[i].1.read() })
}

/// The store that a list of records makes: each record is put under its
/// ID in turn, so that of two records under one ID the later one stays.
pub open spec fn collected(records: Seq<EntryView>) -> Seq<EntryView>
    decreases records.len(),
{
    if records.len() == 0 {
        Seq::empty()
    } else {
        put(collected(records.drop_last()), records.last().id, records.last().record)
    }
}

/// A list of records makes a store without repeated IDs.
pub proof fn lemma_collected(records: Seq<EntryView>)
    ensures
        distinct_ids(collected(records)),
    decreases records.len(),
{
    if records.len() > 0 {
        lemma_collected(records.drop_last());
        lemma_put(collected(records.drop_last()), records.last().id, records.last().record);
    }
}

/// The store that stands for what was found where the store is persisted:
/// an empty one where nothing was stored yet, and none where the file is
/// malformed.
pub fn load_metadata(stored: StoredMetadata) -> (loaded: Result<MetadataStore, ManagerError>)
    ensures
        match stored {
            StoredMetadata::Missing => loaded matches Ok(store) && store@.len() == 0,
            StoredMetadata::Malformed => loaded == Err::<MetadataStore, ManagerError>(
                ManagerError::CorruptStore,
            ),
            StoredMetadata::Records(records) => loaded matches Ok(store) && store@ == collected(
                records_view(records@),
            ),
        },
{
    match stored {
        StoredMetadata::Missing => Ok(MetadataStore::new()),
        StoredMetadata::Malformed => Err(ManagerError::CorruptStore),
        StoredMetadata::Records(records) => {
            let ghost all = records_view(records@);
            let mut store = MetadataStore::new();
            let mut records = records;
            let mut rest: Vec<(String, StoredRecord)> = Vec::new();
            let n = records.len();
            // The records are taken from the end; `rest` holds them in reverse.
            while records.len() > 0
                invariant
                    records.len() + rest.len() == n,
                    n == all.len(),
                    forall|j: int|
                        0 <= j < records.len() ==> (#[trigger] records@[j]).0@ == all[j].id
                            && records@[j].1.read() == all[j].record,
                    forall|j: int|
                        0 <= j < rest.len() ==> (#[trigger] rest@[j]).0@ == all[n - 1 - j].id
                            && rest@[j].1.read() == all[n - 1 - j].record,
                decreases records.len(),
            {
                match records.pop() {
                    Some(record) => {
                        rest.push(record);
                    },
                    None => {},
                }
            }
            let mut taken: usize = 0;
            assert(all.take(0) =~= Seq::<EntryView>::empty());
            while rest.len() > 0
                invariant
                    taken + rest.len() == n,
                    n == all.len(),
                    forall|j: int|
                        0 <= j < rest.len() ==> (#[trigger] rest@[j]).0@ == all[n - 1 - j].id
                            && rest@[j].1.read() == all[n - 1 - j].record,
                    store@ == collected(all.take(taken as int)),
                decreases rest.len(),
            {
                match rest.pop() {
                    Some(record) => {
                        proof {
                            assert(all.take(taken + 1).drop_last() =~= all.take(taken as int));
                            assert(all.take(taken + 1).last() == all[taken as int]);
                        }
                        store.upsert(record.0, record.1.into_metadata());
                        taken += 1;
                    },
                    None => {},
                }
            }
            assert(all.take(taken as int) =~= all);
            Ok(store)
        },
    }
}

/// All that one run works with.
pub struct WorkshopManager {
    pub config: Config,
    pub paths: ManagerPaths,
    pub metadata: MetadataStore,
    pub whitelist: InclusionPolicy,
}

impl WorkshopManager {
    /// Sets the manager up for a process that runs in `current_dir`, from
    /// the settings and from what was found where the store is persisted.
    ///
    /// The settings are examined first, then the allow patterns, then the
    /// store; the first fault is the one reported, and without a fault
    /// there is a manager.
    pub fn new(config: Config, current_dir: &str, stored: StoredMetadata) -> (made: Result<
        WorkshopManager,
        ManagerError,
    >)
        ensures
            match made {
                Ok(manager) => {
                    &&& first_blank(config@) is None
                    &&& all_parse(config@.whitelist)
                    &&& config@.whitelist.len() > 0 ==> glob_set_compiles(config@.whitelist)
                    &&& !(stored is Malformed)
                    &&& manager.config@ == config@
                    &&& manager.paths.local_files@ == config@.output_dir
                    &&& manager.paths.steamcmd@ == config@.steam_cmd
                    &&& manager.paths.metadata_file@ == joined(current_dir@, "metadata.json"@)
                    &&& manager.paths.workshop_maps_file@ == joined(
                        config@.output_dir,
                        "workshop_maps.txt"@,
                    )
                    &&& manager.whitelist@ == config@.whitelist
                    &&& manager.metadata@ == match stored {
                        StoredMetadata::Records(records) => collected(records_view(records@)),
                        _ => Seq::<EntryView>::empty(),
                    }
                },
                Err(ManagerError::Config(fault)) => match first_blank(config@) {
                    Some(blank) => fault == blank,
                    None => match fault {
                        ConfigError::InvalidPattern { pattern, reason } => exists|i: int|
                            {
                                &&& 0 <= i < config@.whitelist.len()
                                &&& #[trigger] config@.whitelist[i] == pattern@
                                &&& !glob_parses(pattern@)
                                &&& all_parse(config@.whitelist.take(i))
                            },
                        ConfigError::PatternSet { reason } => {
                            &&& config@.whitelist.len() > 0
                            &&& all_parse(config@.whitelist)
                            &&& !glob_set_compiles(config@.whitelist)
                        },
                        _ => false,
                    },
                },
                Err(ManagerError::CorruptStore) => {
                    &&& first_blank(config@) is None
                    &&& all_parse(config@.whitelist)
                    &&& config@.whitelist.len() > 0 ==> glob_set_compiles(config@.whitelist)
                    &&& stored is Malformed
                },
            },
    {
        match validate_config(&config) {
            Err(fault) => {
                return Err(ManagerError::Config(fault));
            },
            Ok(()) => {},
        }
        let paths = ManagerPaths::new(&config, current_dir);
        let whitelist = match InclusionPolicy::new(&config.whitelist) {
            Ok(policy) => policy,
            Err(fault) => {
                proof {
                    if fault is InvalidPattern {
                        let pattern = fault->pattern;
                        let i = choose|i: int|
                            {
                                &&& 0 <= i < config.whitelist.len()
                                &&& #[trigger] config.whitelist[i]@ == pattern@
                                &&& !glob_parses(pattern@)
                                &&& all_parse(strings_view(config.whitelist@).take(i))
                            };
                        assert(config@.whitelist[i] == pattern@);
                    }
                }
                return Err(ManagerError::Config(fault));
            },
        };
        let metadata = match load_metadata(stored) {
            Ok(store) => store,
            Err(fault) => {
                return Err(fault);
            },
        };
        assert(stored is Missing ==> metadata@ =~= Seq::<EntryView>::empty());
        Ok(WorkshopManager { config, paths, metadata, whitelist })
    }

    /// Whether the inclusion policy allows the relative path `rel_path`.
    /// Where no allow pattern is set, no path is allowed.
    pub fn is_allowed(&self, rel_path: &str) -> (allowed: bool)
        ensures
            allowed == allows(self.whitelist@, rel_path@),
            self.whitelist@.len() == 0 ==> !allowed,
    {
        self.whitelist.is_allowed(rel_path)
    }

    /// The arguments with which the transfer agent fetches `workshop_id`.
    pub fn transfer_args(&self, workshop_id: &str) -> (args: Vec<String>)
        ensures
            strings_view(args@) == agent_args(self.config@.appid, workshop_id@),
    {
        download_args(self.config.appid.as_str(), workshop_id)
    }

    /// The directory in which the transfer agent leaves `workshop_id`.
    pub fn source_path(&self, workshop_id: &str) -> (path: Result<String, ConfigError>)
        ensures
            match parent_of(self.paths.steamcmd@) {
                Some(dir) => path matches Ok(p) && p@ == workshop_dir(
                    dir,
                    self.config@.appid,
                    workshop_id@,
                ),
                None => path == Err::<String, ConfigError>(ConfigError::NoParent),
            },
    {
        self.paths.steamcmd_workshop_path(self.config.appid.as_str(), workshop_id)
    }
}

} // verus!
