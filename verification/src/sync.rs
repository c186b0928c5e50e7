//! Bringing one item up to date: the decision whether the local copy still
//! stands, and what is recorded when a fresh copy has come in.
//!
//! The caller does the outside work (looking at the disk, running the
//! transfer agent, ingesting its output) and hands each answer to the
//! function that awaits it. The state that comes back says what is to be
//! done next. The store is changed only on the step that ends in
//! `SyncState::Commit`, and the caller persists it then.

use crate::integrity::{
    after_digest, after_exists, all_intact, answers_left, begin_state, lemma_outcome_from,
    outcome, verify_begin, verify_digest, verify_exists, VerifyState,
};
use crate::model::{
    duplicate_strings, files_view, strings_view, FileInfo, FileInfoView, MetadataView,
    WorkshopItem, WorkshopMetadata,
};
use crate::store::{
    distinct_ids, has_id, lemma_map_at, lemma_put, position_of, put, to_map, EntryView,
    MetadataStore,
};
use crate::text::str_eq;
use vstd::prelude::*;

verus! {

/// What is asked for: the item as the remote source describes it now, the
/// collection through which it is fetched, if any, and whether a transfer
/// is wanted even where the local copy still stands.
#[derive(Clone, Debug, PartialEq, Eq)]
pub struct SyncRequest {
    pub item: WorkshopItem,
    pub collection_id: Option<String>,
    pub force: bool,
}

/// What a `SyncRequest` stands for.
pub struct RequestView {
    pub id: Seq<char>,
    pub title: Seq<char>,
    pub changelog_id: Seq<char>,
    pub collection: Option<Seq<char>>,
    pub force: bool,
}

/// The text that an optional string holds.
pub open spec fn option_view(s: Option<String>) -> Option<Seq<char>> {
    match s {
        Some(s) => Some(s@),
        None => None,
    }
}

impl View for SyncRequest {
    type V = RequestView;

    open spec fn view(&self) -> RequestView {
        RequestView {
            id: self.item.id@,
            title: self.item.title@,
            changelog_id: self.item.changelog_id@,
            collection: option_view(self.collection_id),
            force: self.force,
        }
    }
}

/// How a synchronisation ended well.
#[derive(Clone, Copy, Debug, PartialEq, Eq, Structural)]
pub enum Outcome {
    /// The local copy was current and intact; nothing was transferred.
    UpToDate,
    /// A fresh copy was transferred and recorded.
    Downloaded,
}

/// Why a synchronisation ended without a copy.
#[derive(Clone, Copy, Debug, PartialEq, Eq, Structural)]
pub enum Failure {
    /// The transfer agent reported no success.
    TransferFailed,
    /// The agent's output directory is not there.
    OutputMissing,
    /// The ingest of the agent's output yielded no file.
    NoFiles,
}

/// Where the synchronisation of one item stands.
#[derive(Clone, Copy, Debug, PartialEq, Eq, Structural)]
pub enum SyncState {
    /// The files of the local copy are being verified; the inner state says
    /// which question is open.
    Verifying(VerifyState),
    /// The transfer agent is to be run.
    Transfer,
    /// The caller is to say whether the agent's output directory exists.
    Locate,
    /// The caller is to ingest the agent's output and hand in the files.
    Ingest,
    /// The store holds the new state of the item. The caller is to persist
    /// it and to write the list of maps anew.
    Commit(Outcome),
    /// The store is as it was; nothing is to be persisted.
    Failed(Failure),
}

/// The store and the state after one step.
pub struct SyncPoint {
    pub entries: Seq<EntryView>,
    pub state: SyncState,
}

/// The local copy of the requested item is current: there is a record under
/// its ID, and the record's version marker is the one that the source gives.
pub open spec fn is_current(entries: Seq<EntryView>, request: RequestView) -> bool {
    has_id(entries, request.id) && to_map(entries)[request.id].changelog_id
        == request.changelog_id
}

/// The files that are recorded for the requested item.
pub open spec fn recorded_files(entries: Seq<EntryView>, request: RequestView) -> Seq<
    FileInfoView,
> {
    to_map(entries)[request.id].files
}

/// Nothing has to be transferred: no transfer is forced, the local copy is
/// current, and every one of its files is intact in `cache`.
pub open spec fn is_satisfied(
    entries: Seq<EntryView>,
    request: RequestView,
    cache: Map<Seq<char>, Seq<char>>,
) -> bool {
    !request.force && is_current(entries, request) && all_intact(
        recorded_files(entries, request),
        cache,
    )
}

/// The store with the request's collection noted at the requested item.
pub open spec fn with_member(entries: Seq<EntryView>, request: RequestView) -> Seq<EntryView> {
    if has_id(entries, request.id) {
        put(entries, request.id, to_map(entries)[request.id].with_membership(request.collection))
    } else {
        entries
    }
}

/// The record that a transfer of the requested item leaves: title and
/// version marker as the source gave them, the files that came in, and the
/// collections that were noted before together with the request's.
pub open spec fn fresh_record(
    entries: Seq<EntryView>,
    request: RequestView,
    files: Seq<FileInfoView>,
) -> MetadataView {
    MetadataView {
        title: request.title,
        changelog_id: request.changelog_id,
        files,
        collection_ids: if has_id(entries, request.id) {
            to_map(entries)[request.id].collection_ids
        } else {
            Seq::empty()
        },
    }.with_membership(request.collection)
}

/// What follows from the state of a verification: a passed one notes the
/// membership and is committed, a failed one leads to a transfer, and an
/// open one goes on.
pub open spec fn settled(entries: Seq<EntryView>, request: RequestView, v: VerifyState)
    -> SyncPoint {
    match v {
        VerifyState::Done(true) => SyncPoint {
            entries: with_member(entries, request),
            state: SyncState::Commit(Outcome::UpToDate),
        },
        VerifyState::Done(false) => SyncPoint { entries, state: SyncState::Transfer },
        _ => SyncPoint { entries, state: SyncState::Verifying(v) },
    }
}

/// The first step. A forced request, an item without a record and a record
/// of another version go straight to the transfer; otherwise the files of
/// the record are verified.
pub open spec fn begun(entries: Seq<EntryView>, request: RequestView) -> SyncPoint {
    if request.force || !is_current(entries, request) {
        SyncPoint { entries, state: SyncState::Transfer }
    } else {
        settled(entries, request, begin_state(recorded_files(entries, request)))
    }
}

/// The step that takes the answer to whether the awaited file exists. In
/// any state but `Verifying` the answer changes nothing.
pub open spec fn exists_answered(
    entries: Seq<EntryView>,
    request: RequestView,
    state: SyncState,
    exists: bool,
) -> SyncPoint {
    match state {
        SyncState::Verifying(v) => {
            if has_id(entries, request.id) {
                settled(
                    entries,
                    request,
                    after_exists(recorded_files(entries, request), v, exists),
                )
            } else {
                SyncPoint { entries, state: SyncState::Transfer }
            }
        },
        _ => SyncPoint { entries, state },
    }
}

/// The step that takes the digest of the awaited file. In any state but
/// `Verifying` the answer changes nothing.
pub open spec fn digest_answered(
    entries: Seq<EntryView>,
    request: RequestView,
    state: SyncState,
    digest: Seq<char>,
) -> SyncPoint {
    match state {
        SyncState::Verifying(v) => {
            if has_id(entries, request.id) {
                settled(
                    entries,
                    request,
                    after_digest(recorded_files(entries, request), v, digest),
                )
            } else {
                SyncPoint { entries, state: SyncState::Transfer }
            }
        },
        _ => SyncPoint { entries, state },
    }
}

/// The state after the transfer agent has run.
pub open spec fn transferred(state: SyncState, success: bool) -> SyncState {
    match state {
        SyncState::Transfer => if success {
            SyncState::Locate
        } else {
            SyncState::Failed(Failure::TransferFailed)
        },
        _ => state,
    }
}

/// The state after the caller has looked for the agent's output directory.
pub open spec fn located(state: SyncState, exists: bool) -> SyncState {
    match state {
        SyncState::Locate => if exists {
            SyncState::Ingest
        } else {
            SyncState::Failed(Failure::OutputMissing)
        },
        _ => state,
    }
}

/// The step that takes the ingested files. Without a file nothing is
/// recorded; otherwise the fresh record takes the place of the old one, or
/// comes last where there was none.
pub open spec fn ingested(
    entries: Seq<EntryView>,
    request: RequestView,
    state: SyncState,
    files: Seq<FileInfoView>,
) -> SyncPoint {
    match state {
        SyncState::Ingest => {
            if files.len() == 0 {
                SyncPoint { entries, state: SyncState::Failed(Failure::NoFiles) }
            } else {
                SyncPoint {
                    entries: put(entries, request.id, fresh_record(entries, request, files)),
                    state: SyncState::Commit(Outcome::Downloaded),
                }
            }
        },
        _ => SyncPoint { entries, state },
    }
}

/// Where the verification of the local copy ends when every question is
/// answered from `cache`: the first point that is not `Verifying`.
pub open spec fn verified_from(
    point: SyncPoint,
    request: RequestView,
    cache: Map<Seq<char>, Seq<char>>,
) -> SyncPoint
    decreases
        match point.state {
            SyncState::Verifying(v) if has_id(point.entries, request.id) => answers_left(
                recorded_files(point.entries, request),
                v,
            ),
            _ => 0,
        },
{
    let files = recorded_files(point.entries, request);
    match point.state {
        SyncState::Verifying(VerifyState::AwaitExists(i)) => {
            if has_id(point.entries, request.id) && i < files.len() {
                verified_from(
                    exists_answered(
                        point.entries,
                        request,
                        point.state,
                        cache.contains_key(files[i as int].path),
                    ),
                    request,
                    cache,
                )
            } else {
                point
            }
        },
        SyncState::Verifying(VerifyState::AwaitDigest(i)) => {
            if has_id(point.entries, request.id) && i < files.len() {
                verified_from(
                    digest_answered(point.entries, request, point.state, cache[files[i as int].path]),
                    request,
                    cache,
                )
            } else {
                point
            }
        },
        _ => point,
    }
}

/// The point that a verification in state `v` settles at, once it has run
/// against `cache`, is given by its outcome.
proof fn lemma_verified_from(
    entries: Seq<EntryView>,
    request: RequestView,
    v: VerifyState,
    cache: Map<Seq<char>, Seq<char>>,
)
    requires
        has_id(entries, request.id),
        recorded_files(entries, request).len() <= usize::MAX,
        match v {
            VerifyState::AwaitExists(i) => i < recorded_files(entries, request).len(),
            VerifyState::AwaitDigest(i) => i < recorded_files(entries, request).len(),
            VerifyState::Done(_) => true,
        },
    ensures
        verified_from(settled(entries, request, v), request, cache) == settled(
            entries,
            request,
            VerifyState::Done(outcome(recorded_files(entries, request), v, cache)),
        ),
    decreases answers_left(recorded_files(entries, request), v),
{
    let files = recorded_files(entries, request);
    match v {
        VerifyState::Done(_) => {},
        VerifyState::AwaitExists(i) => {
            let next = after_exists(files, v, cache.contains_key(files[i as int].path));
            lemma_verified_from(entries, request, next, cache);
        },
        VerifyState::AwaitDigest(i) => {
            let next = after_digest(files, v, cache[files[i as int].path]);
            lemma_verified_from(entries, request, next, cache);
        },
    }
}

/// The decision. Answered from the disk, the verification that a request
/// begins with ends in a commit without any transfer exactly when the
/// request is satisfied, and in the state `Transfer` otherwise. In the
/// first case the store differs from the one before by the membership alone;
/// in the second it is the one before.
pub proof fn lemma_decision(
    entries: Seq<EntryView>,
    request: RequestView,
    cache: Map<Seq<char>, Seq<char>>,
)
    requires
        has_id(entries, request.id) ==> recorded_files(entries, request).len() <= usize::MAX,
    ensures
        verified_from(begun(entries, request), request, cache) == if is_satisfied(
            entries,
            request,
            cache,
        ) {
            SyncPoint {
                entries: with_member(entries, request),
                state: SyncState::Commit(Outcome::UpToDate),
            }
        } else {
            SyncPoint { entries, state: SyncState::Transfer }
        },
{
    if request.force || !is_current(entries, request) {
        assert(verified_from(begun(entries, request), request, cache) == begun(entries, request));
    } else {
        let files = recorded_files(entries, request);
        lemma_verified_from(entries, request, begin_state(files), cache);
        lemma_outcome_from(files, 0, cache);
        let end = settled(entries, request, VerifyState::Done(all_intact(files, cache)));
        assert(verified_from(end, request, cache) == end);
    }
}

/// The files of `files` lie in `cache` as they were recorded: each path
/// exists there with the recorded digest.
pub open spec fn holds_files(cache: Map<Seq<char>, Seq<char>>, files: Seq<FileInfoView>) -> bool {
    forall|i: int|
        0 <= i < files.len() ==> cache.contains_key((#[trigger] files[i]).path)
            && cache[files[i].path] == files[i].hash
}

/// After a transfer whose ingest yielded files, the record of the item
/// lists exactly those files under the version that the source gave, and
/// the record passes verification for as long as the cache holds the files
/// as they were recorded.
pub proof fn lemma_fresh_copy_verifies(
    entries: Seq<EntryView>,
    request: RequestView,
    files: Seq<FileInfoView>,
    cache: Map<Seq<char>, Seq<char>>,
)
    requires
        distinct_ids(entries),
        0 < files.len() <= usize::MAX,
        holds_files(cache, files),
    ensures
        ({
            let after = ingested(entries, request, SyncState::Ingest, files);
            let recorded = recorded_files(after.entries, request);
            &&& after.state == SyncState::Commit(Outcome::Downloaded)
            &&& distinct_ids(after.entries)
            &&& is_current(after.entries, request)
            &&& recorded == files
            &&& all_intact(recorded, cache)
            &&& outcome(recorded, begin_state(recorded), cache)
        }),
{
    lemma_outcome_from(files, 0, cache);
    let record = fresh_record(entries, request, files);
    lemma_put(entries, request.id, record);
    let after = put(entries, request.id, record);
    assert(to_map(after).contains_key(request.id));
    assert(to_map(after)[request.id] == record);
    assert(record.files == files);
}

/// Noting the membership changes neither the version marker nor the files
/// of the item, nor any other record.
pub proof fn lemma_with_member(entries: Seq<EntryView>, request: RequestView)
    requires
        distinct_ids(entries),
    ensures
        distinct_ids(with_member(entries, request)),
        has_id(with_member(entries, request), request.id) == has_id(entries, request.id),
        is_current(with_member(entries, request), request) == is_current(entries, request),
        has_id(entries, request.id) ==> recorded_files(with_member(entries, request), request)
            == recorded_files(entries, request),
        forall|other: Seq<char>|
            other != request.id ==> to_map(with_member(entries, request)).contains_key(other)
                == to_map(entries).contains_key(other) && to_map(
                with_member(entries, request),
            )[other] == to_map(entries)[other],
{
    if has_id(entries, request.id) {
        let record = to_map(entries)[request.id].with_membership(request.collection);
        lemma_put(entries, request.id, record);
        let after = with_member(entries, request);
        assert(to_map(after).contains_key(request.id));
        assert(to_map(after)[request.id] == record);
        assert forall|other: Seq<char>| other != request.id implies to_map(after).contains_key(
            other,
        ) == to_map(entries).contains_key(other) && to_map(after)[other] == to_map(
            entries,
        )[other] by {}
    }
}

/// Idempotence. Once a synchronisation of an item has been committed, a
/// request for the same version that forces nothing is satisfied for as
/// long as the recorded files are intact: it ends in a commit without a
/// transfer, and leaves the list of files as it is.
pub proof fn lemma_repeat_is_satisfied(
    entries: Seq<EntryView>,
    request: RequestView,
    cache: Map<Seq<char>, Seq<char>>,
)
    requires
        distinct_ids(entries),
        !request.force,
        is_current(entries, request),
        recorded_files(entries, request).len() <= usize::MAX,
        all_intact(recorded_files(entries, request), cache),
    ensures
        ({
            let end = verified_from(begun(entries, request), request, cache);
            &&& end.state == SyncState::Commit(Outcome::UpToDate)
            &&& recorded_files(end.entries, request) == recorded_files(entries, request)
            &&& is_satisfied(end.entries, request, cache)
        }),
{
    lemma_decision(entries, request, cache);
    lemma_with_member(entries, request);
}

/// A recorded file that is gone, or whose digest on disk is no longer the
/// recorded one, leads to a transfer. The file must have a recorded digest
/// for a changed content to show: a file without one is only asked to exist.
pub proof fn lemma_altered_file_transfers(
    entries: Seq<EntryView>,
    request: RequestView,
    cache: Map<Seq<char>, Seq<char>>,
    i: int,
)
    requires
        has_id(entries, request.id),
        recorded_files(entries, request).len() <= usize::MAX,
        0 <= i < recorded_files(entries, request).len(),
        !cache.contains_key(recorded_files(entries, request)[i].path) || (recorded_files(
            entries,
            request,
        )[i].hash.len() > 0 && cache[recorded_files(entries, request)[i].path] != recorded_files(
            entries,
            request,
        )[i].hash),
    ensures
        !is_satisfied(entries, request, cache),
        runs_agent(entries, request, cache),
        verified_from(begun(entries, request), request, cache) == (SyncPoint {
            entries,
            state: SyncState::Transfer,
        }),
{
    lemma_decision(entries, request, cache);
}

/// What the transfer agent and the ingest of its output come to when they
/// are called on.
pub struct Delivery {
    /// Whether the agent reports success.
    pub success: bool,
    /// Whether the agent's output directory is there afterwards.
    pub output_exists: bool,
    /// The files that the ingest of the output yields.
    pub files: Seq<FileInfoView>,
}

/// Where a whole synchronisation ends: the verification is answered from
/// `cache`, and if it leads to a transfer, agent and ingest do as
/// `delivery` says.
pub open spec fn synced(
    entries: Seq<EntryView>,
    request: RequestView,
    cache: Map<Seq<char>, Seq<char>>,
    delivery: Delivery,
) -> SyncPoint {
    let decided = verified_from(begun(entries, request), request, cache);
    ingested(
        decided.entries,
        request,
        located(transferred(decided.state, delivery.success), delivery.output_exists),
        delivery.files,
    )
}

/// Whether a whole synchronisation runs the transfer agent.
pub open spec fn runs_agent(
    entries: Seq<EntryView>,
    request: RequestView,
    cache: Map<Seq<char>, Seq<char>>,
) -> bool {
    verified_from(begun(entries, request), request, cache).state == SyncState::Transfer
}

/// A whole synchronisation runs the agent exactly when the request is not
/// satisfied. It ends in a commit exactly when the request is satisfied or
/// the agent succeeds, its output is there and the ingest yields a file;
/// in every other case the store is left as it was.
pub proof fn lemma_synced(
    entries: Seq<EntryView>,
    request: RequestView,
    cache: Map<Seq<char>, Seq<char>>,
    delivery: Delivery,
)
    requires
        has_id(entries, request.id) ==> recorded_files(entries, request).len() <= usize::MAX,
    ensures
        runs_agent(entries, request, cache) == !is_satisfied(entries, request, cache),
        synced(entries, request, cache, delivery) == if is_satisfied(entries, request, cache) {
            SyncPoint {
                entries: with_member(entries, request),
                state: SyncState::Commit(Outcome::UpToDate),
            }
        } else if !delivery.success {
            SyncPoint { entries, state: SyncState::Failed(Failure::TransferFailed) }
        } else if !delivery.output_exists {
            SyncPoint { entries, state: SyncState::Failed(Failure::OutputMissing) }
        } else if delivery.files.len() == 0 {
            SyncPoint { entries, state: SyncState::Failed(Failure::NoFiles) }
        } else {
            SyncPoint {
                entries: put(entries, request.id, fresh_record(entries, request, delivery.files)),
                state: SyncState::Commit(Outcome::Downloaded),
            }
        },
{
    lemma_decision(entries, request, cache);
}

/// Idempotence of two calls in a row. If a synchronisation has ended in a
/// commit, and the cache then holds the recorded files intact, the same
/// request made again, without force, does not run the agent: it ends in a
/// commit, with the list of files as the first call left it.
pub proof fn lemma_second_call_runs_no_agent(
    entries: Seq<EntryView>,
    request: RequestView,
    cache: Map<Seq<char>, Seq<char>>,
    delivery: Delivery,
    later: Map<Seq<char>, Seq<char>>,
)
    requires
        distinct_ids(entries),
        !request.force,
        has_id(entries, request.id) ==> recorded_files(entries, request).len() <= usize::MAX,
        delivery.files.len() <= usize::MAX,
        synced(entries, request, cache, delivery).state is Commit,
        all_intact(
            recorded_files(synced(entries, request, cache, delivery).entries, request),
            later,
        ),
    ensures
        ({
            let first = synced(entries, request, cache, delivery);
            let second = synced(first.entries, request, later, delivery);
            &&& !runs_agent(first.entries, request, later)
            &&& second.state == SyncState::Commit(Outcome::UpToDate)
            &&& recorded_files(second.entries, request) == recorded_files(first.entries, request)
        }),
{
    lemma_synced(entries, request, cache, delivery);
    let first = synced(entries, request, cache, delivery);
    if is_satisfied(entries, request, cache) {
        lemma_with_member(entries, request);
    } else {
        let record = fresh_record(entries, request, delivery.files);
        lemma_put(entries, request.id, record);
        assert(to_map(first.entries).contains_key(request.id));
        assert(to_map(first.entries)[request.id] == record);
        assert(record.files == delivery.files);
    }
    lemma_synced(first.entries, request, later, delivery);
    lemma_repeat_is_satisfied(first.entries, request, later);
}

/// Notes the request's collection at the requested item.
fn note_membership(store: &mut MetadataStore, request: &SyncRequest)
    ensures
        final(store)@ == with_member(old(store)@, request@),
{
    store.valid();
    let ghost before = store@;
    let updated = match store.get(request.item.id.as_str()) {
        Some(record) => {
            let mut copy = record.duplicate();
            match &request.collection_id {
                Some(collection) => {
                    copy.add_collection(collection.as_str());
                },
                None => {},
            }
            Some(copy)
        },
        None => None,
    };
    match updated {
        Some(record) => {
            match &request.collection_id {
                Some(_) => {
                    store.upsert(request.item.id.clone(), record);
                },
                None => {
                    proof {
                        let p = position_of(before, request@.id);
                        lemma_map_at(before, p);
                        assert(before.update(p, EntryView { id: request@.id, record: record@ })
                            =~= before);
                    }
                },
            }
        },
        None => {},
    }
}

/// Draws the consequence of the state of a verification.
fn settle(store: &mut MetadataStore, request: &SyncRequest, v: VerifyState) -> (state: SyncState)
    ensures
        (SyncPoint { entries: final(store)@, state }) == settled(old(store)@, request@, v),
{
    match v {
        VerifyState::Done(passed) => {
            if passed {
                note_membership(store, request);
                SyncState::Commit(Outcome::UpToDate)
            } else {
                SyncState::Transfer
            }
        },
        _ => SyncState::Verifying(v),
    }
}

/// Begins the synchronisation of the requested item.
pub fn sync_begin(store: &mut MetadataStore, request: &SyncRequest) -> (state: SyncState)
    ensures
        (SyncPoint { entries: final(store)@, state }) == begun(old(store)@, request@),
{
    if request.force {
        return SyncState::Transfer;
    }
    let first = match store.get(request.item.id.as_str()) {
        Some(record) => {
            if str_eq(record.changelog_id.as_str(), request.item.changelog_id.as_str()) {
                Some(verify_begin(&record.files))
            } else {
                None
            }
        },
        None => None,
    };
    match first {
        Some(v) => settle(store, request, v),
        None => SyncState::Transfer,
    }
}

/// Takes the answer to whether the file that the verification awaits
/// exists.
pub fn sync_exists(
    store: &mut MetadataStore,
    request: &SyncRequest,
    state: SyncState,
    exists: bool,
) -> (next: SyncState)
    ensures
        (SyncPoint { entries: final(store)@, state: next }) == exists_answered(
            old(store)@,
            request@,
            state,
            exists,
        ),
{
    match state {
        SyncState::Verifying(v) => {
            let after = match store.get(request.item.id.as_str()) {
                Some(record) => Some(verify_exists(&record.files, v, exists)),
                None => None,
            };
            match after {
                Some(v) => settle(store, request, v),
                None => SyncState::Transfer,
            }
        },
        _ => state,
    }
}

/// Takes the digest of the file that the verification awaits.
pub fn sync_digest(
    store: &mut MetadataStore,
    request: &SyncRequest,
    state: SyncState,
    digest: &str,
) -> (next: SyncState)
    ensures
        (SyncPoint { entries: final(store)@, state: next }) == digest_answered(
            old(store)@,
            request@,
            state,
            digest@,
        ),
{
    match state {
        SyncState::Verifying(v) => {
            let after = match store.get(request.item.id.as_str()) {
                Some(record) => Some(verify_digest(&record.files, v, digest)),
                None => None,
            };
            match after {
                Some(v) => settle(store, request, v),
                None => SyncState::Transfer,
            }
        },
        _ => state,
    }
}

/// Takes the result of the transfer agent's run.
pub fn sync_transferred(state: SyncState, success: bool) -> (next: SyncState)
    ensures
        next == transferred(state, success),
{
    match state {
        SyncState::Transfer => {
            if success {
                SyncState::Locate
            } else {
                SyncState::Failed(Failure::TransferFailed)
            }
        },
        _ => state,
    }
}

/// Takes the answer to whether the agent's output directory exists.
pub fn sync_located(state: SyncState, exists: bool) -> (next: SyncState)
    ensures
        next == located(state, exists),
{
    match state {
        SyncState::Locate => {
            if exists {
                SyncState::Ingest
            } else {
                SyncState::Failed(Failure::OutputMissing)
            }
        },
        _ => state,
    }
}

/// Takes the files that the ingest of the agent's output yielded.
pub fn sync_ingested(
    store: &mut MetadataStore,
    request: &SyncRequest,
    state: SyncState,
    files: Vec<FileInfo>,
) -> (next: SyncState)
    ensures
        (SyncPoint { entries: final(store)@, state: next }) == ingested(
            old(store)@,
            request@,
            state,
            files_view(files@),
        ),
{
    match state {
        SyncState::Ingest => {
            if files.len() == 0 {
                return SyncState::Failed(Failure::NoFiles);
            }
            let collection_ids = match store.get(request.item.id.as_str()) {
                Some(record) => duplicate_strings(&record.collection_ids),
                None => Vec::new(),
            };
            assert(store.map().contains_key(request@.id) == has_id(store@, request@.id));
            assert(!has_id(store@, request@.id) ==> strings_view(collection_ids@)
                =~= Seq::<Seq<char>>::empty());
            let mut record = WorkshopMetadata {
                title: request.item.title.clone(),
                changelog_id: request.item.changelog_id.clone(),
                files,
                collection_ids,
            };
            match &request.collection_id {
                Some(collection) => {
                    record.add_collection(collection.as_str());
                },
                None => {},
            }
            store.upsert(request.item.id.clone(), record);
            SyncState::Commit(Outcome::Downloaded)
        },
        _ => state,
    }
}

/// Whether a synchronisation has ended, and with which result: `true` for
/// a commit, `false` for a failure.
pub fn sync_result(state: SyncState) -> (result: Option<bool>)
    ensures
        result == match state {
            SyncState::Commit(_) => Some(true),
            SyncState::Failed(_) => Some(false),
            _ => None::<bool>,
        },
{
    match state {
        SyncState::Commit(_) => Some(true),
        SyncState::Failed(_) => Some(false),
        _ => None,
    }
}

} // verus!
