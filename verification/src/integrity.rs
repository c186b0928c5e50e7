//! Integrity of tracked files: whether every file of a record is still at
//! its place below the cache root, with the content that was recorded.
//!
//! Looking at the disk is the caller's part. The functions here say which
//! question comes next and what follows from each answer, so that no file
//! is read once the result is known.

use crate::model::{files_view, FileInfo, FileInfoView};
use crate::text::str_eq;
use vstd::prelude::*;

verus! {

/// One tracked file is intact in `cache`, the mapping from each path that
/// exists below the cache root to the digest of what lies there: the file
/// exists, and its digest is the recorded one unless none was recorded.
pub open spec fn file_intact(file: FileInfoView, cache: Map<Seq<char>, Seq<char>>) -> bool {
    cache.contains_key(file.path) && (file.hash.len() == 0 || cache[file.path] == file.hash)
}

/// Every one of `files` is intact in `cache`.
pub open spec fn all_intact(files: Seq<FileInfoView>, cache: Map<Seq<char>, Seq<char>>) -> bool {
    forall|i: int| 0 <= i < files.len() ==> file_intact(#[trigger] files[i], cache)
}

/// Where a verification stands.
#[derive(Clone, Copy, Debug, PartialEq, Eq, Structural)]
pub enum VerifyState {
    /// The caller is to say whether the file at this place of the list
    /// exists.
    AwaitExists(usize),
    /// The caller is to give the digest of the file at this place.
    AwaitDigest(usize),
    /// The result is known.
    Done(bool),
}

/// The state in which the files from place `next` on are still to be
/// looked at. Places that no vector has are not looked at.
pub open spec fn state_from(files: Seq<FileInfoView>, next: int) -> VerifyState {
    if 0 <= next < files.len() && next <= usize::MAX {
        VerifyState::AwaitExists(next as usize)
    } else {
        VerifyState::Done(true)
    }
}

/// The state in which a verification of `files` begins.
pub open spec fn begin_state(files: Seq<FileInfoView>) -> VerifyState {
    state_from(files, 0)
}

/// The state after the caller has said whether the awaited file exists. A
/// missing file settles the result; a file without a recorded digest is
/// done with; any other needs its digest. An answer that was not awaited
/// changes nothing.
pub open spec fn after_exists(files: Seq<FileInfoView>, state: VerifyState, exists: bool)
    -> VerifyState {
    match state {
        VerifyState::AwaitExists(i) if i < files.len() => {
            if !exists {
                VerifyState::Done(false)
            } else if files[i as int].hash.len() == 0 {
                state_from(files, i + 1)
            } else {
                VerifyState::AwaitDigest(i)
            }
        },
        _ => state,
    }
}

/// The state after the caller has given the digest of the awaited file. A
/// digest that was not awaited changes nothing.
pub open spec fn after_digest(files: Seq<FileInfoView>, state: VerifyState, digest: Seq<char>)
    -> VerifyState {
    match state {
        VerifyState::AwaitDigest(i) if i < files.len() => {
            if digest == files[i as int].hash {
                state_from(files, i + 1)
            } else {
                VerifyState::Done(false)
            }
        },
        _ => state,
    }
}

/// A bound on the number of answers that a verification in `state` can
/// still take.
pub open spec fn answers_left(files: Seq<FileInfoView>, state: VerifyState) -> nat {
    match state {
        VerifyState::AwaitExists(i) if i < files.len() => (2 * (usize::MAX - i) + 2) as nat,
        VerifyState::AwaitDigest(i) if i < files.len() => (2 * (usize::MAX - i) + 1) as nat,
        _ => 0,
    }
}

/// The result that a verification in `state` ends with when every question
/// is answered from `cache`. A state that awaits a file outside the list
/// has no result and counts as a failure.
pub open spec fn outcome(
    files: Seq<FileInfoView>,
    state: VerifyState,
    cache: Map<Seq<char>, Seq<char>>,
) -> bool
    decreases answers_left(files, state),
{
    match state {
        VerifyState::Done(result) => result,
        VerifyState::AwaitExists(i) => {
            if i < files.len() {
                outcome(
                    files,
                    after_exists(files, state, cache.contains_key(files[i as int].path)),
                    cache,
                )
            } else {
                false
            }
        },
        VerifyState::AwaitDigest(i) => {
            if i < files.len() {
                outcome(files, after_digest(files, state, cache[files[i as int].path]), cache)
            } else {
                false
            }
        },
    }
}

/// A verification that still has the files from place `next` on before it
/// passes exactly when all of them are intact.
pub proof fn lemma_outcome_from(
    files: Seq<FileInfoView>,
    next: int,
    cache: Map<Seq<char>, Seq<char>>,
)
    requires
        0 <= next <= files.len(),
        files.len() <= usize::MAX,
    ensures
        outcome(files, state_from(files, next), cache) == (forall|i: int|
            next <= i < files.len() ==> file_intact(#[trigger] files[i], cache)),
    decreases files.len() - next,
{
    if next < files.len() {
        let file = files[next];
        lemma_outcome_from(files, next + 1, cache);
        let first = VerifyState::AwaitExists(next as usize);
        let exists = cache.contains_key(file.path);
        let second = after_exists(files, first, exists);
        assert(outcome(files, first, cache) == outcome(files, second, cache));
        if !exists {
            assert(!file_intact(files[next], cache));
        } else if file.hash.len() == 0 {
            assert(file_intact(files[next], cache));
        } else {
            assert(second == VerifyState::AwaitDigest(next as usize));
            let third = after_digest(files, second, cache[file.path]);
            assert(outcome(files, second, cache) == outcome(files, third, cache));
            if cache[file.path] != file.hash {
                assert(!file_intact(files[next], cache));
            }
        }
    }
}

/// Answered from the disk, a verification passes exactly when every file of
/// the list is intact.
pub proof fn lemma_verification_decides(files: Seq<FileInfoView>, cache: Map<Seq<char>, Seq<char>>)
    requires
        files.len() <= usize::MAX,
    ensures
        outcome(files, begin_state(files), cache) == all_intact(files, cache),
{
    lemma_outcome_from(files, 0, cache);
}

impl FileInfo {
    /// Whether a digest was recorded for this file. Where none was, the
    /// file's presence is all that is asked of it.
    pub fn needs_digest(&self) -> (needed: bool)
        ensures
            needed == (self@.hash.len() != 0),
    {
        !self.hash.as_str().is_empty()
    }

    /// Whether `digest` is the digest that was recorded for this file.
    pub fn matches(&self, digest: &str) -> (same: bool)
        ensures
            same == (digest@ == self@.hash),
    {
        str_eq(digest, self.hash.as_str())
    }
}

fn from_place(files: &Vec<FileInfo>, next: usize) -> (state: VerifyState)
    ensures
        state == state_from(files_view(files@), next as int),
{
    if next < files.len() {
        VerifyState::AwaitExists(next)
    } else {
        VerifyState::Done(true)
    }
}

/// Begins a verification of `files`.
pub fn verify_begin(files: &Vec<FileInfo>) -> (state: VerifyState)
    ensures
        state == begin_state(files_view(files@)),
{
    from_place(files, 0)
}

/// Takes the answer to whether the awaited file exists.
pub fn verify_exists(files: &Vec<FileInfo>, state: VerifyState, exists: bool) -> (next: VerifyState)
    ensures
        next == after_exists(files_view(files@), state, exists),
{
    match state {
        VerifyState::AwaitExists(i) => {
            if i < files.len() {
                if !exists {
                    VerifyState::Done(false)
                } else if files[i].needs_digest() {
                    VerifyState::AwaitDigest(i)
                } else {
                    from_place(files, i + 1)
                }
            } else {
                state
            }
        },
        _ => state,
    }
}

/// Takes the digest of the awaited file.
pub fn verify_digest(files: &Vec<FileInfo>, state: VerifyState, digest: &str) -> (next:
    VerifyState)
    ensures
        next == after_digest(files_view(files@), state, digest@),
{
    match state {
        VerifyState::AwaitDigest(i) => {
            if i < files.len() {
                if files[i].matches(digest) {
                    from_place(files, i + 1)
                } else {
                    VerifyState::Done(false)
                }
            } else {
                state
            }
        },
        _ => state,
    }
}

} // verus!
