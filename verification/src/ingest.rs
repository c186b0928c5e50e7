//! Ingest: taking the files of a source tree into the cache root.
//!
//! The tree is walked depth first with an explicit stack of directories
//! that are still to be visited. The caller reads each directory and moves
//! the files; the `Ingest` says what is to be done with each entry, keeps
//! the stack, and collects the record of what was moved. It records only
//! files that it has told the caller to move, and so no file that the
//! inclusion policy does not allow.

use crate::model::{files_view, strings_view, FileInfo, FileInfoView};
use crate::paths::{join, joined};
use crate::policy::{allows, InclusionPolicy};
use vstd::prelude::*;

verus! {

/// What is to be done with one entry of a directory.
#[derive(Clone, Debug, PartialEq, Eq)]
pub enum EntryAction {
    /// The entry is a directory and will be visited later.
    Descend,
    /// The entry is a file that the policy does not allow. It stays where
    /// it is, and the caller may say so.
    Skip { rel_path: String },
    /// The entry is a file that the policy allows. The caller is to take
    /// the digest of the source file, copy it to the same relative path
    /// below the cache root, delete the source, and record the file.
    Move { rel_path: String },
}

/// What an `EntryAction` stands for.
pub enum ActionView {
    Descend,
    Skip { rel_path: Seq<char> },
    Move { rel_path: Seq<char> },
}

impl View for EntryAction {
    type V = ActionView;

    open spec fn view(&self) -> ActionView {
        match *self {
            EntryAction::Descend => ActionView::Descend,
            EntryAction::Skip { rel_path } => ActionView::Skip { rel_path: rel_path@ },
            EntryAction::Move { rel_path } => ActionView::Move { rel_path: rel_path@ },
        }
    }
}

/// The action for an entry at the relative path `rel_path`, given whether
/// it is a directory and whether the policy allows the path: a directory
/// is descended into, an allowed file is moved, any other file is passed
/// over.
pub open spec fn action_given(rel_path: Seq<char>, is_dir: bool, allowed: bool) -> ActionView {
    if is_dir {
        ActionView::Descend
    } else if allowed {
        ActionView::Move { rel_path }
    } else {
        ActionView::Skip { rel_path }
    }
}

/// The action for the entry `name` of the directory `rel_dir`, under a
/// policy with the given patterns.
pub open spec fn action_for(
    patterns: Seq<Seq<char>>,
    rel_dir: Seq<char>,
    name: Seq<char>,
    is_dir: bool,
) -> ActionView {
    let rel_path = joined(rel_dir, name);
    action_given(rel_path, is_dir, allows(patterns, rel_path))
}

/// The action for an entry at `rel_path`, given what the policy says of the
/// path.
pub fn entry_action(rel_path: String, is_dir: bool, allowed: bool) -> (action: EntryAction)
    ensures
        action@ == action_given(rel_path@, is_dir, allowed),
{
    if is_dir {
        EntryAction::Descend
    } else if allowed {
        EntryAction::Move { rel_path }
    } else {
        EntryAction::Skip { rel_path }
    }
}

/// Every one of `files` lies at a path that the patterns allow.
pub open spec fn all_allowed(patterns: Seq<Seq<char>>, files: Seq<FileInfoView>) -> bool {
    forall|i: int| 0 <= i < files.len() ==> allows(patterns, (#[trigger] files[i]).path)
}

/// Without a pattern nothing is allowed, so a list of allowed files is
/// empty.
pub proof fn lemma_inert_policy_yields_nothing(patterns: Seq<Seq<char>>, files: Seq<FileInfoView>)
    requires
        patterns.len() == 0,
        all_allowed(patterns, files),
    ensures
        files.len() == 0,
{
    if files.len() > 0 {
        assert(allows(patterns, files[0].path));
    }
}

/// The state of an ingest, as contracts see it.
pub struct IngestView {
    /// The patterns of the policy that the ingest runs under.
    pub patterns: Seq<Seq<char>>,
    /// The directories that are still to be visited, relative to the source
    /// root; the last one comes next.
    pub stack: Seq<Seq<char>>,
    /// The files moved so far, in the order in which they were recorded.
    pub files: Seq<FileInfoView>,
    /// The relative path of the file that is being moved, if one is.
    pub pending: Option<Seq<char>>,
}

/// An ingest under way.
pub struct Ingest<'a> {
    policy: &'a InclusionPolicy,
    stack: Vec<String>,
    files: Vec<FileInfo>,
    pending: Option<String>,
}

impl<'a> View for Ingest<'a> {
    type V = IngestView;

    closed spec fn view(&self) -> IngestView {
        IngestView {
            patterns: self.policy@,
            stack: strings_view(self.stack@),
            files: files_view(self.files@),
            pending: match self.pending {
                Some(path) => Some(path@),
                None => None,
            },
        }
    }
}

impl<'a> Ingest<'a> {
    #[verifier::type_invariant]
    spec fn only_allowed(&self) -> bool {
        &&& all_allowed(self@.patterns, self@.files)
        &&& self@.pending matches Some(path) ==> allows(self@.patterns, path)
    }

    /// Begins an ingest under `policy`. The source root itself, whose
    /// relative path is empty, is the one directory to be visited.
    pub fn begin(policy: &'a InclusionPolicy) -> (ingest: Ingest<'a>)
        ensures
            ingest@.patterns == policy@,
            ingest@.stack == seq![Seq::<char>::empty()],
            ingest@.files == Seq::<FileInfoView>::empty(),
            ingest@.pending is None,
    {
        let mut stack: Vec<String> = Vec::new();
        stack.push(String::new());
        let ingest = Ingest { policy, stack, files: Vec::new(), pending: None };
        assert(ingest@.stack =~= seq![Seq::<char>::empty()]);
        assert(ingest@.files =~= Seq::<FileInfoView>::empty());
        ingest
    }

    /// The files recorded so far were all allowed by the policy, and so is
    /// the file that is being moved.
    pub fn valid(&self)
        ensures
            all_allowed(self@.patterns, self@.files),
            self@.pending matches Some(path) ==> allows(self@.patterns, path),
            self@.patterns.len() == 0 ==> self@.files.len() == 0,
    {
        proof {
            use_type_invariant(self);
            if self@.patterns.len() == 0 {
                lemma_inert_policy_yields_nothing(self@.patterns, self@.files);
            }
        }
    }

    /// Moves stack and files out. What is left has neither, and no file
    /// pending.
    fn take_parts(&mut self) -> (parts: (Vec<String>, Vec<FileInfo>, Option<String>))
        ensures
            strings_view(parts.0@) == old(self)@.stack,
            files_view(parts.1@) == old(self)@.files,
            match parts.2 {
                Some(path) => old(self)@.pending == Some(path@),
                None => old(self)@.pending is None,
            },
            all_allowed(old(self)@.patterns, old(self)@.files),
            old(self)@.pending matches Some(path) ==> allows(old(self)@.patterns, path),
            final(self).policy == old(self).policy,
    {
        proof {
            use_type_invariant(&*self);
        }
        let mut taken =
            Ingest { policy: self.policy, stack: Vec::new(), files: Vec::new(), pending: None };
        core::mem::swap(self, &mut taken);
        (taken.stack, taken.files, taken.pending)
    }

    /// The directory to visit next, relative to the source root, or `None`
    /// when the walk is over. The directory leaves the stack. A file that
    /// was to be moved and was not recorded is given up.
    ///
    /// The caller passes over a directory that is no longer there. For any
    /// other it makes the directory of the same relative path below the
    /// cache root, whether or not a file will be moved into it, and then
    /// visits the entries.
    pub fn next_dir(&mut self) -> (dir: Option<String>)
        ensures
            final(self)@.patterns == old(self)@.patterns,
            final(self)@.files == old(self)@.files,
            final(self)@.pending is None,
            match dir {
                Some(d) => old(self)@.stack.len() > 0 && d@ == old(self)@.stack.last()
                    && final(self)@.stack == old(self)@.stack.drop_last(),
                None => old(self)@.stack.len() == 0 && final(self)@.stack == old(self)@.stack,
            },
    {
        let policy = self.policy;
        let (mut stack, files, _) = self.take_parts();
        let ghost before = strings_view(stack@);
        let dir = stack.pop();
        proof {
            if before.len() > 0 {
                assert(strings_view(stack@) =~= before.drop_last());
                assert(before.last() == dir.unwrap()@);
            } else {
                assert(strings_view(stack@) =~= before);
            }
        }
        *self = Ingest { policy, stack, files, pending: None };
        dir
    }

    /// Decides what is to be done with the entry `name` of the directory
    /// `rel_dir`. A directory goes on the stack; a file is to be moved if
    /// the policy allows its relative path, and is passed over otherwise. A
    /// file that is to be moved is pending until it is recorded; one that
    /// was pending before is given up.
    pub fn visit(&mut self, rel_dir: &str, name: &str, is_dir: bool) -> (action: EntryAction)
        ensures
            action@ == action_for(old(self)@.patterns, rel_dir@, name@, is_dir),
            final(self)@.patterns == old(self)@.patterns,
            final(self)@.files == old(self)@.files,
            final(self)@.stack == if is_dir {
                old(self)@.stack.push(joined(rel_dir@, name@))
            } else {
                old(self)@.stack
            },
            final(self)@.pending == match action@ {
                ActionView::Move { rel_path } => Some(rel_path),
                _ => None::<Seq<char>>,
            },
            old(self)@.patterns.len() == 0 ==> !(action is Move),
    {
        let rel_path = join(rel_dir, name);
        let policy = self.policy;
        let (mut stack, files, _) = self.take_parts();
        if is_dir {
            let ghost before = strings_view(stack@);
            stack.push(rel_path.clone());
            assert(strings_view(stack@) =~= before.push(joined(rel_dir@, name@)));
            *self = Ingest { policy, stack, files, pending: None };
            entry_action(rel_path, true, false)
        } else {
            let allowed = policy.is_allowed(rel_path.as_str());
            let pending = if allowed {
                Some(rel_path.clone())
            } else {
                None
            };
            *self = Ingest { policy, stack, files, pending };
            entry_action(rel_path, false, allowed)
        }
    }

    /// Records that the pending file was moved; `digest` is the digest of
    /// its content. Where no file is pending nothing is recorded, and the
    /// answer is `false`.
    pub fn record(&mut self, digest: String) -> (recorded: bool)
        ensures
            recorded == old(self)@.pending is Some,
            final(self)@.patterns == old(self)@.patterns,
            final(self)@.stack == old(self)@.stack,
            final(self)@.pending is None,
            final(self)@.files == match old(self)@.pending {
                Some(path) => old(self)@.files.push(FileInfoView { path, hash: digest@ }),
                None => old(self)@.files,
            },
    {
        let policy = self.policy;
        let (stack, mut files, pending) = self.take_parts();
        match pending {
            Some(path) => {
                let ghost before = files_view(files@);
                let ghost entry = FileInfoView { path: path@, hash: digest@ };
                files.push(FileInfo { path, hash: digest });
                assert(files_view(files@) =~= before.push(entry));
                *self = Ingest { policy, stack, files, pending: None };
                true
            },
            None => {
                *self = Ingest { policy, stack, files, pending: None };
                false
            },
        }
    }

    /// Ends the ingest and hands out the files that were recorded, in
    /// order. Under a policy without patterns there are none.
    pub fn finish(self) -> (files: Vec<FileInfo>)
        ensures
            files_view(files@) == self@.files,
            all_allowed(self@.patterns, files_view(files@)),
            self@.patterns.len() == 0 ==> files.len() == 0,
    {
        self.valid();
        self.files
    }
}

} // verus!
