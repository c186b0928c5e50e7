//! Paths as texts with `/` between their components, and the places that
//! the manager works with.
//!
//! A path is read as the operating system reads it: a leading `/` is the
//! root, repeated separators count once, and a component `.` counts only
//! at the very front.

use crate::config::{Config, ConfigError};
use crate::text::{chars_of, concat, string_of};
use vstd::prelude::*;

verus! {

/// `rel` adjoined to `base`: an absolute `rel` stands alone; otherwise it
/// follows `base`, with one separator between them unless `base` is empty
/// or ends in one.
pub open spec fn joined(base: Seq<char>, rel: Seq<char>) -> Seq<char> {
    if rel.len() > 0 && rel[0] == '/' {
        rel
    } else if base.len() == 0 || base.last() == '/' {
        base + rel
    } else {
        base + seq!['/'] + rel
    }
}

/// The length of the front of `path` that belongs to no named component:
/// the root, or a leading `.`.
pub open spec fn front_len(path: Seq<char>) -> int {
    if path.len() > 0 && path[0] == '/' {
        1
    } else if path.len() > 0 && path[0] == '.' && (path.len() == 1 || path[1] == '/') {
        1
    } else {
        0
    }
}

/// The length that is left of `path[..len]` when trailing separators and
/// trailing `.` components are dropped, down to `floor` at most.
pub open spec fn trimmed_len(path: Seq<char>, floor: int, len: int) -> int
    decreases len,
{
    if len <= floor || floor < 0 {
        len
    } else if path[len - 1] == '/' {
        trimmed_len(path, floor, len - 1)
    } else if path[len - 1] == '.' && len - 1 == floor {
        len - 1
    } else if path[len - 1] == '.' && path[len - 2] == '/' {
        trimmed_len(path, floor, len - 2)
    } else {
        len
    }
}

/// The length that is left of `path[..len]` when its last component goes,
/// together with the separator before it, down to `floor` at most.
pub open spec fn cut_len(path: Seq<char>, floor: int, len: int) -> int
    decreases len,
{
    if len <= floor || floor < 0 {
        len
    } else if path[len - 1] == '/' {
        len - 1
    } else {
        cut_len(path, floor, len - 1)
    }
}

/// The path without its last component. A path that ends at the root, and
/// the empty path, have no parent; the parent of a single relative
/// component is the empty path.
pub open spec fn parent_of(path: Seq<char>) -> Option<Seq<char>> {
    let floor = front_len(path);
    let end = trimmed_len(path, floor, path.len() as int);
    if end > floor {
        Some(path.take(trimmed_len(path, floor, cut_len(path, floor, end))))
    } else if floor == 1 && path[0] == '.' {
        Some(Seq::empty())
    } else {
        None
    }
}

/// The trimmed length stays between the floor and the length it began with.
pub proof fn lemma_trimmed_len(path: Seq<char>, floor: int, len: int)
    requires
        0 <= floor <= len,
    ensures
        floor <= trimmed_len(path, floor, len) <= len,
    decreases len,
{
    if len <= floor || floor < 0 {
    } else if path[len - 1] == '/' {
        lemma_trimmed_len(path, floor, len - 1);
    } else if path[len - 1] == '.' && len - 1 == floor {
    } else if path[len - 1] == '.' && path[len - 2] == '/' {
        lemma_trimmed_len(path, floor, len - 2);
    }
}

/// The cut length stays between the floor and the length it began with.
pub proof fn lemma_cut_len(path: Seq<char>, floor: int, len: int)
    requires
        0 <= floor <= len,
    ensures
        floor <= cut_len(path, floor, len) <= len,
    decreases len,
{
    if len <= floor || floor < 0 {
    } else if path[len - 1] == '/' {
    } else {
        lemma_cut_len(path, floor, len - 1);
    }
}

/// A parent is a front part of its path.
pub proof fn lemma_parent_is_prefix(path: Seq<char>)
    ensures
        parent_of(path) matches Some(parent) ==> parent.is_prefix_of(path),
{
    let floor = front_len(path);
    let end = trimmed_len(path, floor, path.len() as int);
    lemma_trimmed_len(path, floor, path.len() as int);
    if end > floor {
        lemma_cut_len(path, floor, end);
        lemma_trimmed_len(path, floor, cut_len(path, floor, end));
    }
}

/// A single component with a name of its own: not empty, without a
/// separator, and neither `.` nor `..`.
pub open spec fn is_plain_name(name: Seq<char>) -> bool {
    &&& name.len() > 0
    &&& forall|i: int| 0 <= i < name.len() ==> name[i] != '/'
    &&& name != seq!['.']
    &&& name != seq!['.', '.']
}

/// A path that does not end in a separator or in a `.` component that
/// trimming would drop.
pub open spec fn is_trim(path: Seq<char>) -> bool {
    trimmed_len(path, front_len(path), path.len() as int) == path.len()
}

/// Cutting the last component off a path that ends in a plain name, after
/// `dir`, leaves `dir` without the separator that stood between them.
proof fn lemma_cut_name(path: Seq<char>, floor: int, start: int, len: int)
    requires
        0 <= floor <= start <= len <= path.len(),
        forall|i: int| start <= i < len ==> path[i] != '/',
        start > floor ==> path[start - 1] == '/',
    ensures
        cut_len(path, floor, len) == if start > floor {
            start - 1
        } else {
            start
        },
    decreases len - start,
{
    if len > start {
        lemma_cut_name(path, floor, start, len - 1);
    }
}

/// The parent of a directory's entry is the directory: adjoining a plain
/// name to a trim path and taking the parent gives the path back.
pub proof fn lemma_parent_of_joined(dir: Seq<char>, name: Seq<char>)
    requires
        is_trim(dir),
        is_plain_name(name),
    ensures
        parent_of(joined(dir, name)) == Some(dir),
{
    let path = joined(dir, name);
    let n = path.len() as int;
    let d = dir.len() as int;
    let floor = front_len(path);
    lemma_trimmed_len(dir, front_len(dir), d);
    if d == 0 {
        assert(path =~= name);
        assert(floor == 0) by {
            if name[0] == '.' {
                assert(name.len() > 1) by {
                    if name.len() == 1 {
                        assert(name =~= seq!['.']);
                    }
                }
            }
        }
        assert(trimmed_len(path, 0, n) == n) by {
            if path[n - 1] == '.' && n == 2 {
                assert(path[0] != '.') by {
                    if path[0] == '.' {
                        assert(name =~= seq!['.', '.']);
                    }
                }
            }
        }
        lemma_cut_name(path, 0, 0, n);
        assert(path.take(0) =~= dir);
    } else {
        let sep = dir.last() != '/';
        let start = if sep { d + 1 } else { d };
        assert(path =~= if sep { dir + seq!['/'] + name } else { dir + name });
        assert(forall|i: int| 0 <= i < d ==> path[i] == dir[i]);
        assert(forall|i: int| start <= i < n ==> path[i] == name[i - start]);
        assert(path[start - 1] == '/');
        assert(floor == front_len(dir)) by {
            if d == 1 {
                assert(path[1] == '/' || dir[0] == '/') by {
                    if !sep {
                        assert(dir[0] == '/');
                    }
                }
            }
        }
        // A trim path ends in a separator only where it is the root.
        assert(!sep ==> d == floor) by {
            if !sep && d > front_len(dir) {
                assert(trimmed_len(dir, front_len(dir), d) == trimmed_len(
                    dir,
                    front_len(dir),
                    d - 1,
                ));
                lemma_trimmed_len(dir, front_len(dir), d - 1);
            }
        }
        assert(floor <= d);
        assert(trimmed_len(path, floor, n) == n) by {
            if path[n - 1] == '.' {
                if name.len() == 1 {
                    assert(name =~= seq!['.']);
                }
                assert(path[n - 2] == name[name.len() - 2]);
            }
        }
        lemma_cut_name(path, floor, start, n);
        let cut = cut_len(path, floor, n);
        assert(cut == d);
        assert(trimmed_len(path, floor, d) == d) by {
            lemma_same_trim(dir, path, floor, d);
        }
        assert(path.take(d) =~= dir);
    }
}

/// Trimming looks only at the part of the path that it is given.
proof fn lemma_same_trim(a: Seq<char>, b: Seq<char>, floor: int, len: int)
    requires
        0 <= len <= a.len(),
        len <= b.len(),
        forall|i: int| 0 <= i < len ==> a[i] == b[i],
    ensures
        trimmed_len(a, floor, len) == trimmed_len(b, floor, len),
    decreases len,
{
    if len <= floor || floor < 0 {
    } else if a[len - 1] == '/' {
        lemma_same_trim(a, b, floor, len - 1);
    } else if a[len - 1] == '.' && len - 1 == floor {
    } else if a[len - 1] == '.' && a[len - 2] == '/' {
        lemma_same_trim(a, b, floor, len - 2);
    }
}

/// Adjoins `rel` to `base`.
pub fn join(base: &str, rel: &str) -> (path: String)
    ensures
        path@ == joined(base@, rel@),
{
    let rel_chars = chars_of(rel);
    if rel_chars.len() > 0 && rel_chars[0] == '/' {
        return String::from_str(rel);
    }
    let base_chars = chars_of(base);
    if base_chars.len() == 0 || base_chars[base_chars.len() - 1] == '/' {
        concat(base, rel)
    } else {
        let mut path = concat(base, "/");
        proof {
            reveal_strlit("/");
            assert("/"@ =~= seq!['/']);
        }
        path.append(rel);
        path
    }
}

fn front(chars: &Vec<char>) -> (floor: usize)
    ensures
        floor == front_len(chars@),
        floor <= chars.len(),
{
    if chars.len() > 0 && chars[0] == '/' {
        1
    } else if chars.len() > 0 && chars[0] == '.' && (chars.len() == 1 || chars[1] == '/') {
        1
    } else {
        0
    }
}

fn trim(chars: &Vec<char>, floor: usize, len: usize) -> (end: usize)
    requires
        floor <= len <= chars.len(),
    ensures
        end == trimmed_len(chars@, floor as int, len as int),
        floor <= end <= len,
{
    let mut end = len;
    while end > floor
        invariant
            floor <= end <= len <= chars.len(),
            trimmed_len(chars@, floor as int, end as int) == trimmed_len(
                chars@,
                floor as int,
                len as int,
            ),
        decreases end,
    {
        if chars[end - 1] == '/' {
            end -= 1;
        } else if chars[end - 1] == '.' && end - 1 == floor {
            end -= 1;
        } else if chars[end - 1] == '.' && chars[end - 2] == '/' {
            end -= 2;
        } else {
            return end;
        }
    }
    end
}

fn cut(chars: &Vec<char>, floor: usize, len: usize) -> (end: usize)
    requires
        floor <= len <= chars.len(),
    ensures
        end == cut_len(chars@, floor as int, len as int),
        floor <= end <= len,
{
    let mut end = len;
    while end > floor
        invariant
            floor <= end <= len <= chars.len(),
            cut_len(chars@, floor as int, end as int) == cut_len(chars@, floor as int, len as int),
        decreases end,
    {
        end -= 1;
        if chars[end] == '/' {
            return end;
        }
    }
    end
}

/// The path without its last component, if it has one.
pub fn parent(path: &str) -> (dir: Option<String>)
    ensures
        match dir {
            Some(d) => parent_of(path@) == Some(d@),
            None => parent_of(path@) is None,
        },
{
    let chars = chars_of(path);
    let floor = front(&chars);
    let end = trim(&chars, floor, chars.len());
    if end > floor {
        let kept = trim(&chars, floor, cut(&chars, floor, end));
        let dir = string_of(&chars, 0, kept);
        assert(chars@.subrange(0, kept as int) =~= path@.take(kept as int));
        Some(dir)
    } else if floor == 1 && chars[0] == '.' {
        Some(String::new())
    } else {
        None
    }
}

/// The places that the manager works with.
#[derive(Clone, Debug, PartialEq, Eq)]
pub struct ManagerPaths {
    /// The cache root.
    pub local_files: String,
    /// The executable of the transfer agent.
    pub steamcmd: String,
    /// The file that the metadata store is persisted in.
    pub metadata_file: String,
    /// The file that lists the maps of the cache by name.
    pub workshop_maps_file: String,
}

/// The directory in which the transfer agent, installed below `agent_dir`,
/// leaves the files of an item.
pub open spec fn workshop_dir(agent_dir: Seq<char>, appid: Seq<char>, workshop_id: Seq<char>)
    -> Seq<char> {
    joined(
        joined(
            joined(
                joined(joined(joined(agent_dir, "necodl"@), "steamapps"@), "workshop"@),
                "content"@,
            ),
            appid,
        ),
        workshop_id,
    )
}

impl ManagerPaths {
    /// The places that follow from the settings, for a process that runs in
    /// `current_dir`: the store's file lies in the current directory, the
    /// list of maps in the cache root.
    pub fn new(config: &Config, current_dir: &str) -> (paths: ManagerPaths)
        ensures
            paths.local_files@ == config@.output_dir,
            paths.steamcmd@ == config@.steam_cmd,
            paths.metadata_file@ == joined(current_dir@, "metadata.json"@),
            paths.workshop_maps_file@ == joined(config@.output_dir, "workshop_maps.txt"@),
    {
        ManagerPaths {
            local_files: config.output_dir.clone(),
            steamcmd: config.steam_cmd.clone(),
            metadata_file: join(current_dir, "metadata.json"),
            workshop_maps_file: join(config.output_dir.as_str(), "workshop_maps.txt"),
        }
    }

    /// The directory in which the transfer agent leaves the files of item
    /// `workshop_id` of application `appid`. It lies below the directory of
    /// the agent's executable, and there is none where that executable's
    /// path has no parent.
    pub fn steamcmd_workshop_path(&self, appid: &str, workshop_id: &str) -> (path: Result<
        String,
        ConfigError,
    >)
        ensures
            match parent_of(self.steamcmd@) {
                Some(dir) => path matches Ok(p) && p@ == workshop_dir(dir, appid@, workshop_id@),
                None => path == Err::<String, ConfigError>(ConfigError::NoParent),
            },
    {
        match parent(self.steamcmd.as_str()) {
            Some(dir) => {
                let a = join(dir.as_str(), "necodl");
                let b = join(a.as_str(), "steamapps");
                let c = join(b.as_str(), "workshop");
                let d = join(c.as_str(), "content");
                let e = join(d.as_str(), appid);
                Ok(join(e.as_str(), workshop_id))
            },
            None => Err(ConfigError::NoParent),
        }
    }

    /// Where the tracked file with the relative path `rel` lies.
    pub fn cached_file(&self, rel: &str) -> (path: String)
        ensures
            path@ == joined(self.local_files@, rel@),
    {
        join(self.local_files.as_str(), rel)
    }
}

} // verus!
