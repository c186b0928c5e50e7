//! The maps of the cache by name: which item brought which map. The list
//! is a projection of the store and is made anew from it every time.

use crate::model::{files_view, FileInfoView, WorkshopMetadata};
use crate::store::{EntryView, MetadataStore};
use crate::text::{ascii_lower, char_ascii_lower, chars_of, push_char, string_of};
use vstd::prelude::*;

verus! {

/// Whether `path` names a map: it ends in `.bsp`, in capitals or not.
pub open spec fn is_map_path(path: Seq<char>) -> bool {
    let n = path.len() as int;
    &&& n >= 4
    &&& path[n - 4] == '.'
    &&& ascii_lower(path[n - 3]) == 'b'
    &&& ascii_lower(path[n - 2]) == 's'
    &&& ascii_lower(path[n - 1]) == 'p'
}

/// Whether `path` ends in `.bsp` in just these letters.
pub open spec fn is_plain_map_path(path: Seq<char>) -> bool {
    let n = path.len() as int;
    &&& n >= 4
    &&& path[n - 4] == '.'
    &&& path[n - 3] == 'b'
    &&& path[n - 2] == 's'
    &&& path[n - 1] == 'p'
}

/// Where the last component of `path[..len]` begins.
pub open spec fn name_start(path: Seq<char>, len: int) -> int
    decreases len,
{
    if len <= 0 {
        0
    } else if path[len - 1] == '/' {
        len
    } else {
        name_start(path, len - 1)
    }
}

/// The name of the map at `path`: the file's name without its extension.
/// A file that is called just `.bsp` keeps its whole name.
pub open spec fn map_stem(path: Seq<char>) -> Seq<char> {
    let start = name_start(path, path.len() as int);
    if path.len() - start == 4 {
        path.skip(start)
    } else {
        path.subrange(start, path.len() - 4)
    }
}

/// The name of the first map among the files from place `from` on.
pub open spec fn map_name_from(files: Seq<FileInfoView>, from: int) -> Option<Seq<char>>
    decreases files.len() - from,
{
    if from < 0 || from >= files.len() {
        None
    } else if is_map_path(files[from].path) {
        Some(map_stem(files[from].path))
    } else {
        map_name_from(files, from + 1)
    }
}

/// The name of the map that an item brought: that of the first map among
/// its files.
pub open spec fn map_name(files: Seq<FileInfoView>) -> Option<Seq<char>> {
    map_name_from(files, 0)
}

/// The name of the first file from place `from` on that ends in `.bsp` in
/// just these letters.
pub open spec fn plain_map_name_from(files: Seq<FileInfoView>, from: int) -> Option<Seq<char>>
    decreases files.len() - from,
{
    if from < 0 || from >= files.len() {
        None
    } else if is_plain_map_path(files[from].path) {
        Some(map_stem(files[from].path))
    } else {
        plain_map_name_from(files, from + 1)
    }
}

/// The last component begins within the path, and after every separator.
pub proof fn lemma_name_start(path: Seq<char>, len: int)
    requires
        0 <= len <= path.len(),
    ensures
        0 <= name_start(path, len) <= len,
        forall|i: int| name_start(path, len) <= i < len ==> path[i] != '/',
    decreases len,
{
    if len > 0 && path[len - 1] != '/' {
        lemma_name_start(path, len - 1);
    }
}

fn stem_of(chars: &Vec<char>) -> (stem: String)
    requires
        chars.len() >= 4,
        chars@[chars.len() - 4] == '.',
        chars@[chars.len() - 3] != '/',
        chars@[chars.len() - 2] != '/',
        chars@[chars.len() - 1] != '/',
    ensures
        stem@ == map_stem(chars@),
{
    let n = chars.len();
    let mut start: usize = n;
    while start > 0 && chars[start - 1] != '/'
        invariant
            start <= n == chars.len(),
            name_start(chars@, start as int) == name_start(chars@, n as int),
        decreases start,
    {
        start -= 1;
    }
    proof {
        lemma_name_start(chars@, n as int);
    }
    if n - start == 4 {
        let stem = string_of(chars, start, n);
        assert(chars@.subrange(start as int, n as int) =~= chars@.skip(start as int));
        stem
    } else {
        string_of(chars, start, n - 4)
    }
}

fn names_map(chars: &Vec<char>, any_case: bool) -> (found: bool)
    ensures
        found == if any_case {
            is_map_path(chars@)
        } else {
            is_plain_map_path(chars@)
        },
        found ==> chars.len() >= 4 && chars@[chars.len() - 4] == '.' && chars@[chars.len() - 3]
            != '/' && chars@[chars.len() - 2] != '/' && chars@[chars.len() - 1] != '/',
{
    let n = chars.len();
    if n < 4 {
        return false;
    }
    if any_case {
        chars[n - 4] == '.' && char_ascii_lower(chars[n - 3]) == 'b' && char_ascii_lower(
            chars[n - 2],
        ) == 's' && char_ascii_lower(chars[n - 1]) == 'p'
    } else {
        chars[n - 4] == '.' && chars[n - 3] == 'b' && chars[n - 2] == 's' && chars[n - 1] == 'p'
    }
}

/// The name of the map that an item brought, if it brought one.
pub fn extract_map_name(metadata: &WorkshopMetadata) -> (name: Option<String>)
    ensures
        match name {
            Some(n) => map_name(metadata@.files) == Some(n@),
            None => map_name(metadata@.files) is None,
        },
{
    let ghost files = metadata@.files;
    let mut i: usize = 0;
    while i < metadata.files.len()
        invariant
            i <= metadata.files.len(),
            files == files_view(metadata.files@),
            map_name_from(files, i as int) == map_name(files),
        decreases metadata.files.len() - i,
    {
        let chars = chars_of(metadata.files[i].path.as_str());
        assert(chars@ == files[i as int].path);
        if names_map(&chars, true) {
            return Some(stem_of(&chars));
        }
        i += 1;
    }
    None
}

/// The name under which an item is listed: that of its first file that
/// ends in `.bsp`, or `no_map`.
pub open spec fn listed_name(files: Seq<FileInfoView>) -> Seq<char> {
    match plain_map_name_from(files, 0) {
        Some(name) => name,
        None => "no_map"@,
    }
}

/// `text`, filled up with blanks at the end to `width` characters.
pub open spec fn padded(text: Seq<char>, width: int) -> Seq<char> {
    if text.len() >= width {
        text
    } else {
        text + Seq::new((width - text.len()) as nat, |i: int| ' ')
    }
}

/// The line for an item in the short list: its ID in a column of twelve
/// characters, a blank, and the name it is listed under.
pub open spec fn list_line_text(id: Seq<char>, files: Seq<FileInfoView>) -> Seq<char> {
    padded(id, 12) + seq![' '] + listed_name(files)
}

/// The line for an item in the short list.
pub fn list_line(id: &str, metadata: &WorkshopMetadata) -> (line: String)
    ensures
        line@ == list_line_text(id@, metadata@.files),
{
    let ghost files = metadata@.files;
    let mut line = String::from_str(id);
    let mut width: usize = id.unicode_len();
    while width < 12
        invariant
            width <= 12 || width == id@.len(),
            width >= id@.len(),
            line@ == id@ + Seq::new((width - id@.len()) as nat, |i: int| ' '),
        decreases 12 - width,
    {
        let ghost before = line@;
        push_char(&mut line, ' ');
        width += 1;
        assert(line@ =~= id@ + Seq::new((width - id@.len()) as nat, |i: int| ' '));
    }
    assert(line@ =~= padded(id@, 12));
    push_char(&mut line, ' ');
    let mut i: usize = 0;
    while i < metadata.files.len()
        invariant
            i <= metadata.files.len(),
            files == files_view(metadata.files@),
            plain_map_name_from(files, i as int) == plain_map_name_from(files, 0),
            line@ == padded(id@, 12) + seq![' '],
        decreases metadata.files.len() - i,
    {
        let chars = chars_of(metadata.files[i].path.as_str());
        assert(chars@ == files[i as int].path);
        if names_map(&chars, false) {
            let stem = stem_of(&chars);
            line.append(stem.as_str());
            return line;
        }
        i += 1;
    }
    line.append("no_map");
    line
}

/// The line of the list of maps for the map `name` of item `id`.
pub open spec fn maps_line(name: Seq<char>, id: Seq<char>) -> Seq<char> {
    "\t\""@ + name + "\"\t\t\""@ + id + "\"\n"@
}

/// The lines of the list of maps: one for each record that has a map, in
/// the order of the store.
pub open spec fn maps_lines(entries: Seq<EntryView>) -> Seq<char>
    decreases entries.len(),
{
    if entries.len() == 0 {
        Seq::empty()
    } else {
        let last = entries.last();
        maps_lines(entries.drop_last()) + match map_name(last.record.files) {
            Some(name) => maps_line(name, last.id),
            None => Seq::empty(),
        }
    }
}

/// The list of maps in full.
pub open spec fn maps_content(entries: Seq<EntryView>) -> Seq<char> {
    "\"WorkshopMaps\"\n{\n"@ + maps_lines(entries) + "}\n"@
}

/// The list of maps for the records of `store`.
pub fn workshop_maps_content(store: &MetadataStore) -> (content: String)
    ensures
        content@ == maps_content(store@),
{
    let mut content = String::from_str("\"WorkshopMaps\"\n{\n");
    let mut i: usize = 0;
    while i < store.len()
        invariant
            i <= store@.len(),
            content@ == "\"WorkshopMaps\"\n{\n"@ + maps_lines(store@.take(i as int)),
        decreases store@.len() - i,
    {
        proof {
            assert(store@.take(i + 1).drop_last() =~= store@.take(i as int));
            assert(store@.take(i + 1).last() == store@[i as int]);
        }
        let ghost before = content@;
        match extract_map_name(store.record_at(i)) {
            Some(name) => {
                content.append("\t\"");
                content.append(name.as_str());
                content.append("\"\t\t\"");
                content.append(store.id_at(i).as_str());
                content.append("\"\n");
                assert(content@ =~= before + maps_line(name@, store@[i as int].id));
            },
            None => {
                assert(content@ =~= before + Seq::<char>::empty());
            },
        }
        i += 1;
        assert(content@ =~= "\"WorkshopMaps\"\n{\n"@ + maps_lines(store@.take(i as int)));
    }
    assert(store@.take(i as int) =~= store@);
    content.append("}\n");
    content
}

} // verus!
