//! The commands of the interactive shell: how a line of input is read.

use crate::model::strings_view;
use crate::text::{
    ascii_lowered, char_is_whitespace, chars_of, eq_ignore_ascii_case, is_whitespace, str_eq,
    string_of,
};
use vstd::prelude::*;

verus! {

/// The words of a text: its longest runs of characters that are not white
/// space, in order. The definition reads the text from left to right, one
/// character at a time: white space adds nothing, a character after
/// another character of a word lengthens the last word, and any other
/// character begins a new word.
pub open spec fn words(s: Seq<char>) -> Seq<Seq<char>>
    decreases s.len(),
{
    if s.len() == 0 {
        Seq::empty()
    } else {
        let before = words(s.drop_last());
        let c = s.last();
        if is_whitespace(c) {
            before
        } else if s.len() >= 2 && !is_whitespace(s[s.len() - 2]) && before.len() > 0 {
            before.drop_last().push(before.last().push(c))
        } else {
            before.push(seq![c])
        }
    }
}

/// After a character of a word, the text read so far has a last word, and
/// no word is empty.
pub proof fn lemma_words(s: Seq<char>)
    ensures
        s.len() > 0 && !is_whitespace(s.last()) ==> words(s).len() > 0,
        forall|i: int| 0 <= i < words(s).len() ==> (#[trigger] words(s)[i]).len() > 0,
    decreases s.len(),
{
    if s.len() > 0 {
        lemma_words(s.drop_last());
        let before = words(s.drop_last());
        assert forall|i: int| 0 <= i < words(s).len() implies (#[trigger] words(s)[i]).len()
            > 0 by {
            if i < before.len() - 1 {
                assert(before[i].len() > 0);
            } else if i < before.len() {
                assert(before[i].len() > 0);
            }
        }
    }
}

/// The words of `input`.
pub fn split_words(input: &str) -> (found: Vec<String>)
    ensures
        strings_view(found@) == words(input@),
{
    let chars = chars_of(input);
    let mut found: Vec<String> = Vec::new();
    let mut start: usize = 0;
    let mut i: usize = 0;
    while i < chars.len()
        invariant
            start <= i <= chars.len(),
            chars@ == input@,
            forall|j: int| start <= j < i ==> !is_whitespace(#[trigger] chars@[j]),
            start > 0 ==> is_whitespace(chars@[start - 1]),
            words(chars@.take(i as int)) == if start < i {
                strings_view(found@).push(chars@.subrange(start as int, i as int))
            } else {
                strings_view(found@)
            },
        decreases chars.len() - i,
    {
        let ghost read = chars@.take(i as int);
        let ghost next = chars@.take(i + 1);
        proof {
            assert(next.drop_last() =~= read);
            assert(next.last() == chars@[i as int]);
            lemma_words(read);
            if i > 0 {
                assert(next[next.len() - 2] == chars@[i - 1]);
                assert(read.last() == chars@[i - 1]);
            }
        }
        if char_is_whitespace(chars[i]) {
            if start < i {
                let ghost before = strings_view(found@);
                found.push(string_of(&chars, start, i));
                assert(strings_view(found@) =~= before.push(
                    chars@.subrange(start as int, i as int),
                ));
            }
            start = i + 1;
        } else {
            proof {
                let open = chars@.subrange(start as int, i as int);
                let grown = chars@.subrange(start as int, i + 1);
                if start < i {
                    assert(strings_view(found@).push(open).drop_last() =~= strings_view(found@));
                    assert(open.push(chars@[i as int]) =~= grown);
                } else {
                    assert(grown =~= seq![chars@[i as int]]);
                }
            }
        }
        i += 1;
    }
    assert(chars@.take(i as int) =~= chars@);
    if start < i {
        let ghost before = strings_view(found@);
        found.push(string_of(&chars, start, i));
        assert(strings_view(found@) =~= before.push(chars@.subrange(start as int, i as int)));
    }
    found
}

/// What a `download` command asks for.
#[derive(Clone, Debug, PartialEq, Eq)]
pub enum DownloadArgs {
    /// No argument was given: the usage is to be shown.
    Usage,
    /// An argument begins with `-` and is no known option.
    UnknownOption { option: String },
    /// No item ID was given.
    MissingId,
    /// The item or collection `id` is to be fetched.
    Fetch { id: String, force: bool },
}

/// What a `DownloadArgs` stands for.
pub enum DownloadArgsView {
    Usage,
    UnknownOption { option: Seq<char> },
    MissingId,
    Fetch { id: Seq<char>, force: bool },
}

impl View for DownloadArgs {
    type V = DownloadArgsView;

    open spec fn view(&self) -> DownloadArgsView {
        match *self {
            DownloadArgs::Usage => DownloadArgsView::Usage,
            DownloadArgs::UnknownOption { option } => DownloadArgsView::UnknownOption {
                option: option@,
            },
            DownloadArgs::MissingId => DownloadArgsView::MissingId,
            DownloadArgs::Fetch { id, force } => DownloadArgsView::Fetch { id: id@, force },
        }
    }
}

/// Whether `arg` is the option that forces a transfer.
pub open spec fn is_force_flag(arg: Seq<char>) -> bool {
    arg == "-f"@ || arg == "--force"@
}

/// Whether `arg` is the option that asks for details.
pub open spec fn is_verbose_flag(arg: Seq<char>) -> bool {
    arg == "-v"@ || arg == "--verbose"@
}

/// The reading of the arguments from place `i` on, when `force` and `id`
/// are what the arguments before have given. The option to force may come
/// anywhere; of several IDs the last one counts; the first unknown option
/// ends the reading.
pub open spec fn download_args_from(args: Seq<Seq<char>>, i: int, force: bool, id: Seq<char>)
    -> DownloadArgsView
    decreases args.len() - i,
{
    if i < 0 || i >= args.len() {
        if id.len() == 0 {
            DownloadArgsView::MissingId
        } else {
            DownloadArgsView::Fetch { id, force }
        }
    } else if is_force_flag(args[i]) {
        download_args_from(args, i + 1, true, id)
    } else if args[i].len() > 0 && args[i][0] == '-' {
        DownloadArgsView::UnknownOption { option: args[i] }
    } else {
        download_args_from(args, i + 1, force, args[i])
    }
}

/// The reading of the arguments of a `download` command.
pub open spec fn download_args(args: Seq<Seq<char>>) -> DownloadArgsView {
    if args.len() == 0 {
        DownloadArgsView::Usage
    } else {
        download_args_from(args, 0, false, Seq::empty())
    }
}

fn is_force(arg: &str) -> (r: bool)
    ensures
        r == is_force_flag(arg@),
{
    str_eq(arg, "-f") || str_eq(arg, "--force")
}

fn is_verbose(arg: &str) -> (r: bool)
    ensures
        r == is_verbose_flag(arg@),
{
    str_eq(arg, "-v") || str_eq(arg, "--verbose")
}

fn starts_with_dash(arg: &str) -> (r: bool)
    ensures
        r == (arg@.len() > 0 && arg@[0] == '-'),
{
    let n = arg.unicode_len();
    n > 0 && arg.get_char(0) == '-'
}

/// Reads the arguments of a `download` command, the words after the
/// command's name from place `from` of `words` on.
pub fn parse_download_args(words: &Vec<String>, from: usize) -> (parsed: DownloadArgs)
    requires
        from <= words.len(),
    ensures
        parsed@ == download_args(strings_view(words@).skip(from as int)),
{
    let ghost args = strings_view(words@).skip(from as int);
    if from == words.len() {
        return DownloadArgs::Usage;
    }
    let mut force = false;
    let mut id = String::new();
    let mut i: usize = from;
    while i < words.len()
        invariant
            from <= i <= words.len(),
            args == strings_view(words@).skip(from as int),
            download_args_from(args, i - from, force, id@) == download_args(args),
        decreases words.len() - i,
    {
        let arg = words[i].as_str();
        assert(args[i - from] == arg@);
        if is_force(arg) {
            force = true;
        } else if starts_with_dash(arg) {
            return DownloadArgs::UnknownOption { option: words[i].clone() };
        } else {
            id = words[i].clone();
        }
        i += 1;
    }
    if id.as_str().is_empty() {
        DownloadArgs::MissingId
    } else {
        DownloadArgs::Fetch { id, force }
    }
}

/// A line of input, read.
#[derive(Clone, Debug, PartialEq, Eq)]
pub enum Command {
    /// The line holds no word.
    Empty,
    Download(DownloadArgs),
    Update { force: bool },
    List { verbose: bool },
    /// `id` is the first argument, if there is one.
    Remove { id: Option<String> },
    Info,
    Help,
    Exit,
    /// The first word, as it was typed, is no command.
    Unknown { name: String },
}

/// What a `Command` stands for.
pub enum CommandView {
    Empty,
    Download(DownloadArgsView),
    Update { force: bool },
    List { verbose: bool },
    Remove { id: Option<Seq<char>> },
    Info,
    Help,
    Exit,
    Unknown { name: Seq<char> },
}

impl View for Command {
    type V = CommandView;

    open spec fn view(&self) -> CommandView {
        match *self {
            Command::Empty => CommandView::Empty,
            Command::Download(args) => CommandView::Download(args@),
            Command::Update { force } => CommandView::Update { force },
            Command::List { verbose } => CommandView::List { verbose },
            Command::Remove { id } => CommandView::Remove {
                id: match id {
                    Some(id) => Some(id@),
                    None => None,
                },
            },
            Command::Info => CommandView::Info,
            Command::Help => CommandView::Help,
            Command::Exit => CommandView::Exit,
            Command::Unknown { name } => CommandView::Unknown { name: name@ },
        }
    }
}

/// Whether one of `args` is the option to force.
pub open spec fn has_force_flag(args: Seq<Seq<char>>) -> bool {
    exists|i: int| 0 <= i < args.len() && is_force_flag(#[trigger] args[i])
}

/// Whether one of `args` is the option for details.
pub open spec fn has_verbose_flag(args: Seq<Seq<char>>) -> bool {
    exists|i: int| 0 <= i < args.len() && is_verbose_flag(#[trigger] args[i])
}

/// The command that a line with the given words stands for. The first
/// word names the command, in capitals or not; the other words are its
/// arguments.
pub open spec fn command_of(line: Seq<Seq<char>>) -> CommandView {
    if line.len() == 0 {
        CommandView::Empty
    } else {
        let name = ascii_lowered(line[0]);
        let args = line.skip(1);
        if name == "download"@ {
            CommandView::Download(download_args(args))
        } else if name == "update"@ {
            CommandView::Update { force: has_force_flag(args) }
        } else if name == "list"@ {
            CommandView::List { verbose: has_verbose_flag(args) }
        } else if name == "remove"@ {
            CommandView::Remove {
                id: if args.len() > 0 {
                    Some(args[0])
                } else {
                    None
                },
            }
        } else if name == "info"@ {
            CommandView::Info
        } else if name == "help"@ {
            CommandView::Help
        } else if name == "exit"@ || name == "quit"@ {
            CommandView::Exit
        } else {
            CommandView::Unknown { name: line[0] }
        }
    }
}

fn any_force(words: &Vec<String>, from: usize) -> (found: bool)
    requires
        from <= words.len(),
    ensures
        found == has_force_flag(strings_view(words@).skip(from as int)),
{
    let ghost args = strings_view(words@).skip(from as int);
    let mut i: usize = from;
    while i < words.len()
        invariant
            from <= i <= words.len(),
            args == strings_view(words@).skip(from as int),
            forall|j: int| 0 <= j < i - from ==> !is_force_flag(#[trigger] args[j]),
        decreases words.len() - i,
    {
        assert(args[i - from] == words@[i as int]@);
        if is_force(words[i].as_str()) {
            return true;
        }
        i += 1;
    }
    false
}

fn any_verbose(words: &Vec<String>, from: usize) -> (found: bool)
    requires
        from <= words.len(),
    ensures
        found == has_verbose_flag(strings_view(words@).skip(from as int)),
{
    let ghost args = strings_view(words@).skip(from as int);
    let mut i: usize = from;
    while i < words.len()
        invariant
            from <= i <= words.len(),
            args == strings_view(words@).skip(from as int),
            forall|j: int| 0 <= j < i - from ==> !is_verbose_flag(#[trigger] args[j]),
        decreases words.len() - i,
    {
        assert(args[i - from] == words@[i as int]@);
        if is_verbose(words[i].as_str()) {
            return true;
        }
        i += 1;
    }
    false
}

/// The command that a line with the given words stands for.
pub fn command_of_words(words: &Vec<String>) -> (command: Command)
    ensures
        command@ == command_of(strings_view(words@)),
{
    if words.len() == 0 {
        return Command::Empty;
    }
    let ghost line = strings_view(words@);
    assert(line[0] == words@[0]@);
    let name = chars_of(words[0].as_str());
    if eq_ignore_ascii_case(&name, "download") {
        Command::Download(parse_download_args(words, 1))
    } else if eq_ignore_ascii_case(&name, "update") {
        Command::Update { force: any_force(words, 1) }
    } else if eq_ignore_ascii_case(&name, "list") {
        Command::List { verbose: any_verbose(words, 1) }
    } else if eq_ignore_ascii_case(&name, "remove") {
        if words.len() > 1 {
            assert(line.skip(1)[0] == words@[1]@);
            Command::Remove { id: Some(words[1].clone()) }
        } else {
            Command::Remove { id: None }
        }
    } else if eq_ignore_ascii_case(&name, "info") {
        Command::Info
    } else if eq_ignore_ascii_case(&name, "help") {
        Command::Help
    } else if eq_ignore_ascii_case(&name, "exit") || eq_ignore_ascii_case(&name, "quit") {
        Command::Exit
    } else {
        Command::Unknown { name: words[0].clone() }
    }
}

/// Reads one line of input.
pub fn parse_command(input: &str) -> (command: Command)
    ensures
        command@ == command_of(words(input@)),
{
    let found = split_words(input);
    command_of_words(&found)
}

} // verus!
