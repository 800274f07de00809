//! The `history` builtin.
//!
//! The history itself is kept by the line editor. This module reads it, and
//! decides what `history` does for its arguments; reading and writing files
//! is left to the caller.

use rustyline::history::{FileHistory, History, SearchDirection};
use vstd::prelude::*;
use vstd::string::{StrSliceExecFns, StringExecFns};
use crate::number::{count_of, decimal, decimal_spec, parse_count};
use crate::text::{contains_text, lines, lines_spec, same_text, starts_with, view_of_text};

verus! {

/// The history of the line editor.
#[verifier::external_type_specification]
#[verifier::external_body]
pub struct ExFileHistory(FileHistory);

/// The entries of a history, the oldest first.
pub uninterp spec fn history_entries(history: FileHistory) -> Seq<Seq<char>>;

/// `History::len` of a `FileHistory` is the number of its entries.
#[verifier::external_body]
fn history_len(history: &FileHistory) -> (len: usize)
    ensures
        len == history_entries(*history).len(),
{
    history.len()
}

/// `History::get` of a `FileHistory` gives the entry at an index, whatever
/// the direction, and nothing for an index that is not below the length; it
/// does not fail.
#[verifier::external_body]
fn history_entry(history: &FileHistory, index: usize) -> (entry: Option<String>)
    ensures
        match entry {
            Some(e) => index < history_entries(*history).len() && e@ == history_entries(
                *history,
            )[index as int],
            None => index >= history_entries(*history).len(),
        },
{
    match history.get(index, SearchDirection::Reverse) {
        Ok(Some(found)) => Some(found.entry.into_owned()),
        _ => None,
    }
}

/// One line of a listing: two spaces, the number of the entry, a space, the
/// entry, and a line feed.
pub open spec fn listing_line(number: nat, entry: Seq<char>) -> Seq<char> {
    "  "@ + decimal_spec(number) + " "@ + entry + "\n"@
}

/// The lines of the entries from `from` up to `to`, numbered from one.
pub open spec fn listing_spec(entries: Seq<Seq<char>>, from: int, to: int) -> Seq<char>
    decreases to - from,
{
    if from >= to {
        Seq::empty()
    } else {
        listing_spec(entries, from, to - 1) + listing_line(to as nat, entries[to - 1])
    }
}

/// The text of a history file: each entry and a line feed.
pub open spec fn contents_spec(entries: Seq<Seq<char>>, upto: int) -> Seq<char>
    decreases upto,
{
    if upto <= 0 {
        Seq::empty()
    } else {
        contents_spec(entries, upto - 1) + entries[upto - 1] + "\n"@
    }
}

/// How many entries `history` lists for its first argument: as many as a
/// count asks for and there are, else all.
pub open spec fn shown(first: Option<Seq<char>>, len: nat) -> nat {
    match first {
        Some(arg) => match count_of(arg) {
            Some(n) => if n < len {
                n
            } else {
                len
            },
            None => len,
        },
        None => len,
    }
}

/// What `history` is to do.
#[derive(Debug, Clone, PartialEq, Eq)]
pub enum HistoryAction {
    /// Print the listing, if there is one.
    Show(Option<String>),
    /// Read the named file into the history, if one is named.
    Read(Option<String>),
    /// Write the text to the named file, if one is named.
    Write { file: Option<String>, text: String },
    /// Append the new entries to the named file, if one is named.
    Append(Option<String>),
}

/// A [`HistoryAction`] as a mathematical value.
pub enum HistoryActionView {
    Show(Option<Seq<char>>),
    Read(Option<Seq<char>>),
    Write { file: Option<Seq<char>>, text: Seq<char> },
    Append(Option<Seq<char>>),
}

impl View for HistoryAction {
    type V = HistoryActionView;

    open spec fn view(&self) -> HistoryActionView {
        match self {
            HistoryAction::Show(t) => HistoryActionView::Show(view_of_text(*t)),
            HistoryAction::Read(f) => HistoryActionView::Read(view_of_text(*f)),
            HistoryAction::Write { file, text } => HistoryActionView::Write {
                file: view_of_text(*file),
                text: text@,
            },
            HistoryAction::Append(f) => HistoryActionView::Append(view_of_text(*f)),
        }
    }
}

/// The word at a position of the arguments, if there is one.
pub open spec fn word_at(args: Seq<Seq<char>>, i: int) -> Option<Seq<char>> {
    if 0 <= i < args.len() {
        Some(args[i])
    } else {
        None
    }
}

/// The listing of the last `count` entries, or none where that is empty.
pub open spec fn show_spec(entries: Seq<Seq<char>>, count: nat) -> Option<Seq<char>> {
    let text = listing_spec(entries, entries.len() - count, entries.len() as int);
    if text.len() == 0 {
        None
    } else {
        Some(text)
    }
}

/// What `history` does for its arguments: `-r`, `-w` and `-a` read, write
/// and append the file that the second argument names; a count lists that
/// many of the last entries; anything else, and no argument, lists them all.
/// A count comes before the options: `+5` is a count.
pub open spec fn history_spec(args: Seq<Seq<char>>, entries: Seq<Seq<char>>) -> HistoryActionView {
    let first = word_at(args, 0);
    if first is Some && count_of(first->0) is None && first->0 == "-r"@ {
        HistoryActionView::Read(word_at(args, 1))
    } else if first is Some && count_of(first->0) is None && first->0 == "-w"@ {
        HistoryActionView::Write {
            file: word_at(args, 1),
            text: contents_spec(entries, entries.len() as int),
        }
    } else if first is Some && count_of(first->0) is None && first->0 == "-a"@ {
        HistoryActionView::Append(word_at(args, 1))
    } else {
        HistoryActionView::Show(show_spec(entries, shown(first, entries.len())))
    }
}

/// A copy of the word at a position of the arguments, if there is one.
fn word_copy(args: &Vec<String>, i: usize) -> (word: Option<String>)
    ensures
        view_of_text(word) == word_at(args.deep_view(), i as int),
{
    if i < args.len() {
        assert(args.deep_view()[i as int] == args@[i as int]@);
        Some(args[i].clone())
    } else {
        None
    }
}

/// The listing of the last `count` entries of the history, or of all where
/// there are fewer; none where that is empty.
pub fn history_listing(history: &FileHistory, count: usize) -> (out: Option<String>)
    ensures
        view_of_text(out) == show_spec(
            history_entries(*history),
            if count < history_entries(*history).len() {
                count as nat
            } else {
                history_entries(*history).len()
            },
        ),
{
    let ghost entries = history_entries(*history);
    let len = history_len(history);
    let length = if count < len {
        count
    } else {
        len
    };
    let from = len - length;
    let mut buf = String::new();
    let mut i: usize = from;
    while i < len
        invariant
            from <= i <= len,
            len == entries.len(),
            entries == history_entries(*history),
            buf@ == listing_spec(entries, from as int, i as int),
        decreases len - i,
    {
        match history_entry(history, i) {
            Some(entry) => {
                buf.append("  ");
                buf.append(decimal(i + 1).as_str());
                buf.append(" ");
                buf.append(entry.as_str());
                buf.append("\n");
            },
            None => {},
        }
        i = i + 1;
    }
    if buf.as_str().is_empty() {
        None
    } else {
        Some(buf)
    }
}

/// The text of a history file for the history: each entry and a line feed.
pub fn history_contents(history: &FileHistory) -> (text: String)
    ensures
        text@ == contents_spec(history_entries(*history), history_entries(*history).len() as int),
{
    let ghost entries = history_entries(*history);
    let len = history_len(history);
    let mut text = String::new();
    let mut i: usize = 0;
    while i < len
        invariant
            i <= len,
            len == entries.len(),
            entries == history_entries(*history),
            text@ == contents_spec(entries, i as int),
        decreases len - i,
    {
        match history_entry(history, i) {
            Some(entry) => {
                text.append(entry.as_str());
                text.append("\n");
            },
            None => {},
        }
        i = i + 1;
    }
    text
}

/// Decides what `history` does for its arguments.
pub fn invoke_history(args_str: &Vec<String>, history: &FileHistory) -> (action: HistoryAction)
    ensures
        action@ == history_spec(args_str.deep_view(), history_entries(*history)),
{
    let ghost args = args_str.deep_view();
    let ghost entries = history_entries(*history);
    let len = history_len(history);
    if args_str.len() == 0 {
        return HistoryAction::Show(history_listing(history, len));
    }
    let arg = args_str[0].as_str();
    assert(arg@ == args[0]);
    match parse_count(arg) {
        Some(n) => HistoryAction::Show(history_listing(history, n)),
        None => {
            proof {
                lemma_options_are_no_counts();
            }
            if same_text(arg, "-r") {
                HistoryAction::Read(word_copy(args_str, 1))
            } else if same_text(arg, "-w") {
                HistoryAction::Write { file: word_copy(args_str, 1), text: history_contents(history) }
            } else if same_text(arg, "-a") {
                HistoryAction::Append(word_copy(args_str, 1))
            } else {
                HistoryAction::Show(history_listing(history, len))
            }
        },
    }
}

/// Whether an entry is the mark that `history -a` leaves in a file.
pub open spec fn is_append_mark(entry: Seq<char>) -> bool {
    "history -a"@.is_prefix_of(entry)
}

/// The position behind the last mark among the first `upto` entries, or the
/// start where none of them is a mark.
pub open spec fn resume_at(entries: Seq<Seq<char>>, upto: int) -> int
    decreases upto,
{
    if upto <= 0 {
        0
    } else if is_append_mark(entries[upto - 1]) {
        upto
    } else {
        resume_at(entries, upto - 1)
    }
}

/// The lines of the entries from `from` up to `to` that are new to a file
/// with the lines `old`: each entry that is no mark and no line of the file,
/// and a line feed.
pub open spec fn fresh_lines(entries: Seq<Seq<char>>, old: Seq<Seq<char>>, from: int, to: int) -> Seq<
    char,
>
    decreases to - from,
{
    if from >= to {
        Seq::empty()
    } else {
        let entry = entries[to - 1];
        let before = fresh_lines(entries, old, from, to - 1);
        if is_append_mark(entry) || old.contains(entry) {
            before
        } else {
            before + entry + "\n"@
        }
    }
}

/// What `history -a` appends to a file: the entries since the last mark,
/// the entry at hand not counted as one, that are new to the file; and, where
/// there are any, a mark that names the file.
pub open spec fn append_spec(entries: Seq<Seq<char>>, old: Seq<Seq<char>>, file: Seq<char>) -> Seq<
    char,
> {
    let fresh = fresh_lines(
        entries,
        old,
        resume_at(entries, entries.len() - 1),
        entries.len() as int,
    );
    if fresh.len() == 0 {
        fresh
    } else {
        fresh + "history -a "@ + file + "\n"@
    }
}

/// The text that `history -a` appends to the file `file_name`, which holds
/// `old_contents`.
pub fn history_append(history: &FileHistory, old_contents: &str, file_name: &str) -> (text: String)
    ensures
        text@ == append_spec(
            history_entries(*history),
            lines_spec(old_contents@),
            file_name@,
        ),
{
    let ghost entries = history_entries(*history);
    let old = lines(old_contents);
    let len = history_len(history);
    let mut start: usize = if len == 0 {
        0
    } else {
        len - 1
    };
    while start > 0
        invariant
            start <= len,
            len == entries.len(),
            entries == history_entries(*history),
            resume_at(entries, start as int) == resume_at(entries, entries.len() - 1),
        ensures
            start <= len,
            start == resume_at(entries, entries.len() - 1),
        decreases start,
    {
        match history_entry(history, start - 1) {
            Some(entry) => {
                if starts_with(entry.as_str(), "history -a") {
                    assert(is_append_mark(entries[start - 1]));
                    break;
                }
            },
            None => {},
        }
        start = start - 1;
    }
    let mut text = String::new();
    let mut i: usize = start;
    while i < len
        invariant
            start <= i <= len,
            len == entries.len(),
            entries == history_entries(*history),
            text@ == fresh_lines(entries, old.deep_view(), start as int, i as int),
        decreases len - i,
    {
        match history_entry(history, i) {
            Some(entry) => {
                if !starts_with(entry.as_str(), "history -a") && !contains_text(
                    &old,
                    entry.as_str(),
                ) {
                    text.append(entry.as_str());
                    text.append("\n");
                }
            },
            None => {},
        }
        i = i + 1;
    }
    if !text.as_str().is_empty() {
        text.append("history -a ");
        text.append(file_name);
        text.append("\n");
    }
    text
}

/// What of a history file's text is not in the file yet: the text behind
/// what the file held when it was read, where the text begins with that;
/// else all of it.
pub open spec fn unsaved_spec(contents: Seq<char>, old: Seq<char>) -> Seq<char> {
    if old.is_prefix_of(contents) {
        contents.subrange(old.len() as int, contents.len() as int)
    } else {
        contents
    }
}

/// The text to append to the history file when the shell is left, for the
/// contents that the file had when the shell was set up.
pub fn history_unsaved(history: &FileHistory, old_contents: &str) -> (text: String)
    ensures
        text@ == unsaved_spec(
            contents_spec(history_entries(*history), history_entries(*history).len() as int),
            old_contents@,
        ),
{
    let contents = history_contents(history);
    if starts_with(contents.as_str(), old_contents) {
        let from = old_contents.unicode_len();
        let to = contents.as_str().unicode_len();
        contents.as_str().substring_char(from, to).to_owned()
    } else {
        contents
    }
}

/// The three options are no counts.
proof fn lemma_options_are_no_counts()
    ensures
        count_of("-r"@) is None,
        count_of("-w"@) is None,
        count_of("-a"@) is None,
{
    reveal_strlit("-r");
    reveal_strlit("-w");
    reveal_strlit("-a");
    assert(!crate::number::is_digit("-r"@[0]));
    assert(!crate::number::is_digit("-w"@[0]));
    assert(!crate::number::is_digit("-a"@[0]));
}

} // verus!
