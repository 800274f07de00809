//! Redirection operators and what is written through them.

use vstd::prelude::*;
use vstd::string::StrSliceExecFns;
use crate::text::same_text;

verus! {

/// The stream of a stage that a redirection sends to a file.
#[derive(Debug, Clone, Copy, PartialEq, Eq, Structural)]
pub enum Stream {
    Stdout,
    Stderr,
}

/// How the target file is opened.
#[derive(Debug, Clone, Copy, PartialEq, Eq, Structural)]
pub enum WriteMode {
    /// The file is emptied first.
    Truncate,
    /// What the file holds stays, and the new text follows it.
    Append,
}

/// What a redirection operator asks for.
#[derive(Debug, Clone, Copy, PartialEq, Eq, Structural)]
pub struct Redirection {
    pub stream: Stream,
    pub mode: WriteMode,
}

/// The meaning of an operator word: `>` and `1>` truncate and take stdout,
/// `2>` truncates and takes stderr, `>>` and `1>>` append stdout, `2>>`
/// appends stderr. Any other word is no operator.
pub open spec fn redirection_of(op: Seq<char>) -> Option<Redirection> {
    if op == ">"@ || op == "1>"@ {
        Some(Redirection { stream: Stream::Stdout, mode: WriteMode::Truncate })
    } else if op == "2>"@ {
        Some(Redirection { stream: Stream::Stderr, mode: WriteMode::Truncate })
    } else if op == ">>"@ || op == "1>>"@ {
        Some(Redirection { stream: Stream::Stdout, mode: WriteMode::Append })
    } else if op == "2>>"@ {
        Some(Redirection { stream: Stream::Stderr, mode: WriteMode::Append })
    } else {
        None
    }
}

/// Reads a redirection operator.
pub fn parse_redirection(op: &str) -> (parsed: Option<Redirection>)
    ensures
        parsed == redirection_of(op@),
{
    if same_text(op, ">") || same_text(op, "1>") {
        Some(Redirection { stream: Stream::Stdout, mode: WriteMode::Truncate })
    } else if same_text(op, "2>") {
        Some(Redirection { stream: Stream::Stderr, mode: WriteMode::Truncate })
    } else if same_text(op, ">>") || same_text(op, "1>>") {
        Some(Redirection { stream: Stream::Stdout, mode: WriteMode::Append })
    } else if same_text(op, "2>>") {
        Some(Redirection { stream: Stream::Stderr, mode: WriteMode::Append })
    } else {
        None
    }
}

/// The text that goes into a file for a builtin's output: the output itself
/// where it ends in a line feed, else the output and one line feed.
pub open spec fn file_payload(text: Seq<char>) -> Seq<char> {
    if text.len() > 0 && text.last() == '\n' {
        text
    } else {
        text.push('\n')
    }
}

/// Ends a builtin's output with exactly one line feed more if it has none.
pub fn terminate_line(text: String) -> (payload: String)
    ensures
        payload@ == file_payload(text@),
{
    let n = text.as_str().unicode_len();
    if n > 0 && text.as_str().get_char(n - 1) == '\n' {
        text
    } else {
        let mut payload = text;
        payload.push('\n');
        payload
    }
}

} // verus!
