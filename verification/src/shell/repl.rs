//! What the read-eval loop does with a line.

use vstd::prelude::*;
use vstd::string::StrSliceExecFns;
use crate::parser::token::{tokenize_input, tokenize_spec, Token, TokenView};
use crate::parser::words::{split_spec, split_words};
use crate::text::same_text;

verus! {

/// Whether a character is white space.
pub uninterp spec fn is_white_space(c: char) -> bool;

/// `char::is_whitespace` says whether a character is white space, which is a
/// matter of the character alone.
#[verifier::external_body]
fn is_whitespace(c: char) -> (yes: bool)
    ensures
        yes == is_white_space(c),
{
    c.is_whitespace()
}

/// A line without the white space at its end: the longest part of the line
/// from its start that does not end in white space.
pub open spec fn trimmed_end(line: Seq<char>) -> Seq<char>
    decreases line.len(),
{
    if line.len() > 0 && is_white_space(line.last()) {
        trimmed_end(line.drop_last())
    } else {
        line
    }
}

/// What is left of a line without the white space at its end is a part of
/// the line from its start, it does not end in white space, and white space
/// is all that was taken.
pub proof fn lemma_trimmed_end(line: Seq<char>)
    ensures
        trimmed_end(line).is_prefix_of(line),
        trimmed_end(line).len() > 0 ==> !is_white_space(trimmed_end(line).last()),
        forall|k: int|
            trimmed_end(line).len() <= k < line.len() ==> is_white_space(#[trigger] line[k]),
    decreases line.len(),
{
    if line.len() > 0 && is_white_space(line.last()) {
        let shorter = line.drop_last();
        lemma_trimmed_end(shorter);
        let kept = trimmed_end(shorter);
        assert(kept =~= line.subrange(0, kept.len() as int)) by {
            assert(kept == shorter.subrange(0, kept.len() as int));
        }
        assert forall|k: int| kept.len() <= k < line.len() implies is_white_space(
            #[trigger] line[k],
        ) by {
            if k < shorter.len() {
                assert(line[k] == shorter[k]);
            }
        }
    } else {
        assert(line =~= line.subrange(0, line.len() as int));
    }
}

/// Takes the white space from the end of a line.
pub fn trim_end(line: &str) -> (trimmed: &str)
    ensures
        trimmed@ == trimmed_end(line@),
{
    let mut n = line.unicode_len();
    assert(line@.subrange(0, n as int) =~= line@);
    while n > 0 && is_whitespace(line.get_char(n - 1))
        invariant
            n <= line@.len(),
            trimmed_end(line@.subrange(0, n as int)) == trimmed_end(line@),
        decreases n,
    {
        assert(line@.subrange(0, n as int).drop_last() =~= line@.subrange(0, n - 1));
        n = n - 1;
    }
    line.substring_char(0, n)
}

/// What a line asks of the shell.
#[derive(Debug, PartialEq, Eq)]
pub enum Line {
    /// Nothing: the line holds no word.
    Skip,
    /// To leave: the first word is `exit`.
    Exit,
    /// To run the pipeline with this token stream.
    Run(Vec<Token>),
}

/// A [`Line`] as a mathematical value.
pub enum LineView {
    Skip,
    Exit,
    Run(Seq<TokenView>),
}

impl View for Line {
    type V = LineView;

    open spec fn view(&self) -> LineView {
        match self {
            Line::Skip => LineView::Skip,
            Line::Exit => LineView::Exit,
            Line::Run(tokens) => LineView::Run(tokens.deep_view()),
        }
    }
}

/// What a line without white space at its end asks: nothing where it holds
/// no word, to leave where its first word is `exit`, else to run its token
/// stream.
pub open spec fn line_spec(line: Seq<char>) -> LineView {
    let words = split_spec(line);
    if words.len() == 0 {
        LineView::Skip
    } else if words[0] == "exit"@ {
        LineView::Exit
    } else {
        LineView::Run(tokenize_spec(words))
    }
}

/// Reads a line from which the white space at its end has been taken.
pub fn interpret_trimmed(line: &str) -> (asked: Line)
    ensures
        asked@ == line_spec(line@),
{
    let words = split_words(line);
    let ghost all = words.deep_view();
    match tokenize_input(words) {
        None => Line::Skip,
        Some(tokens) => {
            assert(all.len() > 0);
            assert(tokens.deep_view().len() == tokens@.len());
            assert(tokenize_spec(all).len() == all.len());
            assert(tokens.deep_view()[0] == tokens@[0]@);
            let leave = match &tokens[0] {
                Token::Command(name) => same_text(name.as_str(), "exit"),
                _ => false,
            };
            if leave {
                Line::Exit
            } else {
                Line::Run(tokens)
            }
        },
    }
}

/// Reads a line as it was typed: the white space at its end does not count.
pub fn interpret(line: &str) -> (asked: Line)
    ensures
        asked@ == line_spec(trimmed_end(line@)),
{
    interpret_trimmed(trim_end(line))
}

} // verus!
