//! Reading one stage of a pipeline out of the token stream.
//!
//! A stage is a command, the arguments that follow it, and what comes after
//! them: nothing, a redirection with its target, or a pipe.

use vstd::prelude::*;
use crate::parser::token::{Token, TokenView};
use crate::shell::error::{ShellError, ShellErrorView};
use crate::shell::redirect::{parse_redirection, redirection_of, Redirection};

verus! {

/// What follows the arguments of a stage. A target is given by its place in
/// the token stream.
#[derive(Debug, Clone, Copy, PartialEq, Eq, Structural)]
pub enum Tail {
    /// Nothing: the stage is the last one and writes to the terminal.
    End,
    /// A redirection; the token at `target` names the file.
    Redirect { redirection: Redirection, target: usize },
    /// A pipe; another stage follows.
    Pipe,
}

/// The token at a position, if the stream reaches that far.
pub open spec fn token_or_none(tokens: Seq<TokenView>, i: int) -> Option<TokenView> {
    if 0 <= i < tokens.len() {
        Some(tokens[i])
    } else {
        None
    }
}

/// The end of the run of arguments that begins at `i`: the first position
/// from `i` on that holds no argument.
pub open spec fn args_end(tokens: Seq<TokenView>, i: int) -> int
    decreases tokens.len() - i,
{
    if 0 <= i < tokens.len() && tokens[i] is Arg {
        args_end(tokens, i + 1)
    } else {
        i
    }
}

/// The words of the arguments at the positions from `from` up to `to`.
pub open spec fn arg_words(tokens: Seq<TokenView>, from: int, to: int) -> Seq<Seq<char>> {
    Seq::new((to - from) as nat, |k: int| tokens[from + k]->Arg_0)
}

/// What follows a stage whose arguments end at `e`.
///
/// A redirection needs a known operator and an argument behind it. A command
/// or an argument cannot stand here: the stream is then malformed.
pub open spec fn tail_at(tokens: Seq<TokenView>, e: int) -> Result<Tail, ShellErrorView> {
    if !(0 <= e < tokens.len()) {
        Ok(Tail::End)
    } else {
        match tokens[e] {
            TokenView::Pipe => Ok(Tail::Pipe),
            TokenView::Redirect(op) => match redirection_of(op) {
                None => Err(ShellErrorView::UnexpectedToken(tokens[e])),
                Some(redirection) => {
                    if e + 1 < tokens.len() && tokens[e + 1] is Arg {
                        Ok(Tail::Redirect { redirection, target: (e + 1) as usize })
                    } else {
                        Err(ShellErrorView::NoFileForRedirection(token_or_none(tokens, e + 1)))
                    }
                },
            },
            _ => Err(ShellErrorView::UnexpectedToken(tokens[e])),
        }
    }
}

/// The run of arguments is a run of arguments, and it ends inside the stream
/// or at its end.
pub proof fn lemma_args_end(tokens: Seq<TokenView>, i: int)
    requires
        0 <= i <= tokens.len(),
    ensures
        i <= args_end(tokens, i) <= tokens.len(),
        forall|k: int| i <= k < args_end(tokens, i) ==> (#[trigger] tokens[k]) is Arg,
        args_end(tokens, i) < tokens.len() ==> !(tokens[args_end(tokens, i)] is Arg),
    decreases tokens.len() - i,
{
    if i < tokens.len() && tokens[i] is Arg {
        lemma_args_end(tokens, i + 1);
    }
}

/// A copy of the token at a position, if there is one.
pub fn token_copy(tokens: &Vec<Token>, i: usize) -> (copy: Option<Token>)
    ensures
        crate::shell::error::view_of_token(copy) == token_or_none(tokens.deep_view(), i as int),
{
    if i < tokens.len() {
        let t = tokens[i].duplicate();
        assert(tokens.deep_view()[i as int] == tokens@[i as int]@);
        Some(t)
    } else {
        None
    }
}

/// Finds the end of the run of arguments that begins at `i`.
pub fn find_args_end(tokens: &Vec<Token>, i: usize) -> (e: usize)
    requires
        i <= tokens.len(),
    ensures
        e == args_end(tokens.deep_view(), i as int),
        i <= e <= tokens.len(),
{
    let ghost view = tokens.deep_view();
    let mut e = i;
    while e < tokens.len() && is_arg(&tokens[e])
        invariant
            i <= e <= tokens.len(),
            view == tokens.deep_view(),
            args_end(view, e as int) == args_end(view, i as int),
        decreases tokens.len() - e,
    {
        assert(view[e as int] == tokens@[e as int]@);
        e = e + 1;
    }
    proof {
        if e < tokens.len() {
            assert(view[e as int] == tokens@[e as int]@);
        }
    }
    e
}

/// Whether a token is an argument.
pub fn is_arg(token: &Token) -> (yes: bool)
    ensures
        yes == (token@ is Arg),
{
    match token {
        Token::Arg(_) => true,
        _ => false,
    }
}

/// Copies the words of the arguments at the positions from `from` up to `to`.
pub fn collect_args(tokens: &Vec<Token>, from: usize, to: usize) -> (args: Vec<String>)
    requires
        from <= to <= tokens.len(),
        forall|k: int| from <= k < to ==> (#[trigger] tokens.deep_view()[k]) is Arg,
    ensures
        args.deep_view() == arg_words(tokens.deep_view(), from as int, to as int),
{
    let ghost view = tokens.deep_view();
    let mut args: Vec<String> = Vec::new();
    let mut k = from;
    while k < to
        invariant
            from <= k <= to <= tokens.len(),
            view == tokens.deep_view(),
            forall|j: int| from <= j < to ==> (#[trigger] view[j]) is Arg,
            args.deep_view() == arg_words(view, from as int, k as int),
        decreases to - k,
    {
        let ghost before = args.deep_view();
        assert(view[k as int] == tokens@[k as int]@);
        assert(view[k as int] is Arg);
        match &tokens[k] {
            Token::Arg(w) => {
                args.push(w.clone());
            },
            _ => {},
        }
        assert(args.deep_view() =~= before.push(view[k as int]->Arg_0));
        assert(arg_words(view, from as int, k + 1) =~= arg_words(view, from as int, k as int).push(
            view[k as int]->Arg_0,
        ));
        k = k + 1;
    }
    args
}

/// Reads what follows a stage whose arguments end at `e`.
pub fn read_tail(tokens: &Vec<Token>, e: usize) -> (tail: Result<Tail, ShellError>)
    requires
        e <= tokens.len(),
    ensures
        match tail {
            Ok(t) => tail_at(tokens.deep_view(), e as int) == Ok::<Tail, ShellErrorView>(t),
            Err(err) => tail_at(tokens.deep_view(), e as int) == Err::<Tail, ShellErrorView>(err@),
        },
{
    let ghost view = tokens.deep_view();
    if e >= tokens.len() {
        return Ok(Tail::End);
    }
    assert(view[e as int] == tokens@[e as int]@);
    match &tokens[e] {
        Token::Pipe => Ok(Tail::Pipe),
        Token::Redirect(op) => {
            match parse_redirection(op.as_str()) {
                None => Err(ShellError::UnexpectedToken(tokens[e].duplicate())),
                Some(redirection) => {
                    if e + 1 < tokens.len() && is_arg(&tokens[e + 1]) {
                        assert(view[e + 1] == tokens@[e + 1]@);
                        Ok(Tail::Redirect { redirection, target: e + 1 })
                    } else {
                        proof {
                            if e + 1 < tokens.len() {
                                assert(view[e + 1] == tokens@[e + 1]@);
                            }
                        }
                        Err(ShellError::NoFileForRedirection(token_copy(tokens, e + 1)))
                    }
                },
            }
        },
        _ => Err(ShellError::UnexpectedToken(tokens[e].duplicate())),
    }
}

} // verus!
