//! The token classifier.
//!
//! A word list becomes a token stream in one pass. The only thing the pass
//! remembers is whether the token before was a pipe: the plain word directly
//! behind a pipe names the command of the next stage.

use vstd::prelude::*;
use crate::text::same_text;

verus! {

/// One element of a command line after classification.
#[derive(Debug, Clone, PartialEq, Eq)]
pub enum Token {
    /// The program or builtin of a pipeline stage.
    Command(String),
    /// A redirection operator.
    Redirect(String),
    /// An argument of the current stage, or the target of a redirection.
    Arg(String),
    /// The separator between two stages.
    Pipe,
}

/// A token as a mathematical value.
pub enum TokenView {
    Command(Seq<char>),
    Redirect(Seq<char>),
    Arg(Seq<char>),
    Pipe,
}

impl View for Token {
    type V = TokenView;

    open spec fn view(&self) -> TokenView {
        match self {
            Token::Command(w) => TokenView::Command(w@),
            Token::Redirect(w) => TokenView::Redirect(w@),
            Token::Arg(w) => TokenView::Arg(w@),
            Token::Pipe => TokenView::Pipe,
        }
    }
}

impl DeepView for Token {
    type V = TokenView;

    open spec fn deep_view(&self) -> TokenView {
        self@
    }
}

impl Token {
    /// A copy of the token.
    pub fn duplicate(&self) -> (copy: Token)
        ensures
            copy@ == self@,
    {
        match self {
            Token::Command(w) => Token::Command(w.clone()),
            Token::Redirect(w) => Token::Redirect(w.clone()),
            Token::Arg(w) => Token::Arg(w.clone()),
            Token::Pipe => Token::Pipe,
        }
    }
}

/// Whether a word is one of the six redirection operators.
pub open spec fn is_redirect_word(w: Seq<char>) -> bool {
    w == ">"@ || w == "1>"@ || w == "2>"@ || w == ">>"@ || w == "1>>"@ || w == "2>>"@
}

/// Whether a word is the pipe operator.
pub open spec fn is_pipe_word(w: Seq<char>) -> bool {
    w == "|"@
}

/// Whether the word at position `i` names a command if it is no operator:
/// that is so for the first word, and for a word directly behind a pipe. The
/// first word is the command whatever it is, so a pipe is never the first.
pub open spec fn expects_command(words: Seq<Seq<char>>, i: int) -> bool {
    i <= 0 || (i >= 2 && is_pipe_word(words[i - 1]))
}

/// The token that the word at position `i` becomes.
pub open spec fn token_at(words: Seq<Seq<char>>, i: int) -> TokenView {
    let w = words[i];
    if i == 0 {
        TokenView::Command(w)
    } else if is_redirect_word(w) {
        TokenView::Redirect(w)
    } else if is_pipe_word(w) {
        TokenView::Pipe
    } else if expects_command(words, i) {
        TokenView::Command(w)
    } else {
        TokenView::Arg(w)
    }
}

/// The token stream of a word list: one token per word.
pub open spec fn tokenize_spec(words: Seq<Seq<char>>) -> Seq<TokenView> {
    Seq::new(words.len(), |i: int| token_at(words, i))
}

/// Whether a token stream has the shape that the classifier gives: it
/// begins with a command, a later command stands directly behind a pipe, and
/// every redirection operator is one of the six.
pub open spec fn is_shaped(tokens: Seq<TokenView>) -> bool {
    &&& tokens.len() > 0 ==> tokens[0] is Command
    &&& forall|i: int|
        0 < i < tokens.len() && (#[trigger] tokens[i]) is Command ==> tokens[i - 1] is Pipe
    &&& forall|i: int|
        0 <= i < tokens.len() && (#[trigger] tokens[i]) is Redirect ==> is_redirect_word(
            tokens[i]->Redirect_0,
        )
}

/// Whether a token stream is well formed: it has the shape that the
/// classifier gives, an argument stands behind every redirection operator,
/// and a command behind every pipe.
pub open spec fn is_well_formed(tokens: Seq<TokenView>) -> bool {
    &&& is_shaped(tokens)
    &&& forall|i: int|
        0 <= i < tokens.len() && (#[trigger] tokens[i]) is Redirect ==> i + 1 < tokens.len()
            && tokens[i + 1] is Arg
    &&& forall|i: int|
        0 <= i < tokens.len() && (#[trigger] tokens[i]) is Pipe ==> i + 1 < tokens.len()
            && tokens[i + 1] is Command
}

/// No word is both a pipe and a redirection operator.
pub proof fn lemma_operators_differ(w: Seq<char>)
    ensures
        !(is_pipe_word(w) && is_redirect_word(w)),
{
    reveal_strlit("|");
    reveal_strlit(">");
    reveal_strlit("1>");
    reveal_strlit("2>");
    reveal_strlit(">>");
    reveal_strlit("1>>");
    reveal_strlit("2>>");
    if is_pipe_word(w) && is_redirect_word(w) {
        assert(w[0] == '|');
        assert(w.len() == 1);
        assert(">"@[0] == '>');
    }
}

/// The token stream of a word list has the shape of [`is_shaped`].
pub proof fn lemma_tokenize_shaped(words: Seq<Seq<char>>)
    ensures
        is_shaped(tokenize_spec(words)),
{
    let tokens = tokenize_spec(words);
    assert forall|i: int| 0 < i < tokens.len() && (#[trigger] tokens[i]) is Command implies tokens[i
        - 1] is Pipe by {
        assert(tokens[i] == token_at(words, i));
        assert(tokens[i - 1] == token_at(words, i - 1));
        assert(expects_command(words, i));
        lemma_operators_differ(words[i - 1]);
    }
    assert forall|i: int| 0 <= i < tokens.len() && (#[trigger] tokens[i]) is Redirect implies
        is_redirect_word(tokens[i]->Redirect_0) by {
        assert(tokens[i] == token_at(words, i));
    }
}

/// Whether a word is one of the six redirection operators.
pub fn is_redirect_operator(word: &str) -> (yes: bool)
    ensures
        yes == is_redirect_word(word@),
{
    same_text(word, ">") || same_text(word, "1>") || same_text(word, "2>") || same_text(word, ">>")
        || same_text(word, "1>>") || same_text(word, "2>>")
}

/// Classifies the words of a command line.
///
/// The first word is the command. A later word is a redirection operator, a
/// pipe, the command of the next stage (a plain word directly behind a pipe)
/// or an argument. An empty word list has no token stream.
pub fn tokenize_input(input: Vec<String>) -> (tokens: Option<Vec<Token>>)
    ensures
        tokens is None <==> input@.len() == 0,
        tokens matches Some(t) ==> t.deep_view() == tokenize_spec(input.deep_view()),
{
    if input.len() == 0 {
        return None;
    }
    let ghost words = input.deep_view();
    let mut tokenized: Vec<Token> = Vec::new();
    tokenized.push(Token::Command(input[0].clone()));
    let mut new_command = false;
    let mut i: usize = 1;
    assert(tokenized.deep_view() =~= tokenize_spec(words).subrange(0, 1));
    while i < input.len()
        invariant
            1 <= i <= input.len(),
            words == input.deep_view(),
            new_command == expects_command(words, i as int),
            tokenized.deep_view() == tokenize_spec(words).subrange(0, i as int),
        decreases input.len() - i,
    {
        let s = input[i].clone();
        assert(s@ == words[i as int]);
        let ghost before = tokenized.deep_view();
        proof {
            lemma_operators_differ(s@);
        }
        if is_redirect_operator(s.as_str()) {
            new_command = false;
            tokenized.push(Token::Redirect(s));
        } else if same_text(s.as_str(), "|") {
            new_command = true;
            tokenized.push(Token::Pipe);
        } else if new_command {
            tokenized.push(Token::Command(s));
            new_command = false;
        } else {
            tokenized.push(Token::Arg(s));
        }
        assert(tokenized.deep_view() =~= before.push(token_at(words, i as int)));
        assert(tokenize_spec(words).subrange(0, i + 1) =~= tokenize_spec(words).subrange(
            0,
            i as int,
        ).push(token_at(words, i as int)));
        i = i + 1;
    }
    assert(tokenize_spec(words).subrange(0, i as int) =~= tokenize_spec(words));
    Some(tokenized)
}

} // verus!
