//! What can go wrong while a pipeline runs.

use vstd::prelude::*;
use crate::parser::token::{Token, TokenView};

verus! {

/// A failure of the engine or of a step that its driver performed.
///
/// A failure ends the pipeline at hand and nothing else: the shell goes on
/// with the next line.
#[derive(Debug, Clone, PartialEq, Eq)]
pub enum ShellError {
    /// A builtin failed; the text is its own message.
    CommandsError(String),
    /// The terminal could not be written to.
    FailedStdoutFlush(String),
    /// A pipe is followed by this token, or by nothing, where a command is due.
    PipedIntoNonCommand(Option<Token>),
    /// A token stands where the shape of a command line allows none.
    UnexpectedToken(Token),
    /// The program could not be started.
    CommandSpawnFailure { name: String, reason: String },
    /// The program was started and could not be waited for.
    CommandWaitFailure { name: String, reason: String },
    /// The output of the stage before could not be written to the program.
    WriteStdinFailure { name: String, reason: String },
    /// A builtin's output could not be written to the file.
    WriteFileFailure { path: String, reason: String },
    /// The program was started without a pipe to feed it through.
    ChildStdinNotPiped { name: String },
    /// The output of the program could not be read for the next stage.
    FailedToTakeStdout,
    /// A redirection is followed by this token, or by nothing, where a file
    /// name is due.
    NoFileForRedirection(Option<Token>),
    /// The directories above the target file could not be made.
    CouldNotCreateParentDir { path: String, reason: String },
    /// The target file could not be opened.
    FailedToOpenFile { path: String, reason: String },
}

/// A [`ShellError`] as a mathematical value.
pub enum ShellErrorView {
    CommandsError(Seq<char>),
    FailedStdoutFlush(Seq<char>),
    PipedIntoNonCommand(Option<TokenView>),
    UnexpectedToken(TokenView),
    CommandSpawnFailure { name: Seq<char>, reason: Seq<char> },
    CommandWaitFailure { name: Seq<char>, reason: Seq<char> },
    WriteStdinFailure { name: Seq<char>, reason: Seq<char> },
    WriteFileFailure { path: Seq<char>, reason: Seq<char> },
    ChildStdinNotPiped { name: Seq<char> },
    FailedToTakeStdout,
    NoFileForRedirection(Option<TokenView>),
    CouldNotCreateParentDir { path: Seq<char>, reason: Seq<char> },
    FailedToOpenFile { path: Seq<char>, reason: Seq<char> },
}

/// The view of an optional token.
pub open spec fn view_of_token(t: Option<Token>) -> Option<TokenView> {
    match t {
        Some(t) => Some(t@),
        None => None,
    }
}

impl View for ShellError {
    type V = ShellErrorView;

    open spec fn view(&self) -> ShellErrorView {
        match self {
            ShellError::CommandsError(m) => ShellErrorView::CommandsError(m@),
            ShellError::FailedStdoutFlush(r) => ShellErrorView::FailedStdoutFlush(r@),
            ShellError::PipedIntoNonCommand(t) => ShellErrorView::PipedIntoNonCommand(
                view_of_token(*t),
            ),
            ShellError::UnexpectedToken(t) => ShellErrorView::UnexpectedToken(t@),
            ShellError::CommandSpawnFailure { name, reason } => ShellErrorView::CommandSpawnFailure {
                name: name@,
                reason: reason@,
            },
            ShellError::CommandWaitFailure { name, reason } => ShellErrorView::CommandWaitFailure {
                name: name@,
                reason: reason@,
            },
            ShellError::WriteStdinFailure { name, reason } => ShellErrorView::WriteStdinFailure {
                name: name@,
                reason: reason@,
            },
            ShellError::WriteFileFailure { path, reason } => ShellErrorView::WriteFileFailure {
                path: path@,
                reason: reason@,
            },
            ShellError::ChildStdinNotPiped { name } => ShellErrorView::ChildStdinNotPiped {
                name: name@,
            },
            ShellError::FailedToTakeStdout => ShellErrorView::FailedToTakeStdout,
            ShellError::NoFileForRedirection(t) => ShellErrorView::NoFileForRedirection(
                view_of_token(*t),
            ),
            ShellError::CouldNotCreateParentDir { path, reason } => {
                ShellErrorView::CouldNotCreateParentDir { path: path@, reason: reason@ }
            },
            ShellError::FailedToOpenFile { path, reason } => ShellErrorView::FailedToOpenFile {
                path: path@,
                reason: reason@,
            },
        }
    }
}

} // verus!
