//! What the engine asks of its driver, and what the driver answers.

use vstd::prelude::*;
use crate::commands::builtin::Builtin;
use crate::shell::error::{ShellError, ShellErrorView};
use crate::shell::redirect::WriteMode;
use crate::text::view_of_text;

verus! {

/// Where a program reads its standard input from.
#[derive(Debug, Clone, Copy, PartialEq, Eq, Structural)]
pub enum Input {
    /// From where the shell reads.
    Inherit,
    /// From a fresh pipe, which the shell then feeds.
    Piped,
    /// From the standard output of the child with this number.
    FromChild(usize),
}

/// Where a program writes one of its output streams to.
#[derive(Debug, Clone, Copy, PartialEq, Eq, Structural)]
pub enum Output {
    /// To where the shell writes.
    Inherit,
    /// To a fresh pipe, for the next stage to read.
    Piped,
    /// To the target file of the stage, opened in this mode.
    File(WriteMode),
}

/// The step of an action at which the driver failed.
#[derive(Debug, Clone, Copy, PartialEq, Eq, Structural)]
pub enum Fault {
    /// Making the directories above a target file.
    CreateDir,
    /// Opening a target file.
    OpenFile,
    /// Writing: to a file, to a child's input, or to the terminal.
    Write,
    /// Starting a program.
    Spawn,
    /// Reading the output of a child.
    TakeStdout,
    /// Feeding a child that has no pipe for its input.
    StdinMissing,
    /// Waiting for a child.
    Wait,
    /// Running a builtin.
    Builtin,
}

/// One step for the driver to perform. Children are numbered from zero in the
/// order in which they are started.
#[derive(Debug, PartialEq, Eq)]
pub enum Action {
    /// Probe the search path for an executable of this name.
    Lookup { name: String },
    /// Run a builtin on these arguments.
    RunBuiltin { builtin: Builtin, args: Vec<String> },
    /// Read the standard output of a child to its end.
    Capture { child: usize },
    /// Start a program as the child with this number. `target` names the file
    /// of a stream that goes to a file; the directories above it are made
    /// first.
    Spawn {
        child: usize,
        program: String,
        args: Vec<String>,
        stdin: Input,
        stdout: Output,
        stderr: Output,
        target: Option<String>,
    },
    /// Write the text to the standard input of a child, and close it.
    Feed { child: usize, text: String },
    /// Write the text to the terminal.
    Print { text: String },
    /// Make the directories above the file, open it and write the text.
    WriteFile { path: String, mode: WriteMode, text: String },
    /// Make the directories above the file and open it, writing nothing.
    OpenFile { path: String, mode: WriteMode },
    /// Wait for a child to end.
    Wait { child: usize },
    /// The pipeline is over, with this result. No answer is due.
    Finish(Result<(), ShellError>),
}

/// An [`Action`] as a mathematical value.
pub enum ActionView {
    Lookup { name: Seq<char> },
    RunBuiltin { builtin: Builtin, args: Seq<Seq<char>> },
    Capture { child: usize },
    Spawn {
        child: usize,
        program: Seq<char>,
        args: Seq<Seq<char>>,
        stdin: Input,
        stdout: Output,
        stderr: Output,
        target: Option<Seq<char>>,
    },
    Feed { child: usize, text: Seq<char> },
    Print { text: Seq<char> },
    WriteFile { path: Seq<char>, mode: WriteMode, text: Seq<char> },
    OpenFile { path: Seq<char>, mode: WriteMode },
    Wait { child: usize },
    Finish(Result<(), ShellErrorView>),
}

/// The view of an optional failure.
pub open spec fn view_of_failure(f: Option<ShellError>) -> Option<ShellErrorView> {
    match f {
        Some(e) => Some(e@),
        None => None,
    }
}

/// The result that a pipeline ends with, given its first failure.
pub open spec fn outcome(failure: Option<ShellErrorView>) -> Result<(), ShellErrorView> {
    match failure {
        Some(e) => Err(e),
        None => Ok(()),
    }
}

impl View for Action {
    type V = ActionView;

    open spec fn view(&self) -> ActionView {
        match self {
            Action::Lookup { name } => ActionView::Lookup { name: name@ },
            Action::RunBuiltin { builtin, args } => ActionView::RunBuiltin {
                builtin: *builtin,
                args: args.deep_view(),
            },
            Action::Capture { child } => ActionView::Capture { child: *child },
            Action::Spawn { child, program, args, stdin, stdout, stderr, target } => {
                ActionView::Spawn {
                    child: *child,
                    program: program@,
                    args: args.deep_view(),
                    stdin: *stdin,
                    stdout: *stdout,
                    stderr: *stderr,
                    target: view_of_text(*target),
                }
            },
            Action::Feed { child, text } => ActionView::Feed { child: *child, text: text@ },
            Action::Print { text } => ActionView::Print { text: text@ },
            Action::WriteFile { path, mode, text } => ActionView::WriteFile {
                path: path@,
                mode: *mode,
                text: text@,
            },
            Action::OpenFile { path, mode } => ActionView::OpenFile { path: path@, mode: *mode },
            Action::Wait { child } => ActionView::Wait { child: *child },
            Action::Finish(r) => ActionView::Finish(
                match r {
                    Ok(_) => Ok(()),
                    Err(e) => Err(e@),
                },
            ),
        }
    }
}

/// The driver's answer to an action.
#[derive(Debug, Clone, PartialEq, Eq)]
pub enum Event {
    /// The action was performed.
    Done,
    /// The search path was probed: whether it holds an executable of the name.
    Found(bool),
    /// A builtin ran or a child's output was read: the text, if there is any.
    Output(Option<String>),
    /// The action failed at this step, for this reason.
    Failed(Fault, String),
}

/// An [`Event`] as a mathematical value.
pub enum EventView {
    Done,
    Found(bool),
    Output(Option<Seq<char>>),
    Failed(Fault, Seq<char>),
}

impl View for Event {
    type V = EventView;

    open spec fn view(&self) -> EventView {
        match self {
            Event::Done => EventView::Done,
            Event::Found(b) => EventView::Found(*b),
            Event::Output(t) => EventView::Output(view_of_text(*t)),
            Event::Failed(f, r) => EventView::Failed(*f, r@),
        }
    }
}

} // verus!
