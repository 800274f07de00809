//! The engine as a mathematical state machine.
//!
//! A state holds the token stream, the stage at hand, what the stage before
//! left behind, and the children started so far. [`step_spec`] gives, for a
//! state and the driver's answer, the next state and the next action.
//!
//! A stage goes through these phases: its command is resolved (a builtin by
//! name, a program by a probe of the search path), it runs, and its output is
//! delivered as its tail says: to the terminal, to a file, or to the next
//! stage. When the last stage is done, or at the first failure, the children
//! are waited for, the last one first.

use vstd::prelude::*;
use crate::commands::builtin::{builtin_named, Builtin};
use crate::parser::token::TokenView;
use crate::parser::words::split_spec;
use crate::shell::error::ShellErrorView;
use crate::shell::protocol::{outcome, ActionView, EventView, Fault, Input, Output};
use crate::shell::redirect::{file_payload, Stream};
use crate::shell::stage::{arg_words, args_end, tail_at, token_or_none, Tail};

verus! {

/// What the engine waits for.
#[derive(Debug, Clone, Copy, PartialEq, Eq, Structural)]
pub enum Phase {
    /// For the probe of the search path for the stage's command.
    Lookup,
    /// For the output of the child before a builtin stage.
    Capture,
    /// For the builtin of the stage.
    Builtin,
    /// For the program of the stage to be started.
    Spawn,
    /// For the text of the stage before to be fed to the new child.
    Feed,
    /// For the target of a builtin's stderr to be opened.
    Open,
    /// For a builtin's output to be written to its target.
    Write,
    /// For a text to be printed, after which only waiting is left.
    Report,
    /// For a child to end.
    Wait,
    /// For nothing: the pipeline is over.
    Finished,
}

/// What the stage before left for the stage at hand.
pub enum UpstreamView {
    /// Nothing: no pipe stands before the stage.
    Nothing,
    /// The captured output of a builtin, or the text that an action holds.
    Text(Seq<char>),
    /// The open output of the child started last.
    Child,
}

/// The state of the engine.
pub struct EngineView {
    /// The token stream.
    pub tokens: Seq<TokenView>,
    /// The position of the command of the stage at hand.
    pub at: int,
    /// What the engine waits for.
    pub phase: Phase,
    /// What the stage before left behind.
    pub upstream: UpstreamView,
    /// The position of the command of each child, in the order of their start.
    pub children: Seq<int>,
    /// How many children have been waited for, counted from the last.
    pub reaped: int,
    /// The first failure met.
    pub failure: Option<ShellErrorView>,
}

impl EngineView {
    /// The name of the command of the stage at hand.
    pub open spec fn name(self) -> Seq<char> {
        self.tokens[self.at]->Command_0
    }

    /// The position behind the arguments of the stage at hand.
    pub open spec fn end(self) -> int {
        args_end(self.tokens, self.at + 1)
    }

    /// The arguments of the stage at hand.
    pub open spec fn own_args(self) -> Seq<Seq<char>> {
        arg_words(self.tokens, self.at + 1, self.end())
    }

    /// What follows the stage at hand.
    pub open spec fn tail(self) -> Tail {
        tail_at(self.tokens, self.end())->Ok_0
    }

    /// The file that the stage at hand is redirected to.
    pub open spec fn target(self) -> Seq<char> {
        self.tokens[self.tail()->target as int]->Arg_0
    }

    /// The name of the program of a child.
    pub open spec fn child_name(self, child: int) -> Seq<char> {
        self.tokens[self.children[child]]->Command_0
    }

    /// The number of the child that is waited for next.
    pub open spec fn next_to_reap(self) -> int {
        self.children.len() - self.reaped - 1
    }

    /// Whether the phase belongs to a stage that has been read.
    pub open spec fn in_stage(self) -> bool {
        self.phase is Lookup || self.phase is Capture || self.phase is Builtin
            || self.phase is Spawn || self.phase is Feed || self.phase is Open
            || self.phase is Write
    }

    /// What holds of every state that the engine reaches.
    ///
    /// Each child was started for a command of the stream, in the order of
    /// the stream, and none for a stage that is still to come. Once a child
    /// has been waited for, the engine only waits, and it is over only when
    /// every child has been waited for. After a failure nothing is left but
    /// to wait. A stage that begins behind a pipe has the output of the stage
    /// before; the first stage has none.
    pub open spec fn inv(self) -> bool {
        &&& self.tokens.len() <= usize::MAX
        &&& 0 <= self.reaped <= self.children.len()
        &&& 0 <= self.at <= self.tokens.len()
        &&& forall|c: int|
            0 <= c < self.children.len() ==> c <= #[trigger] self.children[c] <= self.at
                && self.children[c] < self.tokens.len() && self.tokens[self.children[c]] is Command
        &&& forall|c: int, d: int|
            0 <= c < d < self.children.len() ==> #[trigger] self.children[c]
                < #[trigger] self.children[d]
        &&& self.reaped > 0 ==> self.phase is Wait || self.phase is Finished
        &&& self.phase is Wait ==> self.reaped < self.children.len()
        &&& self.phase is Finished ==> self.reaped == self.children.len()
        &&& self.failure is Some ==> self.phase is Wait
        &&& self.upstream is Child ==> self.children.len() > 0
        &&& self.in_stage() ==> {
            &&& self.at < self.tokens.len()
            &&& self.tokens[self.at] is Command
            &&& self.at > 0 ==> self.tokens[self.at - 1] is Pipe
            &&& tail_at(self.tokens, self.end()) is Ok
        }
        &&& self.in_stage() && !(self.phase is Feed) ==> forall|c: int|
            0 <= c < self.children.len() ==> #[trigger] self.children[c] < self.at
        &&& self.phase is Lookup || self.phase is Spawn ==> {
            &&& builtin_named(self.name()) is None
            &&& self.upstream is Nothing <==> self.at == 0
        }
        &&& self.phase is Capture ==> builtin_named(self.name()) is Some && self.upstream is Child
        &&& self.phase is Builtin ==> builtin_named(self.name()) is Some
            && self.upstream is Nothing
        &&& self.phase is Feed ==> self.children.len() > 0 && self.children.last() == self.at
            && self.upstream is Nothing
        &&& self.phase is Open ==> self.upstream is Text && self.tail() is Redirect
        &&& self.phase is Write ==> self.tail() is Redirect
    }

    /// A bound on the number of answers that the engine still takes.
    pub open spec fn fuel(self) -> int {
        let n = self.tokens.len() as int;
        match self.phase {
            Phase::Finished => 0,
            Phase::Wait => 1 + self.children.len() - self.reaped,
            Phase::Report => n + 2,
            Phase::Lookup | Phase::Capture => n + 9 + 8 * (n - self.at),
            Phase::Spawn | Phase::Builtin => n + 8 + 8 * (n - self.at),
            Phase::Feed | Phase::Open => n + 7 + 8 * (n - self.at),
            Phase::Write => n + 6 + 8 * (n - self.at),
        }
    }
}

/// The children are waited for, the last one first; when none is left, the
/// pipeline ends with its first failure, which the engine hands out, or well.
pub open spec fn drain_spec(s: EngineView) -> (EngineView, ActionView) {
    if s.reaped < s.children.len() {
        (EngineView { phase: Phase::Wait, ..s }, ActionView::Wait { child: s.next_to_reap() as usize })
    } else {
        (
            EngineView { phase: Phase::Finished, failure: None, ..s },
            ActionView::Finish(outcome(s.failure)),
        )
    }
}

/// A failure is kept if it is the first, and the children are waited for.
pub open spec fn fail_spec(s: EngineView, error: ShellErrorView) -> (EngineView, ActionView) {
    drain_spec(
        EngineView {
            failure: if s.failure is None {
                Some(error)
            } else {
                s.failure
            },
            ..s
        },
    )
}

/// The failure for a stage that cannot begin at `at`: at the head of the
/// stream the token there is out of place; behind a pipe, the pipe leads
/// into something that is no command, or into nothing.
pub open spec fn no_command_error(tokens: Seq<TokenView>, at: int) -> ShellErrorView {
    if at == 0 && tokens.len() > 0 {
        ShellErrorView::UnexpectedToken(tokens[0])
    } else {
        ShellErrorView::PipedIntoNonCommand(token_or_none(tokens, at))
    }
}

/// The engine begins the stage at `at`.
///
/// The stage must start with a command, and what follows its arguments must
/// be well formed; else the pipeline fails before the stage runs. A builtin
/// runs on its own arguments and then on the words of the text that the stage
/// before left; where that stage was a program, its output is read first. Any
/// other name is probed on the search path.
///
/// `exit` leaves the shell only as the first word of a line, which is seen
/// to before a pipeline is run. As a stage it runs nothing and prints
/// nothing, and the pipeline ends with it.
pub open spec fn begin_spec(s: EngineView, at: int) -> (EngineView, ActionView) {
    let here = EngineView { at, ..s };
    if !(0 <= at < s.tokens.len() && s.tokens[at] is Command) {
        fail_spec(here, no_command_error(s.tokens, at))
    } else {
        match tail_at(s.tokens, here.end()) {
            Err(error) => fail_spec(here, error),
            Ok(_) => match builtin_named(here.name()) {
                None => (
                    EngineView { phase: Phase::Lookup, ..here },
                    ActionView::Lookup { name: here.name() },
                ),
                Some(Builtin::Exit) => drain_spec(here),
                Some(builtin) => match s.upstream {
                    UpstreamView::Child => (
                        EngineView { phase: Phase::Capture, ..here },
                        ActionView::Capture { child: (s.children.len() - 1) as usize },
                    ),
                    UpstreamView::Nothing => (
                        EngineView { phase: Phase::Builtin, ..here },
                        ActionView::RunBuiltin { builtin, args: here.own_args() },
                    ),
                    UpstreamView::Text(text) => (
                        EngineView {
                            phase: Phase::Builtin,
                            upstream: UpstreamView::Nothing,
                            ..here
                        },
                        ActionView::RunBuiltin {
                            builtin,
                            args: here.own_args() + split_spec(text),
                        },
                    ),
                },
            },
        }
    }
}

/// The engine starts on a token stream. An empty stream is over at once.
pub open spec fn start_spec(tokens: Seq<TokenView>) -> (EngineView, ActionView) {
    let s = EngineView {
        tokens,
        at: 0,
        phase: Phase::Finished,
        upstream: UpstreamView::Nothing,
        children: Seq::empty(),
        reaped: 0,
        failure: None,
    };
    if tokens.len() == 0 {
        drain_spec(s)
    } else {
        begin_spec(s, 0)
    }
}

/// Where the program of the stage at hand reads from.
pub open spec fn stdin_of(s: EngineView) -> Input {
    match s.upstream {
        UpstreamView::Nothing => Input::Inherit,
        UpstreamView::Text(_) => Input::Piped,
        UpstreamView::Child => Input::FromChild((s.children.len() - 1) as usize),
    }
}

/// Where the program of the stage at hand writes its standard output.
pub open spec fn stdout_of(tail: Tail) -> Output {
    match tail {
        Tail::End => Output::Inherit,
        Tail::Pipe => Output::Piped,
        Tail::Redirect { redirection, .. } => match redirection.stream {
            Stream::Stdout => Output::File(redirection.mode),
            Stream::Stderr => Output::Inherit,
        },
    }
}

/// Where the program of the stage at hand writes its standard error.
pub open spec fn stderr_of(tail: Tail) -> Output {
    match tail {
        Tail::Redirect { redirection, .. } => match redirection.stream {
            Stream::Stdout => Output::Inherit,
            Stream::Stderr => Output::File(redirection.mode),
        },
        _ => Output::Inherit,
    }
}

/// The program of the stage at hand is started, its streams wired as the
/// stage before and the tail say.
pub open spec fn spawn_spec(s: EngineView) -> (EngineView, ActionView) {
    (
        EngineView { phase: Phase::Spawn, ..s },
        ActionView::Spawn {
            child: s.children.len() as usize,
            program: s.name(),
            args: s.own_args(),
            stdin: stdin_of(s),
            stdout: stdout_of(s.tail()),
            stderr: stderr_of(s.tail()),
            target: if s.tail() is Redirect {
                Some(s.target())
            } else {
                None
            },
        },
    )
}

/// A stage has run. Behind a pipe the next stage begins, with `upstream` as
/// what this stage leaves; else only waiting is left.
pub open spec fn proceed_spec(s: EngineView, upstream: UpstreamView) -> (EngineView, ActionView) {
    match s.tail() {
        Tail::Pipe => begin_spec(EngineView { upstream, ..s }, s.end() + 1),
        _ => drain_spec(EngineView { upstream: UpstreamView::Nothing, ..s }),
    }
}

/// The output of a builtin is delivered: printed at the end of a pipeline,
/// written to the target of a stdout redirection with a line feed at its end,
/// printed once the target of a stderr redirection is open, or left for the
/// next stage.
pub open spec fn deliver_spec(s: EngineView, out: Seq<char>) -> (EngineView, ActionView) {
    match s.tail() {
        Tail::End => (EngineView { phase: Phase::Report, ..s }, ActionView::Print { text: out }),
        Tail::Pipe => proceed_spec(s, UpstreamView::Text(out)),
        Tail::Redirect { redirection, .. } => match redirection.stream {
            Stream::Stdout => (
                EngineView { phase: Phase::Write, ..s },
                ActionView::WriteFile {
                    path: s.target(),
                    mode: redirection.mode,
                    text: file_payload(out),
                },
            ),
            Stream::Stderr => (
                EngineView { phase: Phase::Open, upstream: UpstreamView::Text(out), ..s },
                ActionView::OpenFile { path: s.target(), mode: redirection.mode },
            ),
        },
    }
}

/// The failure that a fault of the driver stands for in a phase.
pub open spec fn fault_error(s: EngineView, fault: Fault, reason: Seq<char>) -> ShellErrorView {
    match fault {
        Fault::CreateDir => ShellErrorView::CouldNotCreateParentDir { path: s.target(), reason },
        Fault::OpenFile => ShellErrorView::FailedToOpenFile { path: s.target(), reason },
        Fault::Write => match s.phase {
            Phase::Feed => ShellErrorView::WriteStdinFailure { name: s.name(), reason },
            Phase::Write => ShellErrorView::WriteFileFailure { path: s.target(), reason },
            _ => ShellErrorView::FailedStdoutFlush(reason),
        },
        Fault::Spawn => ShellErrorView::CommandSpawnFailure { name: s.name(), reason },
        Fault::TakeStdout => ShellErrorView::FailedToTakeStdout,
        Fault::StdinMissing => ShellErrorView::ChildStdinNotPiped { name: s.name() },
        Fault::Wait => ShellErrorView::CommandWaitFailure {
            name: s.child_name(s.next_to_reap()),
            reason,
        },
        Fault::Builtin => ShellErrorView::CommandsError(reason),
    }
}

/// The answers that the engine takes in a state: the answer to the action it
/// gave last.
pub open spec fn awaits(s: EngineView, e: EventView) -> bool {
    match s.phase {
        Phase::Lookup => e is Found,
        Phase::Capture => e matches EventView::Output(Some(_)) || e matches EventView::Failed(
            Fault::TakeStdout,
            _,
        ),
        Phase::Builtin => e is Output || e matches EventView::Failed(Fault::Builtin, _),
        Phase::Spawn => e is Done || e matches EventView::Failed(Fault::Spawn, _) || (s.tail()
            is Redirect && (e matches EventView::Failed(Fault::CreateDir, _)
            || e matches EventView::Failed(Fault::OpenFile, _))),
        Phase::Feed => e is Done || e matches EventView::Failed(Fault::Write, _)
            || e matches EventView::Failed(Fault::StdinMissing, _),
        Phase::Open => e is Done || e matches EventView::Failed(Fault::CreateDir, _)
            || e matches EventView::Failed(Fault::OpenFile, _),
        Phase::Write => e is Done || e matches EventView::Failed(Fault::CreateDir, _)
            || e matches EventView::Failed(Fault::OpenFile, _) || e matches EventView::Failed(
            Fault::Write,
            _,
        ),
        Phase::Report => e is Done || e matches EventView::Failed(Fault::Write, _),
        Phase::Wait => e is Done || e matches EventView::Failed(Fault::Wait, _),
        Phase::Finished => false,
    }
}

/// The next state and the next action, for a state and the driver's answer.
pub open spec fn step_spec(s: EngineView, e: EventView) -> (EngineView, ActionView) {
    match s.phase {
        Phase::Wait => {
            let reaped = EngineView { reaped: s.reaped + 1, ..s };
            match e {
                EventView::Failed(fault, reason) => fail_spec(reaped, fault_error(s, fault, reason)),
                _ => drain_spec(reaped),
            }
        },
        _ => match e {
            EventView::Failed(fault, reason) => fail_spec(s, fault_error(s, fault, reason)),
            EventView::Found(found) => if found {
                spawn_spec(s)
            } else {
                (
                    EngineView { phase: Phase::Report, ..s },
                    ActionView::Print { text: s.name() + ": command not found\n"@ },
                )
            },
            EventView::Output(out) => match s.phase {
                Phase::Capture => begin_spec(
                    EngineView { upstream: UpstreamView::Text(out->0), ..s },
                    s.at,
                ),
                _ => match out {
                    None => drain_spec(s),
                    Some(out) => deliver_spec(s, out),
                },
            },
            EventView::Done => match s.phase {
                Phase::Spawn => {
                    let started = EngineView { children: s.children.push(s.at), ..s };
                    match s.upstream {
                        UpstreamView::Text(text) => (
                            EngineView {
                                phase: Phase::Feed,
                                upstream: UpstreamView::Nothing,
                                ..started
                            },
                            ActionView::Feed { child: s.children.len() as usize, text },
                        ),
                        _ => proceed_spec(started, UpstreamView::Child),
                    }
                },
                Phase::Feed => proceed_spec(s, UpstreamView::Child),
                Phase::Open => (
                    EngineView { phase: Phase::Report, upstream: UpstreamView::Nothing, ..s },
                    ActionView::Print { text: s.upstream->Text_0 },
                ),
                _ => drain_spec(s),
            },
        },
    }
}

} // verus!
