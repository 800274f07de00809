//! The engine that a driver runs a pipeline with.
//!
//! [`handle_command`] starts the engine on a token stream and gives the first
//! action. The driver performs the action and hands its answer to
//! [`Engine::step`], which gives the next action, until the action is
//! [`Action::Finish`].

use vstd::prelude::*;
use vstd::string::StringExecFns;
use crate::commands::builtin::Builtin;
use crate::parser::token::Token;
use crate::parser::words::split_words;
use crate::shell::error::{ShellError, ShellErrorView};
use crate::shell::laws::{lemma_start_inv, lemma_step_inv};
use crate::shell::model::{
    awaits, begin_spec, deliver_spec, drain_spec, fail_spec, fault_error, proceed_spec,
    spawn_spec, start_spec, step_spec, EngineView, Phase, UpstreamView,
};
use crate::shell::protocol::{view_of_failure, Action, Event, Fault, Input, Output};
use crate::shell::redirect::{terminate_line, Stream};
use crate::shell::stage::{
    collect_args, find_args_end, lemma_args_end, read_tail, tail_at, token_copy, Tail,
};

verus! {

/// What the stage before left for the stage at hand.
#[derive(Debug, PartialEq, Eq)]
pub enum Upstream {
    /// Nothing: no pipe stands before the stage.
    Nothing,
    /// The captured output of a builtin, or the text that an action holds.
    Text(String),
    /// The open output of the child started last.
    Child,
}

impl View for Upstream {
    type V = UpstreamView;

    open spec fn view(&self) -> UpstreamView {
        match self {
            Upstream::Nothing => UpstreamView::Nothing,
            Upstream::Text(t) => UpstreamView::Text(t@),
            Upstream::Child => UpstreamView::Child,
        }
    }
}

/// The parts of an engine.
struct Core {
    tokens: Vec<Token>,
    at: usize,
    end: usize,
    tail: Tail,
    phase: Phase,
    upstream: Upstream,
    children: Vec<usize>,
    reaped: usize,
    failure: Option<ShellError>,
}

/// The positions of the children as integers.
spec fn positions(children: Seq<usize>) -> Seq<int> {
    Seq::new(children.len(), |c: int| children[c] as int)
}

impl Core {
    spec fn model(self) -> EngineView {
        EngineView {
            tokens: self.tokens.deep_view(),
            at: self.at as int,
            phase: self.phase,
            upstream: self.upstream@,
            children: positions(self.children@),
            reaped: self.reaped as int,
            failure: view_of_failure(self.failure),
        }
    }

    /// Whether `end` and `tail` are those of the stage at hand.
    spec fn stage_read(self) -> bool {
        &&& self.at < self.tokens.len()
        &&& self.end == self.model().end()
        &&& tail_at(self.tokens.deep_view(), self.end as int) == Ok::<Tail, ShellErrorView>(self.tail)
    }

    /// The name of the command at a position.
    fn name_at(&self, at: usize) -> (name: String)
        requires
            at < self.tokens.len(),
            self.tokens.deep_view()[at as int] is Command,
        ensures
            name@ == self.tokens.deep_view()[at as int]->Command_0,
    {
        assert(self.tokens.deep_view()[at as int] == self.tokens@[at as int]@);
        match &self.tokens[at] {
            Token::Command(w) => w.clone(),
            _ => String::new(),
        }
    }

    /// The file that the stage at hand is redirected to.
    fn target(&self) -> (path: String)
        requires
            self.stage_read(),
            self.tail is Redirect,
        ensures
            path@ == self.model().target(),
    {
        let ghost view = self.tokens.deep_view();
        match self.tail {
            Tail::Redirect { redirection, target } => {
                assert(view[target as int] == self.tokens@[target as int]@);
                match &self.tokens[target] {
                    Token::Arg(w) => w.clone(),
                    _ => String::new(),
                }
            },
            _ => String::new(),
        }
    }

    /// The arguments of the stage at hand.
    fn own_args(&self) -> (args: Vec<String>)
        requires
            self.stage_read(),
        ensures
            args.deep_view() == self.model().own_args(),
    {
        proof {
            lemma_args_end(self.tokens.deep_view(), self.at + 1);
        }
        collect_args(&self.tokens, self.at + 1, self.end)
    }

    fn drain(self) -> (next: (Core, Action))
        requires
            self.reaped <= self.children.len(),
        ensures
            (next.0.model(), next.1@) == drain_spec(self.model()),
    {
        let mut core = self;
        if core.reaped < core.children.len() {
            let child = core.children.len() - core.reaped - 1;
            core.phase = Phase::Wait;
            (core, Action::Wait { child })
        } else {
            let result = match core.failure.take() {
                Some(e) => Err(e),
                None => Ok(()),
            };
            core.phase = Phase::Finished;
            (core, Action::Finish(result))
        }
    }

    fn fail(self, error: ShellError) -> (next: (Core, Action))
        requires
            self.reaped <= self.children.len(),
        ensures
            (next.0.model(), next.1@) == fail_spec(self.model(), error@),
    {
        let mut core = self;
        if core.failure.is_none() {
            core.failure = Some(error);
        }
        core.drain()
    }

    fn begin(self, at: usize) -> (next: (Core, Action))
        requires
            at <= self.tokens.len(),
            self.reaped <= self.children.len(),
            self.upstream is Child ==> self.children.len() > 0,
        ensures
            (next.0.model(), next.1@) == begin_spec(self.model(), at as int),
            next.0.model().in_stage() ==> next.0.stage_read(),
    {
        let ghost view = self.tokens.deep_view();
        let mut core = self;
        core.at = at;
        proof {
            if at < core.tokens.len() {
                assert(view[at as int] == core.tokens@[at as int]@);
            }
            if core.tokens.len() > 0 {
                assert(view[0] == core.tokens@[0]@);
            }
        }
        if !(at < core.tokens.len() && is_command(&core.tokens[at])) {
            let error = if at == 0 && core.tokens.len() > 0 {
                ShellError::UnexpectedToken(core.tokens[0].duplicate())
            } else {
                ShellError::PipedIntoNonCommand(token_copy(&core.tokens, at))
            };
            return core.fail(error);
        }
        core.end = find_args_end(&core.tokens, at + 1);
        match read_tail(&core.tokens, core.end) {
            Err(error) => core.fail(error),
            Ok(tail) => {
                core.tail = tail;
                let name = core.name_at(at);
                match Builtin::from_str(name.as_str()) {
                    Err(_) => {
                        core.phase = Phase::Lookup;
                        (core, Action::Lookup { name })
                    },
                    Ok(Builtin::Exit) => core.drain(),
                    Ok(builtin) => {
                        let mut args = core.own_args();
                        match &core.upstream {
                            Upstream::Child => {
                                core.phase = Phase::Capture;
                                let child = core.children.len() - 1;
                                (core, Action::Capture { child })
                            },
                            Upstream::Nothing => {
                                core.phase = Phase::Builtin;
                                (core, Action::RunBuiltin { builtin, args })
                            },
                            Upstream::Text(text) => {
                                let mut extra = split_words(text.as_str());
                                let ghost own = args.deep_view();
                                let ghost more = extra.deep_view();
                                args.append(&mut extra);
                                assert(args.deep_view() =~= own + more);
                                core.phase = Phase::Builtin;
                                core.upstream = Upstream::Nothing;
                                (core, Action::RunBuiltin { builtin, args })
                            },
                        }
                    },
                }
            },
        }
    }

    fn spawn(self) -> (next: (Core, Action))
        requires
            self.stage_read(),
            self.tokens.deep_view()[self.at as int] is Command,
            self.upstream is Child ==> self.children.len() > 0,
        ensures
            (next.0.model(), next.1@) == spawn_spec(self.model()),
            next.0.stage_read(),
    {
        let mut core = self;
        let program = core.name_at(core.at);
        let args = core.own_args();
        let stdin = match &core.upstream {
            Upstream::Nothing => Input::Inherit,
            Upstream::Text(_) => Input::Piped,
            Upstream::Child => Input::FromChild(core.children.len() - 1),
        };
        let (stdout, stderr, target) = match core.tail {
            Tail::End => (Output::Inherit, Output::Inherit, None),
            Tail::Pipe => (Output::Piped, Output::Inherit, None),
            Tail::Redirect { redirection, target } => match redirection.stream {
                Stream::Stdout => (
                    Output::File(redirection.mode),
                    Output::Inherit,
                    Some(core.target()),
                ),
                Stream::Stderr => (
                    Output::Inherit,
                    Output::File(redirection.mode),
                    Some(core.target()),
                ),
            },
        };
        let child = core.children.len();
        core.phase = Phase::Spawn;
        (core, Action::Spawn { child, program, args, stdin, stdout, stderr, target })
    }

    fn proceed(self, upstream: Upstream) -> (next: (Core, Action))
        requires
            self.stage_read(),
            self.reaped <= self.children.len(),
            upstream is Child ==> self.children.len() > 0,
        ensures
            (next.0.model(), next.1@) == proceed_spec(self.model(), upstream@),
            next.0.model().in_stage() ==> next.0.stage_read(),
    {
        let mut core = self;
        match core.tail {
            Tail::Pipe => {
                core.upstream = upstream;
                let next = core.end + 1;
                core.begin(next)
            },
            _ => {
                core.upstream = Upstream::Nothing;
                core.drain()
            },
        }
    }

    fn deliver(self, out: String) -> (next: (Core, Action))
        requires
            self.stage_read(),
            self.reaped <= self.children.len(),
        ensures
            (next.0.model(), next.1@) == deliver_spec(self.model(), out@),
            next.0.model().in_stage() ==> next.0.stage_read(),
    {
        let mut core = self;
        match core.tail {
            Tail::End => {
                core.phase = Phase::Report;
                (core, Action::Print { text: out })
            },
            Tail::Pipe => core.proceed(Upstream::Text(out)),
            Tail::Redirect { redirection, target } => {
                let path = core.target();
                match redirection.stream {
                    Stream::Stdout => {
                        core.phase = Phase::Write;
                        let text = terminate_line(out);
                        (core, Action::WriteFile { path, mode: redirection.mode, text })
                    },
                    Stream::Stderr => {
                        core.phase = Phase::Open;
                        core.upstream = Upstream::Text(out);
                        (core, Action::OpenFile { path, mode: redirection.mode })
                    },
                }
            },
        }
    }

    /// Whether the state is one that the engine reaches, with the stage at
    /// hand read.
    spec fn well_formed(self) -> bool {
        &&& self.model().inv()
        &&& self.model().in_stage() ==> self.stage_read()
    }

    fn failure_for(&self, fault: Fault, reason: String) -> (error: ShellError)
        requires
            self.well_formed(),
            awaits(self.model(), crate::shell::protocol::EventView::Failed(fault, reason@)),
        ensures
            error@ == fault_error(self.model(), fault, reason@),
    {
        match fault {
            Fault::CreateDir => ShellError::CouldNotCreateParentDir { path: self.target(), reason },
            Fault::OpenFile => ShellError::FailedToOpenFile { path: self.target(), reason },
            Fault::Write => match self.phase {
                Phase::Feed => ShellError::WriteStdinFailure { name: self.name_at(self.at), reason },
                Phase::Write => ShellError::WriteFileFailure { path: self.target(), reason },
                _ => ShellError::FailedStdoutFlush(reason),
            },
            Fault::Spawn => ShellError::CommandSpawnFailure { name: self.name_at(self.at), reason },
            Fault::TakeStdout => ShellError::FailedToTakeStdout,
            Fault::StdinMissing => ShellError::ChildStdinNotPiped { name: self.name_at(self.at) },
            Fault::Wait => {
                let child = self.children.len() - self.reaped - 1;
                let at = self.children[child];
                assert(self.model().children[child as int] == at);
                ShellError::CommandWaitFailure { name: self.name_at(at), reason }
            },
            Fault::Builtin => ShellError::CommandsError(reason),
        }
    }

    fn step(self, event: Event) -> (next: (Core, Action))
        requires
            self.well_formed(),
            awaits(self.model(), event@),
        ensures
            (next.0.model(), next.1@) == step_spec(self.model(), event@),
            next.0.model().in_stage() ==> next.0.stage_read(),
    {
        proof {
            assert(self.model().children.len() == self.children.len());
            assert(self.model().phase is Wait ==> self.reaped < self.children.len());
        }
        let mut core = self;
        match event {
            Event::Failed(fault, reason) => {
                let error = core.failure_for(fault, reason);
                match core.phase {
                    Phase::Wait => {
                        core.reaped = core.reaped + 1;
                    },
                    _ => {},
                }
                core.fail(error)
            },
            Event::Found(found) => {
                if found {
                    core.spawn()
                } else {
                    let mut text = core.name_at(core.at);
                    text.append(": command not found\n");
                    core.phase = Phase::Report;
                    (core, Action::Print { text })
                }
            },
            Event::Output(out) => match core.phase {
                Phase::Capture => {
                    let text = match out {
                        Some(text) => text,
                        None => String::new(),
                    };
                    core.upstream = Upstream::Text(text);
                    let at = core.at;
                    core.begin(at)
                },
                _ => match out {
                    None => core.drain(),
                    Some(out) => core.deliver(out),
                },
            },
            Event::Done => match core.phase {
                Phase::Wait => {
                    core.reaped = core.reaped + 1;
                    core.drain()
                },
                Phase::Spawn => {
                    let child = core.children.len();
                    let ghost before = positions(core.children@);
                    core.children.push(core.at);
                    assert(positions(core.children@) =~= before.push(core.at as int));
                    match core.upstream {
                        Upstream::Text(text) => {
                            core.phase = Phase::Feed;
                            core.upstream = Upstream::Nothing;
                            (core, Action::Feed { child, text })
                        },
                        _ => core.proceed(Upstream::Child),
                    }
                },
                Phase::Feed => core.proceed(Upstream::Child),
                Phase::Open => {
                    let text = match core.upstream {
                        Upstream::Text(text) => text,
                        _ => String::new(),
                    };
                    core.phase = Phase::Report;
                    core.upstream = Upstream::Nothing;
                    (core, Action::Print { text })
                },
                _ => core.drain(),
            },
        }
    }
}

/// A pipeline in progress.
///
/// An engine is made by [`handle_command`] and moved on by [`Engine::step`].
/// Its state is the [`EngineView`] that its view gives.
pub struct Engine {
    core: Core,
}

impl View for Engine {
    type V = EngineView;

    closed spec fn view(&self) -> EngineView {
        self.core.model()
    }
}

impl Engine {
    #[verifier::type_invariant]
    spec fn valid(self) -> bool {
        self.core.well_formed()
    }

    /// What the engine waits for.
    pub fn phase(&self) -> (phase: Phase)
        ensures
            phase == self@.phase,
    {
        self.core.phase
    }

    /// Whether the pipeline is over.
    pub fn is_finished(&self) -> (over: bool)
        ensures
            over == (self@.phase is Finished),
            self@.inv(),
    {
        proof {
            use_type_invariant(self);
        }
        match self.core.phase {
            Phase::Finished => true,
            _ => false,
        }
    }

    /// Whether the answer is one that the engine takes in its state.
    pub fn accepts(&self, event: &Event) -> (yes: bool)
        ensures
            yes == awaits(self@, event@),
    {
        proof {
            use_type_invariant(self);
        }
        let redirected = match self.core.tail {
            Tail::Redirect { .. } => true,
            _ => false,
        };
        match self.core.phase {
            Phase::Lookup => match event {
                Event::Found(_) => true,
                _ => false,
            },
            Phase::Capture => match event {
                Event::Output(Some(_)) => true,
                Event::Failed(Fault::TakeStdout, _) => true,
                _ => false,
            },
            Phase::Builtin => match event {
                Event::Output(_) => true,
                Event::Failed(Fault::Builtin, _) => true,
                _ => false,
            },
            Phase::Spawn => match event {
                Event::Done => true,
                Event::Failed(Fault::Spawn, _) => true,
                Event::Failed(Fault::CreateDir, _) => redirected,
                Event::Failed(Fault::OpenFile, _) => redirected,
                _ => false,
            },
            Phase::Feed => match event {
                Event::Done => true,
                Event::Failed(Fault::Write, _) => true,
                Event::Failed(Fault::StdinMissing, _) => true,
                _ => false,
            },
            Phase::Open => match event {
                Event::Done => true,
                Event::Failed(Fault::CreateDir, _) => true,
                Event::Failed(Fault::OpenFile, _) => true,
                _ => false,
            },
            Phase::Write => match event {
                Event::Done => true,
                Event::Failed(Fault::CreateDir, _) => true,
                Event::Failed(Fault::OpenFile, _) => true,
                Event::Failed(Fault::Write, _) => true,
                _ => false,
            },
            Phase::Report => match event {
                Event::Done => true,
                Event::Failed(Fault::Write, _) => true,
                _ => false,
            },
            Phase::Wait => match event {
                Event::Done => true,
                Event::Failed(Fault::Wait, _) => true,
                _ => false,
            },
            Phase::Finished => false,
        }
    }

    /// Takes the driver's answer to the action given last, and gives the next
    /// action.
    ///
    /// The answer must be one that the engine takes in its state (see
    /// [`Engine::accepts`]); once the pipeline is over, there is none.
    pub fn step(self, event: Event) -> (next: (Engine, Action))
        requires
            awaits(self@, event@),
        ensures
            (next.0@, next.1@) == step_spec(self@, event@),
            next.0@.inv(),
    {
        proof {
            use_type_invariant(&self);
            lemma_step_inv(self@, event@);
        }
        let (core, action) = self.core.step(event);
        (Engine { core }, action)
    }
}

/// Starts the engine on the token stream of a command line, and gives the
/// first action.
///
/// The stream is read stage by stage, from the left. An empty stream is over
/// at once; a stream that does not begin with a command fails at once.
pub fn handle_command(tokens: Vec<Token>) -> (first: (Engine, Action))
    ensures
        (first.0@, first.1@) == start_spec(tokens.deep_view()),
        first.0@.inv(),
{
    let n = tokens.len();
    proof {
        assert(tokens.deep_view().len() == n);
        lemma_start_inv(tokens.deep_view());
    }
    let core = Core {
        tokens,
        at: 0,
        end: 0,
        tail: Tail::End,
        phase: Phase::Finished,
        upstream: Upstream::Nothing,
        children: Vec::new(),
        reaped: 0,
        failure: None,
    };
    assert(core.model().children =~= Seq::<int>::empty());
    let (core, action) = if core.tokens.len() == 0 {
        core.drain()
    } else {
        core.begin(0)
    };
    (Engine { core }, action)
}

/// Whether a token is a command.
pub fn is_command(token: &Token) -> (yes: bool)
    ensures
        yes == (token@ is Command),
{
    match token {
        Token::Command(_) => true,
        _ => false,
    }
}

} // verus!
