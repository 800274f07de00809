//! What holds of every run of the engine.

use vstd::prelude::*;
use crate::commands::builtin::Builtin;
use crate::parser::token::{is_shaped, is_well_formed, TokenView};
use crate::shell::error::ShellErrorView;
use crate::shell::model::{
    awaits, begin_spec, deliver_spec, drain_spec, fail_spec, proceed_spec, start_spec, step_spec,
    EngineView, Phase, UpstreamView,
};
use crate::shell::protocol::{ActionView, EventView, Input};
use crate::shell::stage::{lemma_args_end, tail_at, Tail};

verus! {

/// What holds of the children whatever the phase.
spec fn children_ok(s: EngineView) -> bool {
    &&& s.tokens.len() <= usize::MAX
    &&& 0 <= s.reaped <= s.children.len()
    &&& 0 <= s.at <= s.tokens.len()
    &&& forall|c: int|
        0 <= c < s.children.len() ==> c <= #[trigger] s.children[c] <= s.at && s.children[c]
            < s.tokens.len() && s.tokens[s.children[c]] is Command
    &&& forall|c: int, d: int|
        0 <= c < d < s.children.len() ==> #[trigger] s.children[c] < #[trigger] s.children[d]
    &&& s.upstream is Child ==> s.children.len() > 0
}

/// Waiting leads to a state of the engine, uses up fuel, and gives a wait or
/// the end.
proof fn lemma_drain(s: EngineView)
    requires
        children_ok(s),
    ensures
        drain_spec(s).0.inv(),
        drain_spec(s).0.fuel() <= 1 + s.children.len() - s.reaped,
        drain_spec(s).0.fuel() >= 0,
        drain_spec(s).1 is Wait || drain_spec(s).1 is Finish,
        drain_spec(s).0.children == s.children,
        drain_spec(s).0.reaped == s.reaped,
{
    lemma_children_bound(s);
}

proof fn lemma_fail(s: EngineView, error: ShellErrorView)
    requires
        children_ok(s),
    ensures
        fail_spec(s, error).0.inv(),
        fail_spec(s, error).0.fuel() <= 1 + s.children.len() - s.reaped,
        fail_spec(s, error).0.fuel() >= 0,
        fail_spec(s, error).1 is Wait || fail_spec(s, error).1 is Finish,
        fail_spec(s, error).0.children == s.children,
        fail_spec(s, error).0.reaped == s.reaped,
{
    let marked = EngineView {
        failure: if s.failure is None {
            Some(error)
        } else {
            s.failure
        },
        ..s
    };
    lemma_drain(marked);
}

/// No more children than positions up to the stage at hand.
proof fn lemma_children_bound(s: EngineView)
    requires
        children_ok(s),
    ensures
        s.children.len() <= s.at + 1,
        s.children.len() <= s.tokens.len(),
        (forall|c: int| 0 <= c < s.children.len() ==> #[trigger] s.children[c] < s.at)
            ==> s.children.len() <= s.at,
{
    if s.children.len() > 0 {
        let last = s.children.len() - 1;
        assert(last <= s.children[last]);
    }
}

/// Where a stage may begin: at the head of the stream with nothing before
/// it, or behind a pipe with what the stage before left.
spec fn may_begin(s: EngineView, at: int) -> bool {
    &&& children_ok(s)
    &&& s.reaped == 0
    &&& s.failure is None
    &&& s.at <= at <= s.tokens.len()
    &&& forall|c: int| 0 <= c < s.children.len() ==> #[trigger] s.children[c] < at
    &&& at == 0 ==> s.upstream is Nothing
    &&& at > 0 ==> s.tokens[at - 1] is Pipe && !(s.upstream is Nothing)
}

proof fn lemma_begin(s: EngineView, at: int)
    requires
        may_begin(s, at),
    ensures
        begin_spec(s, at).0.inv(),
        0 <= begin_spec(s, at).0.fuel() <= s.tokens.len() + 9 + 8 * (s.tokens.len() - at),
        begin_spec(s, at).0.children == s.children,
        begin_spec(s, at).0.reaped == 0,
        !(begin_spec(s, at).1 is Spawn),
        !(begin_spec(s, at).1 is Feed),
{
    let here = EngineView { at, ..s };
    assert(children_ok(here));
    lemma_children_bound(here);
    if !(0 <= at < s.tokens.len() && s.tokens[at] is Command) {
        lemma_fail(here, crate::shell::model::no_command_error(s.tokens, at));
    } else {
        lemma_args_end(s.tokens, at + 1);
        match tail_at(s.tokens, here.end()) {
            Err(error) => {
                lemma_fail(here, error);
            },
            Ok(_) => {
                lemma_drain(here);
            },
        }
    }
}

proof fn lemma_proceed(s: EngineView, upstream: UpstreamView)
    requires
        children_ok(s),
        s.reaped == 0,
        s.failure is None,
        s.at < s.tokens.len(),
        tail_at(s.tokens, s.end()) is Ok,
        !(upstream is Nothing),
        upstream is Child ==> s.children.len() > 0,
    ensures
        proceed_spec(s, upstream).0.inv(),
        0 <= proceed_spec(s, upstream).0.fuel() < s.tokens.len() + 6 + 8 * (s.tokens.len() - s.at),
        proceed_spec(s, upstream).0.children == s.children,
        proceed_spec(s, upstream).0.reaped == 0,
        !(proceed_spec(s, upstream).1 is Spawn),
        !(proceed_spec(s, upstream).1 is Feed),
{
    lemma_args_end(s.tokens, s.at + 1);
    lemma_children_bound(s);
    match s.tail() {
        Tail::Pipe => {
            let piped = EngineView { upstream, ..s };
            assert(may_begin(piped, s.end() + 1));
            lemma_begin(piped, s.end() + 1);
        },
        _ => {
            lemma_drain(EngineView { upstream: UpstreamView::Nothing, ..s });
        },
    }
}

proof fn lemma_deliver(s: EngineView, out: Seq<char>)
    requires
        s.inv(),
        s.phase is Builtin,
    ensures
        deliver_spec(s, out).0.inv(),
        0 <= deliver_spec(s, out).0.fuel() < s.fuel(),
        deliver_spec(s, out).0.children == s.children,
        deliver_spec(s, out).0.reaped == 0,
        !(deliver_spec(s, out).1 is Spawn),
        !(deliver_spec(s, out).1 is Feed),
{
    lemma_args_end(s.tokens, s.at + 1);
    match s.tail() {
        Tail::Pipe => {
            lemma_proceed(s, UpstreamView::Text(out));
        },
        _ => {},
    }
}

/// The engine starts in a state that satisfies its invariant.
pub proof fn lemma_start_inv(tokens: Seq<TokenView>)
    requires
        tokens.len() <= usize::MAX,
    ensures
        start_spec(tokens).0.inv(),
{
    let s = EngineView {
        tokens,
        at: 0,
        phase: Phase::Finished,
        upstream: UpstreamView::Nothing,
        children: Seq::empty(),
        reaped: 0,
        failure: None,
    };
    if tokens.len() == 0 {
        lemma_drain(s);
    } else {
        lemma_begin(s, 0);
    }
}

/// Every step keeps the invariant and uses up fuel: a run of the engine on a
/// stream of `n` tokens takes fewer than `9 * n + 10` answers.
pub proof fn lemma_step_inv(s: EngineView, e: EventView)
    requires
        s.inv(),
        awaits(s, e),
    ensures
        step_spec(s, e).0.inv(),
        0 <= step_spec(s, e).0.fuel() < s.fuel(),
        s.fuel() <= 9 * s.tokens.len() + 9,
{
    lemma_step_facts(s, e);
}

/// Children are started only while none has been waited for: every wait
/// comes after the last start, and so after every later stage has begun.
/// The same holds of feeding a child, of reading one, and of running a
/// builtin.
pub proof fn lemma_waits_come_last(s: EngineView, e: EventView)
    requires
        s.inv(),
        awaits(s, e),
    ensures
        s.phase is Wait ==> step_spec(s, e).1 is Wait || step_spec(s, e).1 is Finish,
        step_spec(s, e).1 is Wait || step_spec(s, e).1 is Finish || step_spec(s, e).0.reaped == 0,
{
    lemma_step_facts(s, e);
}

/// The children are waited for in the reverse order of their start, each
/// once, and the pipeline is not over before all have been waited for.
pub proof fn lemma_every_child_is_reaped(s: EngineView, e: EventView)
    requires
        s.inv(),
        awaits(s, e),
    ensures
        step_spec(s, e).1 matches ActionView::Wait { child } ==> child == step_spec(
            s,
            e,
        ).0.children.len() - step_spec(s, e).0.reaped - 1 && 0 <= child,
        s.phase is Wait ==> step_spec(s, e).0.reaped == s.reaped + 1,
        step_spec(s, e).1 is Finish ==> step_spec(s, e).0.reaped == step_spec(
            s,
            e,
        ).0.children.len(),
        step_spec(s, e).1 is Finish <==> step_spec(s, e).0.phase is Finished,
{
    lemma_step_facts(s, e);
}

/// A child gets its number when it is started: the number is the count of
/// the children started before it, and the child stands for the stage at
/// hand.
pub proof fn lemma_children_are_numbered(s: EngineView, e: EventView)
    requires
        s.inv(),
        awaits(s, e),
    ensures
        step_spec(s, e).1 matches ActionView::Spawn { child, .. } ==> child == s.children.len(),
        s.phase is Spawn && e is Done ==> step_spec(s, e).0.children == s.children.push(s.at),
        !(s.phase is Spawn && e is Done) ==> step_spec(s, e).0.children == s.children,
{
    lemma_step_facts(s, e);
}

/// The first failure is the one that the pipeline ends with.
pub proof fn lemma_first_failure_stays(s: EngineView, e: EventView)
    requires
        s.inv(),
        awaits(s, e),
        s.failure is Some,
    ensures
        step_spec(s, e).1 is Finish ==> step_spec(s, e).1 == ActionView::Finish(
            Err(s.failure->0),
        ),
        !(step_spec(s, e).1 is Finish) ==> step_spec(s, e).0.failure == s.failure,
{
    lemma_step_facts(s, e);
}

/// Whether a failure says that a token is out of place.
pub open spec fn is_out_of_place(failure: Option<ShellErrorView>) -> bool {
    failure matches Some(ShellErrorView::UnexpectedToken(_))
}

proof fn lemma_begin_shaped(s: EngineView, at: int)
    requires
        is_shaped(s.tokens),
        0 <= at <= s.tokens.len(),
        !is_out_of_place(s.failure),
        s.tokens.len() > 0,
    ensures
        !is_out_of_place(begin_spec(s, at).0.failure),
        begin_spec(s, at).1 matches ActionView::Finish(r) ==> !is_out_of_place(r.err()),
{
    reveal_strlit(">");
    reveal_strlit("1>");
    reveal_strlit("2>");
    reveal_strlit(">>");
    reveal_strlit("1>>");
    reveal_strlit("2>>");
    let here = EngineView { at, ..s };
    if 0 <= at < s.tokens.len() && s.tokens[at] is Command {
        lemma_args_end(s.tokens, at + 1);
        let e = here.end();
        if e < s.tokens.len() {
            if s.tokens[e] is Command {
                assert(s.tokens[e - 1] is Pipe);
                if e - 1 > at {
                    assert(s.tokens[e - 1] is Arg);
                }
            }
        }
    }
}

/// The engine finds no token out of place in a stream that has the shape
/// which the classifier gives: on the token stream of a word list it never
/// fails with [`ShellErrorView::UnexpectedToken`].
pub proof fn lemma_shaped_stream_fits(s: EngineView, e: EventView)
    requires
        s.inv(),
        awaits(s, e),
        is_shaped(s.tokens),
        !is_out_of_place(s.failure),
    ensures
        !is_out_of_place(step_spec(s, e).0.failure),
        step_spec(s, e).1 matches ActionView::Finish(r) ==> !is_out_of_place(r.err()),
{
    if s.in_stage() {
        lemma_args_end(s.tokens, s.at + 1);
    }
    match s.phase {
        Phase::Wait => {},
        _ => match e {
            EventView::Output(out) => match s.phase {
                Phase::Capture => {
                    lemma_begin_shaped(
                        EngineView { upstream: UpstreamView::Text(out->0), ..s },
                        s.at,
                    );
                },
                _ => match out {
                    None => {},
                    Some(out) => {
                        if s.tail() is Pipe {
                            lemma_begin_shaped(
                                EngineView { upstream: UpstreamView::Text(out), ..s },
                                s.end() + 1,
                            );
                        }
                    },
                },
            },
            EventView::Done => match s.phase {
                Phase::Spawn => {
                    let started = EngineView { children: s.children.push(s.at), ..s };
                    if !(s.upstream is Text) && s.tail() is Pipe {
                        lemma_begin_shaped(
                            EngineView { upstream: UpstreamView::Child, ..started },
                            s.end() + 1,
                        );
                    }
                },
                Phase::Feed => {
                    if s.tail() is Pipe {
                        lemma_begin_shaped(
                            EngineView { upstream: UpstreamView::Child, ..s },
                            s.end() + 1,
                        );
                    }
                },
                _ => {},
            },
            _ => {},
        },
    }
}

/// The engine starts on a shaped stream without finding a token out of
/// place.
pub proof fn lemma_shaped_stream_starts(tokens: Seq<TokenView>)
    requires
        is_shaped(tokens),
    ensures
        !is_out_of_place(start_spec(tokens).0.failure),
        start_spec(tokens).1 matches ActionView::Finish(r) ==> !is_out_of_place(r.err()),
{
    if tokens.len() > 0 {
        let s = EngineView {
            tokens,
            at: 0,
            phase: Phase::Finished,
            upstream: UpstreamView::Nothing,
            children: Seq::empty(),
            reaped: 0,
            failure: None,
        };
        lemma_begin_shaped(s, 0);
    }
}

/// The stream is read from the left, and a new stage begins only behind a
/// pipe, directly behind it: a redirection ends the pipeline, whatever
/// follows its target.
pub proof fn lemma_stages_follow_pipes(s: EngineView, e: EventView)
    requires
        s.inv(),
        awaits(s, e),
    ensures
        step_spec(s, e).0.at == s.at || (s.in_stage() && s.tail() is Pipe && step_spec(s, e).0.at
            == s.end() + 1 && s.tokens[s.end()] is Pipe),
        step_spec(s, e).0.tokens == s.tokens,
{
    if s.in_stage() {
        lemma_args_end(s.tokens, s.at + 1);
    }
}

/// A program reads from where the shell reads exactly if it is the first
/// stage. Behind a pipe it reads what the stage before left, which is one of
/// two things and never both: the text of a builtin, through a fresh pipe, or
/// the output of the child started last.
pub proof fn lemma_stage_input(s: EngineView, e: EventView)
    requires
        s.inv(),
        awaits(s, e),
    ensures
        step_spec(s, e).1 matches ActionView::Spawn { stdin, .. } ==> {
            &&& stdin is Inherit <==> s.at == 0
            &&& stdin is Piped <==> s.upstream is Text
            &&& stdin matches Input::FromChild(child) ==> s.upstream is Child && child + 1
                == s.children.len()
        },
        step_spec(s, e).1 matches ActionView::Feed { child, text } ==> s.phase is Spawn
            && s.upstream == UpstreamView::Text(text) && child == s.children.len(),
        step_spec(s, e).1 matches ActionView::Capture { child } ==> child + 1
            == step_spec(s, e).0.children.len() && step_spec(s, e).0.at > 0,
{
    lemma_step_facts(s, e);
    assert(children_ok(s));
    lemma_children_bound(s);
    if s.in_stage() {
        lemma_args_end(s.tokens, s.at + 1);
    }
    match s.phase {
        Phase::Wait => {},
        _ => match e {
            EventView::Output(out) => match s.phase {
                Phase::Capture => {},
                _ => match out {
                    None => {},
                    Some(out) => {
                        if s.tail() is Pipe {
                            lemma_begin_input(
                                EngineView { upstream: UpstreamView::Text(out), ..s },
                                s.end() + 1,
                            );
                        }
                    },
                },
            },
            EventView::Done => match s.phase {
                Phase::Spawn => {
                    let started = EngineView { children: s.children.push(s.at), ..s };
                    if !(s.upstream is Text) && s.tail() is Pipe {
                        lemma_begin_input(
                            EngineView { upstream: UpstreamView::Child, ..started },
                            s.end() + 1,
                        );
                    }
                },
                Phase::Feed => {
                    if s.tail() is Pipe {
                        lemma_begin_input(
                            EngineView { upstream: UpstreamView::Child, ..s },
                            s.end() + 1,
                        );
                    }
                },
                _ => {},
            },
            _ => {},
        },
    }
}

proof fn lemma_begin_input(s: EngineView, at: int)
    requires
        at > 0,
        s.children.len() <= usize::MAX,
        s.upstream is Child ==> s.children.len() > 0,
    ensures
        !(begin_spec(s, at).1 is Spawn),
        !(begin_spec(s, at).1 is Feed),
        begin_spec(s, at).1 matches ActionView::Capture { child } ==> child + 1
            == begin_spec(s, at).0.children.len() && begin_spec(s, at).0.at > 0
            && s.children.len() > 0,
{
}

proof fn lemma_step_facts(s: EngineView, e: EventView)
    requires
        s.inv(),
        awaits(s, e),
    ensures
        step_spec(s, e).0.inv(),
        0 <= step_spec(s, e).0.fuel() < s.fuel(),
        s.fuel() <= 9 * s.tokens.len() + 9,
        s.phase is Wait ==> step_spec(s, e).1 is Wait || step_spec(s, e).1 is Finish,
        step_spec(s, e).1 is Wait || step_spec(s, e).1 is Finish || step_spec(s, e).0.reaped == 0,
        step_spec(s, e).1 matches ActionView::Wait { child } ==> child == step_spec(
            s,
            e,
        ).0.children.len() - step_spec(s, e).0.reaped - 1 && 0 <= child,
        s.phase is Wait ==> step_spec(s, e).0.reaped == s.reaped + 1,
        step_spec(s, e).1 is Finish ==> step_spec(s, e).0.reaped == step_spec(
            s,
            e,
        ).0.children.len(),
        step_spec(s, e).1 is Finish <==> step_spec(s, e).0.phase is Finished,
        step_spec(s, e).1 matches ActionView::Spawn { child, .. } ==> child == s.children.len(),
        s.phase is Spawn && e is Done ==> step_spec(s, e).0.children == s.children.push(s.at),
        !(s.phase is Spawn && e is Done) ==> step_spec(s, e).0.children == s.children,
        s.failure is Some ==> (step_spec(s, e).1 is Finish ==> step_spec(s, e).1
            == ActionView::Finish(Err(s.failure->0))),
        s.failure is Some ==> (!(step_spec(s, e).1 is Finish) ==> step_spec(s, e).0.failure
            == s.failure),
{
    assert(children_ok(s));
    lemma_children_bound(s);
    if s.in_stage() {
        lemma_args_end(s.tokens, s.at + 1);
    }
    match s.phase {
        Phase::Wait => {
            let reaped = EngineView { reaped: s.reaped + 1, ..s };
            match e {
                EventView::Failed(fault, reason) => {
                    lemma_fail(reaped, crate::shell::model::fault_error(s, fault, reason));
                },
                _ => {
                    lemma_drain(reaped);
                },
            }
        },
        _ => {
            assert(s.reaped == 0);
            match e {
                EventView::Failed(fault, reason) => {
                    lemma_fail(s, crate::shell::model::fault_error(s, fault, reason));
                },
                EventView::Found(found) => {},
                EventView::Output(out) => match s.phase {
                    Phase::Capture => {
                        let fed = EngineView { upstream: UpstreamView::Text(out->0), ..s };
                        assert(may_begin(fed, s.at));
                        lemma_begin(fed, s.at);
                    },
                    _ => match out {
                        None => {
                            lemma_drain(s);
                        },
                        Some(out) => {
                            lemma_deliver(s, out);
                        },
                    },
                },
                EventView::Done => match s.phase {
                    Phase::Spawn => {
                        let started = EngineView { children: s.children.push(s.at), ..s };
                        assert(children_ok(started));
                        match s.upstream {
                            UpstreamView::Text(text) => {},
                            _ => {
                                lemma_proceed(started, UpstreamView::Child);
                            },
                        }
                    },
                    Phase::Feed => {
                        lemma_proceed(s, UpstreamView::Child);
                    },
                    Phase::Open => {},
                    _ => {
                        lemma_drain(s);
                    },
                },
            }
        },
    }
}

/// Whether an action ends the pipeline with a failure.
pub open spec fn ends_badly(a: ActionView) -> bool {
    a matches ActionView::Finish(r) && r is Err
}

proof fn lemma_begin_well(s: EngineView, at: int)
    requires
        is_well_formed(s.tokens),
        0 <= at < s.tokens.len(),
        s.tokens[at] is Command,
        s.failure is None,
    ensures
        begin_spec(s, at).0.failure is None,
        !ends_badly(begin_spec(s, at).1),
{
    let here = EngineView { at, ..s };
    lemma_args_end(s.tokens, at + 1);
    let e = here.end();
    if e < s.tokens.len() {
        if s.tokens[e] is Command {
            assert(s.tokens[e - 1] is Pipe);
            if e - 1 > at {
                assert(s.tokens[e - 1] is Arg);
            }
        }
    }
}

/// On a well-formed stream nothing fails unless the driver does: as long as
/// no answer reports a failure, the engine records none, and the pipeline
/// ends well.
pub proof fn lemma_well_formed_stream_runs_well(s: EngineView, e: EventView)
    requires
        s.inv(),
        awaits(s, e),
        is_well_formed(s.tokens),
        s.failure is None,
        !(e is Failed),
    ensures
        step_spec(s, e).0.failure is None,
        !ends_badly(step_spec(s, e).1),
{
    if s.in_stage() {
        lemma_args_end(s.tokens, s.at + 1);
        if s.tail() is Pipe {
            assert(s.tokens[s.end()] is Pipe);
            assert(s.tokens[s.end() + 1] is Command);
        }
    }
    match s.phase {
        Phase::Wait => {},
        _ => match e {
            EventView::Output(out) => match s.phase {
                Phase::Capture => {
                    lemma_begin_well(
                        EngineView { upstream: UpstreamView::Text(out->0), ..s },
                        s.at,
                    );
                },
                _ => match out {
                    None => {},
                    Some(out) => {
                        if s.tail() is Pipe {
                            lemma_begin_well(
                                EngineView { upstream: UpstreamView::Text(out), ..s },
                                s.end() + 1,
                            );
                        }
                    },
                },
            },
            EventView::Done => match s.phase {
                Phase::Spawn => {
                    let started = EngineView { children: s.children.push(s.at), ..s };
                    if !(s.upstream is Text) && s.tail() is Pipe {
                        lemma_begin_well(
                            EngineView { upstream: UpstreamView::Child, ..started },
                            s.end() + 1,
                        );
                    }
                },
                Phase::Feed => {
                    if s.tail() is Pipe {
                        lemma_begin_well(
                            EngineView { upstream: UpstreamView::Child, ..s },
                            s.end() + 1,
                        );
                    }
                },
                _ => {},
            },
            _ => {},
        },
    }
}

/// The engine starts on a well-formed stream without a failure.
pub proof fn lemma_well_formed_stream_starts_well(tokens: Seq<TokenView>)
    requires
        is_well_formed(tokens),
    ensures
        start_spec(tokens).0.failure is None,
        !ends_badly(start_spec(tokens).1),
{
    if tokens.len() > 0 {
        let s = EngineView {
            tokens,
            at: 0,
            phase: Phase::Finished,
            upstream: UpstreamView::Nothing,
            children: Seq::empty(),
            reaped: 0,
            failure: None,
        };
        lemma_begin_well(s, 0);
    }
}

/// Whether no answer reports a failure.
pub open spec fn all_went_well(answers: Seq<EventView>) -> bool {
    forall|k: int| 0 <= k < answers.len() ==> !((#[trigger] answers[k]) is Failed)
}

/// A whole run on a well-formed stream, with a driver that never fails,
/// never ends with a failure.
pub proof fn lemma_well_formed_run(s: EngineView, answers: Seq<EventView>)
    requires
        s.inv(),
        is_well_formed(s.tokens),
        s.failure is None,
        all_went_well(answers),
    ensures
        forall|j: int|
            0 <= j < run_spec(s, answers).len() ==> !ends_badly(#[trigger] run_spec(s, answers)[j]),
    decreases answers.len(),
{
    if answers.len() == 0 || !awaits(s, answers[0]) {
    } else {
        let e = answers[0];
        let next = step_spec(s, e).0;
        let rest = run_spec(next, answers.drop_first());
        let all = run_spec(s, answers);
        lemma_step_facts(s, e);
        lemma_stages_follow_pipes(s, e);
        lemma_well_formed_stream_runs_well(s, e);
        assert(all_went_well(answers.drop_first())) by {
            assert forall|k: int| 0 <= k < answers.drop_first().len() implies !((
            #[trigger] answers.drop_first()[k]) is Failed) by {
                assert(answers.drop_first()[k] == answers[k + 1]);
            }
        }
        lemma_well_formed_run(next, answers.drop_first());
        assert(all == seq![step_spec(s, e).1] + rest);
        assert forall|j: int| 0 <= j < all.len() implies !ends_badly(#[trigger] all[j]) by {
            if j > 0 {
                assert(all[j] == rest[j - 1]);
            }
        }
    }
}

/// Whether an action asks for `exit` to be run.
pub open spec fn runs_exit(a: ActionView) -> bool {
    a matches ActionView::RunBuiltin { builtin, .. } && builtin == Builtin::Exit
}

/// The engine never asks for `exit` to be run: a stage of that name ends
/// the pipeline without an action of its own.
pub proof fn lemma_exit_is_never_run(s: EngineView, e: EventView, tokens: Seq<TokenView>)
    ensures
        !runs_exit(step_spec(s, e).1),
        !runs_exit(start_spec(tokens).1),
{
}

/// The actions that the engine gives from a state on, for the answers of
/// the driver one after the other, as long as each answer is one that the
/// engine takes.
pub open spec fn run_spec(s: EngineView, answers: Seq<EventView>) -> Seq<ActionView>
    decreases answers.len(),
{
    if answers.len() == 0 || !awaits(s, answers[0]) {
        Seq::empty()
    } else {
        seq![step_spec(s, answers[0]).1] + run_spec(step_spec(s, answers[0]).0, answers.drop_first())
    }
}

/// Whether an action waits for a child or ends the pipeline.
pub open spec fn is_closing(a: ActionView) -> bool {
    a is Wait || a is Finish
}

/// Whatever the driver answers, a run of the engine is finite, and from the
/// first wait on it only waits and then ends: no stage is started, fed or
/// read once a child has been waited for.
pub proof fn lemma_run(s: EngineView, answers: Seq<EventView>)
    requires
        s.inv(),
    ensures
        run_spec(s, answers).len() <= s.fuel(),
        forall|i: int, j: int|
            0 <= i < j < run_spec(s, answers).len() && is_closing(#[trigger] run_spec(s, answers)[i])
                ==> is_closing(#[trigger] run_spec(s, answers)[j]),
        s.phase is Wait ==> forall|j: int|
            0 <= j < run_spec(s, answers).len() ==> is_closing(#[trigger] run_spec(s, answers)[j]),
    decreases answers.len(),
{
    if answers.len() == 0 || !awaits(s, answers[0]) {
    } else {
        let e = answers[0];
        let next = step_spec(s, e).0;
        let first = step_spec(s, e).1;
        let rest = run_spec(next, answers.drop_first());
        let all = run_spec(s, answers);
        lemma_step_facts(s, e);
        lemma_run(next, answers.drop_first());
        assert(all == seq![first] + rest);
        assert forall|j: int| 1 <= j < all.len() implies all[j] == rest[j - 1] by {}
        if is_closing(first) {
            assert(next.phase is Wait || next.phase is Finished) by {
                lemma_closing_phase(s, e);
            }
            if next.phase is Finished {
                assert(rest.len() == 0) by {
                    if answers.drop_first().len() > 0 {
                        assert(!awaits(next, answers.drop_first()[0]));
                    }
                }
            }
        }
        assert forall|i: int, j: int|
            0 <= i < j < all.len() && is_closing(#[trigger] all[i]) implies is_closing(
            #[trigger] all[j],
        ) by {
            if i > 0 {
                assert(is_closing(rest[i - 1]));
                assert(is_closing(rest[j - 1]));
            } else {
                assert(is_closing(rest[j - 1]));
            }
        }
    }
}

/// Behind an action that waits the engine waits, and behind the end it is
/// over.
proof fn lemma_closing_phase(s: EngineView, e: EventView)
    requires
        s.inv(),
        awaits(s, e),
    ensures
        step_spec(s, e).1 is Wait ==> step_spec(s, e).0.phase is Wait,
        step_spec(s, e).1 is Finish ==> step_spec(s, e).0.phase is Finished,
{
    lemma_step_facts(s, e);
    if s.in_stage() {
        lemma_args_end(s.tokens, s.at + 1);
    }
}

} // verus!
