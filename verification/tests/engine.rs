use clawsh::commands::Builtin;
use clawsh::parser::{split_words, tokenize_input, Token};
use clawsh::shell::{
    handle_command, Action, Engine, Event, Fault, Input, Output, Phase, ShellError, WriteMode,
};

fn start(line: &str) -> (Engine, Action) {
    let tokens = tokenize_input(split_words(line)).unwrap_or_default();
    handle_command(tokens)
}

fn next(engine: Engine, event: Event) -> (Engine, Action) {
    assert!(engine.accepts(&event), "the engine does not take {event:?}");
    engine.step(event)
}

fn text(s: &str) -> Event {
    Event::Output(Some(s.to_string()))
}

fn list(words: &[&str]) -> Vec<String> {
    words.iter().map(|w| w.to_string()).collect()
}

fn spawn(
    child: usize,
    program: &str,
    args: &[&str],
    stdin: Input,
    stdout: Output,
    stderr: Output,
    target: Option<&str>,
) -> Action {
    Action::Spawn {
        child,
        program: program.to_string(),
        args: list(args),
        stdin,
        stdout,
        stderr,
        target: target.map(|t| t.to_string()),
    }
}

#[test]
fn pipeline_builtin_into_external() {
    let (e, a) = start("echo hello | cat");
    assert_eq!(a, Action::RunBuiltin { builtin: Builtin::Echo, args: list(&["hello"]) });
    let (e, a) = next(e, text("hello\n"));
    assert_eq!(a, Action::Lookup { name: "cat".to_string() });
    let (e, a) = next(e, Event::Found(true));
    assert_eq!(
        a,
        spawn(0, "cat", &[], Input::Piped, Output::Inherit, Output::Inherit, None)
    );
    let (e, a) = next(e, Event::Done);
    assert_eq!(a, Action::Feed { child: 0, text: "hello\n".to_string() });
    let (e, a) = next(e, Event::Done);
    assert_eq!(a, Action::Wait { child: 0 });
    let (e, a) = next(e, Event::Done);
    assert_eq!(a, Action::Finish(Ok(())));
    assert!(e.is_finished());
}

#[test]
fn pipeline_external_into_builtin_resplits_output() {
    let (e, a) = start("ls | echo first");
    assert_eq!(a, Action::Lookup { name: "ls".to_string() });
    let (e, a) = next(e, Event::Found(true));
    assert_eq!(
        a,
        spawn(0, "ls", &[], Input::Inherit, Output::Piped, Output::Inherit, None)
    );
    let (e, a) = next(e, Event::Done);
    assert_eq!(a, Action::Capture { child: 0 });
    let (e, a) = next(e, text("a 'b c' d"));
    assert_eq!(
        a,
        Action::RunBuiltin { builtin: Builtin::Echo, args: list(&["first", "a", "b c", "d"]) }
    );
    let (e, a) = next(e, text("first a b c d\n"));
    assert_eq!(a, Action::Print { text: "first a b c d\n".to_string() });
    let (e, a) = next(e, Event::Done);
    assert_eq!(a, Action::Wait { child: 0 });
    let (_, a) = next(e, Event::Done);
    assert_eq!(a, Action::Finish(Ok(())));
}

#[test]
fn pipeline_builtin_into_builtin_resplits_output() {
    let (e, a) = start("echo 'a  b' | echo x");
    assert_eq!(a, Action::RunBuiltin { builtin: Builtin::Echo, args: list(&["a  b"]) });
    let (e, a) = next(e, text("a  b\n"));
    assert_eq!(a, Action::RunBuiltin { builtin: Builtin::Echo, args: list(&["x", "a", "b\n"]) });
    let (e, a) = next(e, text("x a b\n\n"));
    assert_eq!(a, Action::Print { text: "x a b\n\n".to_string() });
    let (_, a) = next(e, Event::Done);
    assert_eq!(a, Action::Finish(Ok(())));
}

#[test]
fn redirect_builtin_stdout_truncates() {
    for op in [">", "1>"] {
        let (e, a) = start(&format!("echo hi {op} out.txt"));
        assert_eq!(a, Action::RunBuiltin { builtin: Builtin::Echo, args: list(&["hi"]) });
        let (e, a) = next(e, text("hi\n"));
        assert_eq!(
            a,
            Action::WriteFile {
                path: "out.txt".to_string(),
                mode: WriteMode::Truncate,
                text: "hi\n".to_string(),
            }
        );
        let (_, a) = next(e, Event::Done);
        assert_eq!(a, Action::Finish(Ok(())));
    }
}

#[test]
fn redirect_builtin_stdout_appends() {
    for op in [">>", "1>>"] {
        let (e, _) = start(&format!("echo hi {op} dir/out.txt"));
        let (e, a) = next(e, text("hi\n"));
        assert_eq!(
            a,
            Action::WriteFile {
                path: "dir/out.txt".to_string(),
                mode: WriteMode::Append,
                text: "hi\n".to_string(),
            }
        );
        let (_, a) = next(e, Event::Done);
        assert_eq!(a, Action::Finish(Ok(())));
    }
}

#[test]
fn redirect_builtin_output_gets_one_line_feed() {
    let (e, _) = start("pwd > out.txt");
    let (_, a) = next(e, text("/home/me"));
    assert_eq!(
        a,
        Action::WriteFile {
            path: "out.txt".to_string(),
            mode: WriteMode::Truncate,
            text: "/home/me\n".to_string(),
        }
    );
    let (e, _) = start("pwd > out.txt");
    let (_, a) = next(e, text(""));
    assert_eq!(
        a,
        Action::WriteFile {
            path: "out.txt".to_string(),
            mode: WriteMode::Truncate,
            text: "\n".to_string(),
        }
    );
}

#[test]
fn redirect_builtin_stderr_still_prints() {
    for (op, mode) in [("2>", WriteMode::Truncate), ("2>>", WriteMode::Append)] {
        let (e, _) = start(&format!("echo hi {op} err.txt"));
        let (e, a) = next(e, text("hi\n"));
        assert_eq!(a, Action::OpenFile { path: "err.txt".to_string(), mode });
        assert_eq!(e.phase(), Phase::Open);
        let (e, a) = next(e, Event::Done);
        assert_eq!(a, Action::Print { text: "hi\n".to_string() });
        let (_, a) = next(e, Event::Done);
        assert_eq!(a, Action::Finish(Ok(())));
    }
}

#[test]
fn redirect_external_streams() {
    let cases = [
        (">", Output::File(WriteMode::Truncate), Output::Inherit),
        ("1>", Output::File(WriteMode::Truncate), Output::Inherit),
        (">>", Output::File(WriteMode::Append), Output::Inherit),
        ("1>>", Output::File(WriteMode::Append), Output::Inherit),
        ("2>", Output::Inherit, Output::File(WriteMode::Truncate)),
        ("2>>", Output::Inherit, Output::File(WriteMode::Append)),
    ];
    for (op, stdout, stderr) in cases {
        let (e, a) = start(&format!("ls -l /tmp {op} a/b/out.txt ignored"));
        assert_eq!(a, Action::Lookup { name: "ls".to_string() });
        let (e, a) = next(e, Event::Found(true));
        assert_eq!(
            a,
            spawn(0, "ls", &["-l", "/tmp"], Input::Inherit, stdout, stderr, Some("a/b/out.txt"))
        );
        let (e, a) = next(e, Event::Done);
        assert_eq!(a, Action::Wait { child: 0 });
        let (_, a) = next(e, Event::Done);
        assert_eq!(a, Action::Finish(Ok(())));
    }
}

#[test]
fn pipe_into_nothing_fails() {
    let (e, a) = start("echo hi |");
    assert_eq!(a, Action::RunBuiltin { builtin: Builtin::Echo, args: list(&["hi"]) });
    let (e, a) = next(e, text("hi\n"));
    assert_eq!(a, Action::Finish(Err(ShellError::PipedIntoNonCommand(None))));
    assert!(e.is_finished());
    assert!(!e.accepts(&Event::Done));
}

#[test]
fn pipe_into_non_command_fails() {
    let (e, _) = start("echo hi | > f");
    let (_, a) = next(e, text("hi\n"));
    assert_eq!(
        a,
        Action::Finish(Err(ShellError::PipedIntoNonCommand(Some(Token::Redirect(
            ">".to_string()
        )))))
    );
    let (e, _) = start("echo hi | | cat");
    let (_, a) = next(e, text("hi\n"));
    assert_eq!(a, Action::Finish(Err(ShellError::PipedIntoNonCommand(Some(Token::Pipe)))));
}

#[test]
fn pipe_into_nothing_after_external_reaps_the_child() {
    let (e, _) = start("ls |");
    let (e, a) = next(e, Event::Found(true));
    assert_eq!(
        a,
        spawn(0, "ls", &[], Input::Inherit, Output::Piped, Output::Inherit, None)
    );
    let (e, a) = next(e, Event::Done);
    assert_eq!(a, Action::Wait { child: 0 });
    let (_, a) = next(e, Event::Done);
    assert_eq!(a, Action::Finish(Err(ShellError::PipedIntoNonCommand(None))));
}

#[test]
fn redirect_without_target_fails_before_the_stage_runs() {
    let (e, a) = start("echo hi >");
    assert_eq!(a, Action::Finish(Err(ShellError::NoFileForRedirection(None))));
    assert!(e.is_finished());
    let (_, a) = start("ls > | cat");
    assert_eq!(a, Action::Finish(Err(ShellError::NoFileForRedirection(Some(Token::Pipe)))));
    let (_, a) = start("ls 2>> >");
    assert_eq!(
        a,
        Action::Finish(Err(ShellError::NoFileForRedirection(Some(Token::Redirect(
            ">".to_string()
        )))))
    );
}

#[test]
fn command_not_found_spawns_nothing() {
    let (e, a) = start("nosuchcommand arg");
    assert_eq!(a, Action::Lookup { name: "nosuchcommand".to_string() });
    let (e, a) = next(e, Event::Found(false));
    assert_eq!(a, Action::Print { text: "nosuchcommand: command not found\n".to_string() });
    let (e, a) = next(e, Event::Done);
    assert_eq!(a, Action::Finish(Ok(())));
    assert!(e.is_finished());
}

#[test]
fn command_not_found_behind_a_pipe_reaps_the_children() {
    let (e, _) = start("ls | nosuch");
    let (e, _) = next(e, Event::Found(true));
    let (e, a) = next(e, Event::Done);
    assert_eq!(a, Action::Lookup { name: "nosuch".to_string() });
    let (e, a) = next(e, Event::Found(false));
    assert_eq!(a, Action::Print { text: "nosuch: command not found\n".to_string() });
    let (e, a) = next(e, Event::Done);
    assert_eq!(a, Action::Wait { child: 0 });
    let (_, a) = next(e, Event::Done);
    assert_eq!(a, Action::Finish(Ok(())));
}

#[test]
fn external_pipeline_waits_last_child_first() {
    let (e, _) = start("a x | b | c y z");
    let (e, a) = next(e, Event::Found(true));
    assert_eq!(
        a,
        spawn(0, "a", &["x"], Input::Inherit, Output::Piped, Output::Inherit, None)
    );
    let (e, a) = next(e, Event::Done);
    assert_eq!(a, Action::Lookup { name: "b".to_string() });
    let (e, a) = next(e, Event::Found(true));
    assert_eq!(
        a,
        spawn(1, "b", &[], Input::FromChild(0), Output::Piped, Output::Inherit, None)
    );
    let (e, a) = next(e, Event::Done);
    assert_eq!(a, Action::Lookup { name: "c".to_string() });
    let (e, a) = next(e, Event::Found(true));
    assert_eq!(
        a,
        spawn(2, "c", &["y", "z"], Input::FromChild(1), Output::Inherit, Output::Inherit, None)
    );
    let (e, a) = next(e, Event::Done);
    assert_eq!(a, Action::Wait { child: 2 });
    let (e, a) = next(e, Event::Done);
    assert_eq!(a, Action::Wait { child: 1 });
    let (e, a) = next(e, Event::Done);
    assert_eq!(a, Action::Wait { child: 0 });
    let (_, a) = next(e, Event::Done);
    assert_eq!(a, Action::Finish(Ok(())));
}

#[test]
fn builtin_without_output_ends_the_pipeline() {
    let (e, a) = start("cd /tmp | cat");
    assert_eq!(a, Action::RunBuiltin { builtin: Builtin::Cd, args: list(&["/tmp"]) });
    let (_, a) = next(e, Event::Output(None));
    assert_eq!(a, Action::Finish(Ok(())));
}

#[test]
fn builtin_failure_is_reported() {
    let (e, _) = start("pwd");
    let (_, a) = next(e, Event::Failed(Fault::Builtin, "no directory".to_string()));
    assert_eq!(
        a,
        Action::Finish(Err(ShellError::CommandsError("no directory".to_string())))
    );
}

#[test]
fn spawn_failure_names_the_program() {
    let (e, _) = start("ls | cat");
    let (e, _) = next(e, Event::Found(true));
    let (e, _) = next(e, Event::Done);
    let (e, _) = next(e, Event::Found(true));
    let (e, a) = next(e, Event::Failed(Fault::Spawn, "denied".to_string()));
    assert_eq!(a, Action::Wait { child: 0 });
    let (_, a) = next(e, Event::Done);
    assert_eq!(
        a,
        Action::Finish(Err(ShellError::CommandSpawnFailure {
            name: "cat".to_string(),
            reason: "denied".to_string(),
        }))
    );
}

#[test]
fn file_failures_name_the_path() {
    let (e, _) = start("ls > a/out");
    let (e, _) = next(e, Event::Found(true));
    let (_, a) = next(e, Event::Failed(Fault::CreateDir, "ro".to_string()));
    assert_eq!(
        a,
        Action::Finish(Err(ShellError::CouldNotCreateParentDir {
            path: "a/out".to_string(),
            reason: "ro".to_string(),
        }))
    );
    let (e, _) = start("echo hi > a/out");
    let (e, _) = next(e, text("hi\n"));
    let (_, a) = next(e, Event::Failed(Fault::OpenFile, "ro".to_string()));
    assert_eq!(
        a,
        Action::Finish(Err(ShellError::FailedToOpenFile {
            path: "a/out".to_string(),
            reason: "ro".to_string(),
        }))
    );
    let (e, _) = start("echo hi >> a/out");
    let (e, _) = next(e, text("hi\n"));
    let (_, a) = next(e, Event::Failed(Fault::Write, "full".to_string()));
    assert_eq!(
        a,
        Action::Finish(Err(ShellError::WriteFileFailure {
            path: "a/out".to_string(),
            reason: "full".to_string(),
        }))
    );
}

#[test]
fn feed_failures_name_the_program() {
    let (e, _) = start("echo hi | cat");
    let (e, _) = next(e, text("hi\n"));
    let (e, _) = next(e, Event::Found(true));
    let (e, _) = next(e, Event::Done);
    let (e, a) = next(e, Event::Failed(Fault::Write, "pipe".to_string()));
    assert_eq!(a, Action::Wait { child: 0 });
    let (_, a) = next(e, Event::Done);
    assert_eq!(
        a,
        Action::Finish(Err(ShellError::WriteStdinFailure {
            name: "cat".to_string(),
            reason: "pipe".to_string(),
        }))
    );
    let (e, _) = start("echo hi | cat");
    let (e, _) = next(e, text("hi\n"));
    let (e, _) = next(e, Event::Found(true));
    let (e, _) = next(e, Event::Done);
    let (e, _) = next(e, Event::Failed(Fault::StdinMissing, String::new()));
    let (_, a) = next(e, Event::Done);
    assert_eq!(
        a,
        Action::Finish(Err(ShellError::ChildStdinNotPiped { name: "cat".to_string() }))
    );
}

#[test]
fn wait_failure_names_the_child_and_first_failure_wins() {
    let (e, _) = start("a | b");
    let (e, _) = next(e, Event::Found(true));
    let (e, _) = next(e, Event::Done);
    let (e, _) = next(e, Event::Found(true));
    let (e, a) = next(e, Event::Done);
    assert_eq!(a, Action::Wait { child: 1 });
    let (e, a) = next(e, Event::Failed(Fault::Wait, "gone".to_string()));
    assert_eq!(a, Action::Wait { child: 0 });
    let (_, a) = next(e, Event::Failed(Fault::Wait, "lost".to_string()));
    assert_eq!(
        a,
        Action::Finish(Err(ShellError::CommandWaitFailure {
            name: "b".to_string(),
            reason: "gone".to_string(),
        }))
    );
}

#[test]
fn capture_failure_is_reported() {
    let (e, _) = start("ls | echo");
    let (e, _) = next(e, Event::Found(true));
    let (e, a) = next(e, Event::Done);
    assert_eq!(a, Action::Capture { child: 0 });
    let (e, a) = next(e, Event::Failed(Fault::TakeStdout, String::new()));
    assert_eq!(a, Action::Wait { child: 0 });
    let (_, a) = next(e, Event::Done);
    assert_eq!(a, Action::Finish(Err(ShellError::FailedToTakeStdout)));
}

#[test]
fn print_failure_is_reported() {
    let (e, _) = start("echo hi");
    let (e, _) = next(e, text("hi\n"));
    let (_, a) = next(e, Event::Failed(Fault::Write, "closed".to_string()));
    assert_eq!(
        a,
        Action::Finish(Err(ShellError::FailedStdoutFlush("closed".to_string())))
    );
}

#[test]
fn empty_stream_is_over_at_once() {
    let (e, a) = handle_command(Vec::new());
    assert_eq!(a, Action::Finish(Ok(())));
    assert!(e.is_finished());
}

#[test]
fn malformed_streams_fail_fast() {
    let (_, a) = handle_command(vec![Token::Arg("x".to_string())]);
    assert_eq!(
        a,
        Action::Finish(Err(ShellError::UnexpectedToken(Token::Arg("x".to_string()))))
    );
    let (_, a) = handle_command(vec![
        Token::Command("echo".to_string()),
        Token::Command("again".to_string()),
    ]);
    assert_eq!(
        a,
        Action::Finish(Err(ShellError::UnexpectedToken(Token::Command("again".to_string()))))
    );
    let (_, a) = handle_command(vec![
        Token::Command("echo".to_string()),
        Token::Redirect("<".to_string()),
        Token::Arg("f".to_string()),
    ]);
    assert_eq!(
        a,
        Action::Finish(Err(ShellError::UnexpectedToken(Token::Redirect("<".to_string()))))
    );
}

#[test]
fn engine_refuses_answers_it_does_not_await() {
    let (e, _) = start("ls > out");
    assert_eq!(e.phase(), Phase::Lookup);
    assert!(e.accepts(&Event::Found(true)));
    assert!(!e.accepts(&Event::Done));
    assert!(!e.accepts(&text("x")));
    let (e, _) = next(e, Event::Found(true));
    assert_eq!(e.phase(), Phase::Spawn);
    assert!(e.accepts(&Event::Failed(Fault::OpenFile, String::new())));
    assert!(!e.accepts(&Event::Failed(Fault::Wait, String::new())));
    let (e, _) = start("ls");
    let (e, _) = next(e, Event::Found(true));
    assert!(!e.accepts(&Event::Failed(Fault::OpenFile, String::new())));
    assert!(e.accepts(&Event::Failed(Fault::Spawn, String::new())));
}

#[test]
fn every_run_ends_within_its_bound_and_reaps_every_child() {
    let lines = [
        "a | b | c | d",
        "echo x | a | echo | b > f",
        "a | echo | b | echo | c |",
        "echo 1 2 3 | echo | echo | echo >> f",
        "a b c 2> e",
    ];
    for line in lines {
        let tokens = tokenize_input(split_words(line)).unwrap();
        let bound = 9 * tokens.len() + 10;
        let (mut e, mut a) = handle_command(tokens);
        let mut spawned = 0usize;
        let mut waited: Vec<usize> = Vec::new();
        let mut steps = 0usize;
        loop {
            let event = match &a {
                Action::Finish(_) => break,
                Action::Lookup { .. } => Event::Found(true),
                Action::RunBuiltin { .. } | Action::Capture { .. } => text("out put\n"),
                Action::Spawn { child, .. } => {
                    assert!(waited.is_empty());
                    assert_eq!(*child, spawned);
                    spawned += 1;
                    Event::Done
                }
                Action::Wait { child } => {
                    waited.push(*child);
                    Event::Done
                }
                _ => Event::Done,
            };
            let (e2, a2) = next(e, event);
            e = e2;
            a = a2;
            steps += 1;
            assert!(steps < bound);
        }
        let expected: Vec<usize> = (0..spawned).rev().collect();
        assert_eq!(waited, expected);
        assert!(e.is_finished());
    }
}

#[test]
fn exit_as_a_stage_runs_nothing() {
    let (e, a) = start("echo x | exit");
    assert_eq!(a, Action::RunBuiltin { builtin: Builtin::Echo, args: list(&["x"]) });
    let (e, a) = next(e, text("x\n"));
    assert_eq!(a, Action::Finish(Ok(())));
    assert!(e.is_finished());

    let (e, _) = start("ls | exit 3 | cat");
    let (e, a) = next(e, Event::Found(true));
    assert_eq!(
        a,
        spawn(0, "ls", &[], Input::Inherit, Output::Piped, Output::Inherit, None)
    );
    let (e, a) = next(e, Event::Done);
    assert_eq!(a, Action::Wait { child: 0 });
    let (_, a) = next(e, Event::Done);
    assert_eq!(a, Action::Finish(Ok(())));

    let (e, a) = handle_command(vec![Token::Command("exit".to_string())]);
    assert_eq!(a, Action::Finish(Ok(())));
    assert!(e.is_finished());
}

#[test]
fn exit_with_a_malformed_tail_still_fails() {
    let (_, a) = start("echo x | exit >");
    assert_eq!(a, Action::RunBuiltin { builtin: Builtin::Echo, args: list(&["x"]) });
    let (e, _) = start("echo x | exit >");
    let (_, a) = next(e, text("x\n"));
    assert_eq!(a, Action::Finish(Err(ShellError::NoFileForRedirection(None))));
}

#[test]
fn command_not_found_with_a_redirection_without_target_fails_first() {
    let (_, a) = start("nosuch >");
    assert_eq!(a, Action::Finish(Err(ShellError::NoFileForRedirection(None))));
}

#[test]
fn well_formed_lines_end_well_when_nothing_fails() {
    let lines = [
        "echo a b",
        "echo a | cat | wc > out",
        "ls | echo | cat 2>> err",
        "cd /tmp",
        "a | b | c",
        "echo x | exit",
    ];
    for line in lines {
        let (mut e, mut a) = start(line);
        loop {
            let event = match &a {
                Action::Finish(result) => {
                    assert_eq!(*result, Ok(()), "for {line:?}");
                    break;
                }
                Action::Lookup { .. } => Event::Found(true),
                Action::RunBuiltin { builtin, .. } => {
                    assert_ne!(*builtin, Builtin::Exit);
                    text("out\n")
                }
                Action::Capture { .. } => text("out\n"),
                _ => Event::Done,
            };
            let (e2, a2) = next(e, event);
            e = e2;
            a = a2;
        }
    }
}
