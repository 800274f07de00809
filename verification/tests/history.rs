use clawsh::commands::builtin::history::{
    history_append, history_contents, history_listing, history_unsaved, invoke_history,
    HistoryAction,
};
use rustyline::history::{FileHistory, History};

fn history(entries: &[&str]) -> FileHistory {
    let mut h = FileHistory::new();
    for entry in entries {
        h.add(entry).unwrap();
    }
    h
}

fn list(words: &[&str]) -> Vec<String> {
    words.iter().map(|w| w.to_string()).collect()
}

#[test]
fn history_lists_all_entries() {
    let h = history(&["ls", "echo hi", "history"]);
    assert_eq!(
        invoke_history(&list(&[]), &h),
        HistoryAction::Show(Some("  1 ls\n  2 echo hi\n  3 history\n".to_string()))
    );
}

#[test]
fn history_lists_the_last_entries() {
    let h = history(&["ls", "echo hi", "pwd", "history 2"]);
    assert_eq!(
        invoke_history(&list(&["2"]), &h),
        HistoryAction::Show(Some("  3 pwd\n  4 history 2\n".to_string()))
    );
    assert_eq!(
        invoke_history(&list(&["+1"]), &h),
        HistoryAction::Show(Some("  4 history 2\n".to_string()))
    );
    assert_eq!(
        invoke_history(&list(&["99"]), &h),
        HistoryAction::Show(Some("  1 ls\n  2 echo hi\n  3 pwd\n  4 history 2\n".to_string()))
    );
    assert_eq!(
        invoke_history(&list(&["99999999999999999999999999"]), &h),
        HistoryAction::Show(Some("  1 ls\n  2 echo hi\n  3 pwd\n  4 history 2\n".to_string()))
    );
}

#[test]
fn history_of_nothing_shows_nothing() {
    let h = history(&["ls"]);
    assert_eq!(invoke_history(&list(&["0"]), &h), HistoryAction::Show(None));
    assert_eq!(invoke_history(&list(&[]), &history(&[])), HistoryAction::Show(None));
    assert_eq!(history_listing(&history(&[]), 5), None);
}

#[test]
fn history_unknown_argument_lists_all() {
    let h = history(&["ls", "pwd"]);
    assert_eq!(
        invoke_history(&list(&["-x", "f"]), &h),
        HistoryAction::Show(Some("  1 ls\n  2 pwd\n".to_string()))
    );
}

#[test]
fn history_numbers_have_all_their_digits() {
    let entries: Vec<String> = (1..=12).map(|i| format!("cmd{i}")).collect();
    let mut h = FileHistory::new();
    for entry in &entries {
        h.add(entry).unwrap();
    }
    assert_eq!(
        history_listing(&h, 4),
        Some("  9 cmd9\n  10 cmd10\n  11 cmd11\n  12 cmd12\n".to_string())
    );
}

#[test]
fn history_options_name_their_file() {
    let h = history(&["ls", "pwd"]);
    assert_eq!(
        invoke_history(&list(&["-r", "f.txt"]), &h),
        HistoryAction::Read(Some("f.txt".to_string()))
    );
    assert_eq!(invoke_history(&list(&["-r"]), &h), HistoryAction::Read(None));
    assert_eq!(
        invoke_history(&list(&["-w", "f.txt"]), &h),
        HistoryAction::Write { file: Some("f.txt".to_string()), text: "ls\npwd\n".to_string() }
    );
    assert_eq!(
        invoke_history(&list(&["-a", "f.txt"]), &h),
        HistoryAction::Append(Some("f.txt".to_string()))
    );
    assert_eq!(invoke_history(&list(&["-a"]), &h), HistoryAction::Append(None));
}

#[test]
fn history_contents_are_the_entries_line_by_line() {
    assert_eq!(history_contents(&history(&[])), "");
    assert_eq!(history_contents(&history(&["ls", "echo a b"])), "ls\necho a b\n");
}

#[test]
fn history_append_writes_new_entries_and_a_mark() {
    let h = history(&["ls", "pwd", "history -a f"]);
    assert_eq!(history_append(&h, "", "f"), "ls\npwd\nhistory -a f\n");
}

#[test]
fn history_append_skips_lines_of_the_file() {
    let h = history(&["ls", "pwd", "echo x", "history -a f"]);
    assert_eq!(history_append(&h, "pwd\r\nother\n", "f"), "ls\necho x\nhistory -a f\n");
    assert_eq!(history_append(&h, "ls\npwd\necho x", "f"), "");
}

#[test]
fn history_append_resumes_behind_the_last_mark() {
    let h = history(&["ls", "history -a f", "pwd", "echo x", "history -a g"]);
    assert_eq!(history_append(&h, "", "g"), "pwd\necho x\nhistory -a g\n");
    let h = history(&["ls", "history -a f", "history -a g"]);
    assert_eq!(history_append(&h, "", "g"), "");
    let h = history(&["history -a f"]);
    assert_eq!(history_append(&h, "", "f"), "");
    assert_eq!(history_append(&history(&[]), "x\n", "f"), "");
}

#[test]
fn history_unsaved_is_what_the_file_lacks() {
    let h = history(&["ls", "pwd", "echo x"]);
    assert_eq!(history_unsaved(&h, "ls\npwd\n"), "echo x\n");
    assert_eq!(history_unsaved(&h, ""), "ls\npwd\necho x\n");
    assert_eq!(history_unsaved(&h, "other\n"), "ls\npwd\necho x\n");
    assert_eq!(history_unsaved(&h, "ls\npwd\necho x\n"), "");
}
