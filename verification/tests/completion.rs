use clawsh::completion::{CompletionError, PathEntry};
use clawsh::shell::{interpret, Line};
use clawsh::parser::Token;
use clawsh::trie::{key_bytes, read_back, TrieNode, TRIE_ASCII_SIZE};
use clawsh::{TrieCompleter, BUILTIN_COMMANDS};

fn list(words: &[&str]) -> Vec<String> {
    words.iter().map(|w| w.to_string()).collect()
}

fn entry(name: &str, executable: bool) -> PathEntry {
    PathEntry { name: name.to_string(), executable }
}

#[test]
fn trie_without_keys_completes_only_the_empty_prefix() {
    let trie: TrieNode<TRIE_ASCII_SIZE> = TrieNode::new();
    assert_eq!(trie.auto_complete(""), Some(Vec::new()));
    assert_eq!(trie.auto_complete("a"), None);
    assert_eq!(trie.dfs(), Vec::<String>::new());
}

#[test]
fn trie_does_not_store_the_empty_key() {
    let mut trie: TrieNode<TRIE_ASCII_SIZE> = TrieNode::new();
    trie.insert("");
    assert_eq!(trie.dfs(), Vec::<String>::new());
    trie.set_end_node();
    assert_eq!(trie.dfs(), list(&[""]));
    let end: TrieNode<TRIE_ASCII_SIZE> = TrieNode::create_end_node();
    assert_eq!(end.dfs(), list(&[""]));
    assert_eq!(end.auto_complete(""), Some(list(&[""])));
}

#[test]
fn trie_lists_in_dictionary_order_each_key_once() {
    let mut trie: TrieNode<TRIE_ASCII_SIZE> = TrieNode::new();
    for key in ["pwd", "echo", "cd", "exit", "echo", "ec", "type", "e"] {
        trie.insert(key);
    }
    assert_eq!(trie.dfs(), list(&["cd", "e", "ec", "echo", "exit", "pwd", "type"]));
    assert_eq!(trie.auto_complete("e"), Some(list(&["e", "ec", "echo", "exit"])));
    assert_eq!(trie.auto_complete("ec"), Some(list(&["ec", "echo"])));
    assert_eq!(trie.auto_complete("echo"), Some(list(&["echo"])));
    assert_eq!(trie.auto_complete("echox"), None);
    assert_eq!(trie.auto_complete("x"), None);
    assert_eq!(trie.auto_complete("p"), Some(list(&["pwd"])));
}

#[test]
fn trie_prefix_of_a_key_is_a_path_without_being_a_key() {
    let mut trie: TrieNode<TRIE_ASCII_SIZE> = TrieNode::new();
    trie.insert("abc");
    assert_eq!(trie.auto_complete("ab"), Some(list(&["abc"])));
    assert_eq!(trie.auto_complete("abc"), Some(list(&["abc"])));
    assert_eq!(trie.auto_complete("b"), None);
}

#[test]
fn trie_stores_low_bytes() {
    let mut trie: TrieNode<TRIE_ASCII_SIZE> = TrieNode::new();
    trie.insert("é");
    assert_eq!(trie.dfs(), list(&["é"]));
    trie.insert("\u{20ac}");
    assert_eq!(trie.dfs(), list(&["\u{ac}", "é"]));
    assert_eq!(trie.auto_complete("\u{20ac}"), Some(list(&["\u{20ac}"])));
    assert_eq!(key_bytes("a\u{e9}\u{20ac}"), vec![0x61u8, 0xe9, 0xac]);
    assert_eq!(read_back(&vec![0x61u8, 0xe9, 0xac]), "a\u{e9}\u{ac}");
}

#[test]
fn completer_knows_the_builtins() {
    let completer = TrieCompleter::with_builtin_commands(&BUILTIN_COMMANDS);
    assert_eq!(completer.builtin_candidates("e"), Some(list(&["echo", "exit"])));
    assert_eq!(completer.builtin_candidates("his"), Some(list(&["history"])));
    assert_eq!(completer.builtin_candidates("x"), None);
    assert_eq!(
        completer.builtin_candidates(""),
        Some(list(&["cd", "echo", "exit", "history", "pwd", "type"]))
    );
}

#[test]
fn completer_filters_external_candidates() {
    let completer = TrieCompleter::with_builtin_commands(&BUILTIN_COMMANDS);
    let entries = vec![
        entry("ls", true),
        entry("lsblk", true),
        entry("lsof", false),
        entry("cat", true),
        entry("echo", true),
        entry("ls", true),
        entry("l", true),
    ];
    assert_eq!(
        completer.get_external_candidates("ls", &entries),
        Some(list(&["ls", "lsblk"]))
    );
    assert_eq!(
        completer.get_external_candidates("l", &entries),
        Some(list(&["l", "ls", "lsblk"]))
    );
    assert_eq!(completer.get_external_candidates("ec", &entries), None);
    assert_eq!(completer.get_external_candidates("lso", &entries), None);
    assert_eq!(
        completer.get_external_candidates("", &entries),
        Some(list(&["cat", "l", "ls", "lsblk"]))
    );
    assert_eq!(completer.get_external_candidates("x", &Vec::new()), None);
}

#[test]
fn complete_puts_builtins_first() {
    let completer = TrieCompleter::with_builtin_commands(&BUILTIN_COMMANDS);
    let (start, candidates) = completer.complete("e", 1, Some(list(&["env", "expr"])));
    assert_eq!(start, 0);
    assert_eq!(candidates, list(&["echo", "exit", "env", "expr"]));
}

#[test]
fn complete_adds_a_space_to_a_single_candidate() {
    let completer = TrieCompleter::with_builtin_commands(&BUILTIN_COMMANDS);
    let (start, candidates) = completer.complete("ech", 3, None);
    assert_eq!(start, 0);
    assert_eq!(candidates, list(&["echo "]));
    let (_, candidates) = completer.complete("ca", 2, Some(list(&["cat"])));
    assert_eq!(candidates, list(&["cat "]));
    let (_, candidates) = completer.complete("zz", 2, None);
    assert_eq!(candidates, Vec::<String>::new());
}

#[test]
fn complete_starts_at_the_last_word() {
    let completer = TrieCompleter::with_builtin_commands(&BUILTIN_COMMANDS);
    let (start, candidates) = completer.complete("ls ec", 5, None);
    assert_eq!(start, 3);
    assert_eq!(candidates, Vec::<String>::new());
}

#[test]
fn completion_error_has_its_message() {
    assert_eq!(CompletionError::PathNotSet.message(), "PATH env var not set");
}

#[test]
fn interpret_skips_blank_lines() {
    assert_eq!(interpret(""), Line::Skip);
    assert_eq!(interpret("   \t\n"), Line::Skip);
    assert_eq!(interpret("''"), Line::Skip);
}

#[test]
fn interpret_leaves_on_exit() {
    assert_eq!(interpret("exit"), Line::Exit);
    assert_eq!(interpret("  exit 3 \n"), Line::Exit);
    assert_eq!(interpret("'exit'"), Line::Exit);
}

#[test]
fn interpret_runs_everything_else() {
    assert_eq!(
        interpret("echo exit\t\n"),
        Line::Run(vec![
            Token::Command("echo".to_string()),
            Token::Arg("exit".to_string()),
        ])
    );
    assert_eq!(
        interpret("exits"),
        Line::Run(vec![Token::Command("exits".to_string())])
    );
    assert_eq!(
        interpret("echo hi\u{a0}"),
        Line::Run(vec![
            Token::Command("echo".to_string()),
            Token::Arg("hi".to_string()),
        ])
    );
}

#[test]
fn trie_clone_is_equal_and_independent() {
    let mut trie: TrieNode<TRIE_ASCII_SIZE> = TrieNode::new();
    trie.insert("echo");
    trie.insert("exit");
    let mut copy = trie.clone();
    assert_eq!(copy, trie);
    assert_eq!(copy.dfs(), trie.dfs());
    assert_eq!(trie.duplicate(), trie);
    copy.insert("cd");
    assert_ne!(copy, trie);
    assert_eq!(trie.dfs(), list(&["echo", "exit"]));
    assert_eq!(copy.dfs(), list(&["cd", "echo", "exit"]));
    assert!(copy < trie || trie < copy);
}
