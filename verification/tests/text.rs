use clawsh::number::{decimal, parse_count};
use clawsh::shell::redirect::{parse_redirection, terminate_line};
use clawsh::shell::{trim_end, Redirection, Stream, WriteMode};
use clawsh::text::{contains_text, join, lines, same_text, starts_with};
use clawsh::util::start_of_last_word;

fn list(words: &[&str]) -> Vec<String> {
    words.iter().map(|w| w.to_string()).collect()
}

#[test]
fn same_text_compares_characters() {
    assert!(same_text("", ""));
    assert!(same_text("abc", "abc"));
    assert!(same_text("ü€", "ü€"));
    assert!(!same_text("abc", "abd"));
    assert!(!same_text("abc", "ab"));
    assert!(!same_text("ab", "abc"));
    assert!(!same_text("", "a"));
}

#[test]
fn starts_with_agrees_with_std() {
    let texts = ["", "a", "ab", "history -a f", "history", "hé", "héllo"];
    for text in texts {
        for prefix in texts {
            assert_eq!(starts_with(text, prefix), text.starts_with(prefix));
        }
    }
}

#[test]
fn join_agrees_with_std() {
    let cases: Vec<Vec<&str>> = vec![vec![], vec!["a"], vec!["a", "b"], vec!["", "", "x", ""]];
    for case in cases {
        for sep in ["", " ", "\n", ", "] {
            assert_eq!(join(&list(&case), sep), case.join(sep));
        }
    }
}

#[test]
fn lines_agree_with_std() {
    let texts = [
        "",
        "\n",
        "a",
        "a\n",
        "a\nb",
        "a\n\nb\n",
        "a\r\nb\r\n",
        "a\r",
        "a\rb\n",
        "\r\n",
        "\r",
        "a\r\r\n",
        "x\n\r",
        "ls\nhistory -a f\n",
    ];
    for text in texts {
        let expected: Vec<String> = text.lines().map(|l| l.to_string()).collect();
        assert_eq!(lines(text), expected, "for {text:?}");
    }
}

#[test]
fn contains_text_finds_a_member() {
    let texts = list(&["a", "b", ""]);
    assert!(contains_text(&texts, "a"));
    assert!(contains_text(&texts, ""));
    assert!(!contains_text(&texts, "c"));
    assert!(!contains_text(&Vec::new(), ""));
}

#[test]
fn decimal_agrees_with_std() {
    for n in [0usize, 1, 9, 10, 11, 99, 100, 101, 12345, 1000000, usize::MAX] {
        assert_eq!(decimal(n), n.to_string());
    }
}

#[test]
fn parse_count_agrees_with_std() {
    let texts = [
        "", "0", "7", "007", "42", "+5", "+", "++5", "-5", "-", "5a", "a5", " 5", "5 ", "1_000",
        "18446744073709551615", "18446744073709551616", "99999999999999999999999", "٣", "-r",
    ];
    for text in texts {
        assert_eq!(parse_count(text), text.parse::<usize>().ok(), "for {text:?}");
    }
}

#[test]
fn parse_redirection_knows_six_operators() {
    let out = |mode| Some(Redirection { stream: Stream::Stdout, mode });
    let err = |mode| Some(Redirection { stream: Stream::Stderr, mode });
    assert_eq!(parse_redirection(">"), out(WriteMode::Truncate));
    assert_eq!(parse_redirection("1>"), out(WriteMode::Truncate));
    assert_eq!(parse_redirection(">>"), out(WriteMode::Append));
    assert_eq!(parse_redirection("1>>"), out(WriteMode::Append));
    assert_eq!(parse_redirection("2>"), err(WriteMode::Truncate));
    assert_eq!(parse_redirection("2>>"), err(WriteMode::Append));
    assert_eq!(parse_redirection("3>"), None);
    assert_eq!(parse_redirection("<"), None);
    assert_eq!(parse_redirection(""), None);
    assert_eq!(parse_redirection(">>>"), None);
}

#[test]
fn terminate_line_adds_one_line_feed() {
    assert_eq!(terminate_line("hi".to_string()), "hi\n");
    assert_eq!(terminate_line("hi\n".to_string()), "hi\n");
    assert_eq!(terminate_line("hi\n\n".to_string()), "hi\n\n");
    assert_eq!(terminate_line(String::new()), "\n");
    assert_eq!(terminate_line("é".to_string()), "é\n");
}

#[test]
fn start_of_last_word_finds_the_word() {
    assert_eq!(start_of_last_word("echo", 3), 0);
    assert_eq!(start_of_last_word("echo hi", 6), 5);
    assert_eq!(start_of_last_word("echo hi", 4), 0);
    assert_eq!(start_of_last_word("echo hi  ", 8), 5);
    assert_eq!(start_of_last_word("a b c", 4), 4);
    assert_eq!(start_of_last_word("a b c", 3), 2);
    assert_eq!(start_of_last_word(" x", 1), 1);
    assert_eq!(start_of_last_word(" ", 0), 1);
    assert_eq!(start_of_last_word("   ", 2), 1);
    assert_eq!(start_of_last_word("x", 0), 0);
}

#[test]
fn trim_end_agrees_with_std() {
    let texts = [
        "",
        " ",
        "a",
        "a ",
        " a",
        "a \t\n\r",
        "a\u{a0}\u{2003}\u{3000}",
        "a\u{85}\u{1680}\u{2028}\u{2029}\u{202f}\u{205f}",
        "a\u{b}\u{c}",
        "a\u{200b}",
        "a\u{feff} ",
        "  x  y  ",
        "é \u{2009}",
        "echo hi\n",
    ];
    for text in texts {
        assert_eq!(trim_end(text), text.trim_end(), "for {text:?}");
    }
}
