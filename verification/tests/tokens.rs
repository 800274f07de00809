use clawsh::parser::{split_words, tokenize_input, Token};

fn tokens(list: &[&str]) -> Option<Vec<Token>> {
    tokenize_input(list.iter().map(|w| w.to_string()).collect())
}

fn cmd(w: &str) -> Token {
    Token::Command(w.to_string())
}

fn arg(w: &str) -> Token {
    Token::Arg(w.to_string())
}

fn redirect(w: &str) -> Token {
    Token::Redirect(w.to_string())
}

#[test]
fn tokenize_pipeline() {
    assert_eq!(
        tokens(&["echo", "hi", "|", "cat"]),
        Some(vec![cmd("echo"), arg("hi"), Token::Pipe, cmd("cat")])
    );
}

#[test]
fn tokenize_nothing() {
    assert_eq!(tokens(&[]), None);
}

#[test]
fn tokenize_first_word_is_always_a_command() {
    assert_eq!(tokens(&["|"]), Some(vec![cmd("|")]));
    assert_eq!(tokens(&[">", "x"]), Some(vec![cmd(">"), arg("x")]));
}

#[test]
fn tokenize_all_redirection_operators() {
    for op in [">", "1>", "2>", ">>", "1>>", "2>>"] {
        assert_eq!(
            tokens(&["echo", op, "f"]),
            Some(vec![cmd("echo"), redirect(op), arg("f")])
        );
    }
}

#[test]
fn tokenize_other_operators_are_arguments() {
    assert_eq!(
        tokens(&["echo", "3>", "<", ">>>", "||"]),
        Some(vec![cmd("echo"), arg("3>"), arg("<"), arg(">>>"), arg("||")])
    );
}

#[test]
fn tokenize_command_after_pipe_only_once() {
    assert_eq!(
        tokens(&["a", "|", "b", "c", "|", "d", "e", "f"]),
        Some(vec![
            cmd("a"),
            Token::Pipe,
            cmd("b"),
            arg("c"),
            Token::Pipe,
            cmd("d"),
            arg("e"),
            arg("f"),
        ])
    );
}

#[test]
fn tokenize_command_only_directly_behind_a_pipe() {
    assert_eq!(
        tokens(&["a", "|", ">", "f"]),
        Some(vec![cmd("a"), Token::Pipe, redirect(">"), arg("f")])
    );
    assert_eq!(
        tokens(&["a", "|", ">", "b", "c"]),
        Some(vec![cmd("a"), Token::Pipe, redirect(">"), arg("b"), arg("c")])
    );
    assert_eq!(
        tokens(&["a", "|", "2>>", "|", "b"]),
        Some(vec![cmd("a"), Token::Pipe, redirect("2>>"), Token::Pipe, cmd("b")])
    );
}

#[test]
fn tokenize_redirect_without_target_is_accepted() {
    assert_eq!(tokens(&["echo", ">"]), Some(vec![cmd("echo"), redirect(">")]));
}

#[test]
fn tokenize_double_pipe() {
    assert_eq!(
        tokens(&["a", "|", "|", "b"]),
        Some(vec![cmd("a"), Token::Pipe, Token::Pipe, cmd("b")])
    );
}

#[test]
fn tokenize_quoted_operator_is_still_an_operator() {
    let words = split_words("echo '|' cat");
    assert_eq!(
        tokenize_input(words),
        Some(vec![cmd("echo"), Token::Pipe, cmd("cat")])
    );
}

#[test]
fn token_duplicate_is_equal() {
    for t in [cmd("a"), arg("b"), redirect(">"), Token::Pipe] {
        assert_eq!(t.duplicate(), t);
    }
}
