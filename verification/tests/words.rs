use clawsh::parser::split_words;

fn words(line: &str) -> Vec<String> {
    split_words(line)
}

fn expect(list: &[&str]) -> Vec<String> {
    list.iter().map(|w| w.to_string()).collect()
}

#[test]
fn split_single_quotes_keep_spaces() {
    assert_eq!(words("'a b' c"), expect(&["a b", "c"]));
}

#[test]
fn split_backslash_escapes_space() {
    assert_eq!(words("a\\ b c"), expect(&["a b", "c"]));
}

#[test]
fn split_escaped_quote_in_double_quotes() {
    assert_eq!(words("\"a\\\"b\""), expect(&["a\"b"]));
}

#[test]
fn split_empty_line_gives_no_words() {
    assert_eq!(words(""), Vec::<String>::new());
    assert_eq!(words("   "), Vec::<String>::new());
}

#[test]
fn split_ignores_leading_and_trailing_spaces() {
    assert_eq!(words("  echo   hi  "), expect(&["echo", "hi"]));
}

#[test]
fn split_backslash_is_literal_in_single_quotes() {
    assert_eq!(words("'a\\b'"), expect(&["a\\b"]));
    assert_eq!(words("'a\\'"), expect(&["a\\"]));
}

#[test]
fn split_backslash_in_double_quotes() {
    assert_eq!(words("\"a\\\\b\""), expect(&["a\\b"]));
    assert_eq!(words("\"a\\nb\""), expect(&["a\\nb"]));
    assert_eq!(words("\"a\\ b\""), expect(&["a\\ b"]));
    assert_eq!(words("\"a\\'b\""), expect(&["a\\'b"]));
}

#[test]
fn split_backslash_outside_quotes() {
    assert_eq!(words("a\\'b"), expect(&["a'b"]));
    assert_eq!(words("a\\\"b"), expect(&["a\"b"]));
    assert_eq!(words("a\\\\b"), expect(&["a\\b"]));
    assert_eq!(words("a\\nb"), expect(&["anb"]));
}

#[test]
fn split_backslash_at_end_is_dropped() {
    assert_eq!(words("abc\\"), expect(&["abc"]));
    assert_eq!(words("\"abc\\"), expect(&["abc"]));
    assert_eq!(words("\\"), Vec::<String>::new());
}

#[test]
fn split_unterminated_quote_flushes_word() {
    assert_eq!(words("'a b"), expect(&["a b"]));
    assert_eq!(words("echo \"hi there"), expect(&["echo", "hi there"]));
}

#[test]
fn split_quotes_inside_other_quotes_are_literal() {
    assert_eq!(words("\"it's\""), expect(&["it's"]));
    assert_eq!(words("'say \"hi\"'"), expect(&["say \"hi\""]));
}

#[test]
fn split_adjacent_quoted_parts_make_one_word() {
    assert_eq!(words("a'b c'\"d e\"f"), expect(&["ab cd ef"]));
}

#[test]
fn split_empty_quotes_make_no_word() {
    assert_eq!(words("''"), Vec::<String>::new());
    assert_eq!(words("a '' b"), expect(&["a", "b"]));
}

#[test]
fn split_only_space_separates() {
    assert_eq!(words("a\tb"), expect(&["a\tb"]));
}

#[test]
fn split_of_joined_plain_words_gives_them_back() {
    let lists: Vec<Vec<&str>> = vec![
        vec![],
        vec!["echo"],
        vec!["echo", "hi"],
        vec!["ls", "-la", "/tmp", "|", "cat", ">", "out.txt"],
        vec!["ünï", "cödé", "x"],
    ];
    for list in lists {
        let joined = list.join(" ");
        assert_eq!(words(&joined), expect(&list));
        let again = words(&joined).join(" ");
        assert_eq!(words(&again), expect(&list));
    }
}

#[test]
fn split_of_joined_fails_for_backslash() {
    assert_ne!(words("a\\b"), expect(&["a\\b"]));
}
