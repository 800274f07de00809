//! The quote-aware word splitter.
//!
//! The splitter is a scanner with three modes: outside quotes, inside single
//! quotes and inside double quotes. Its meaning is given by [`split_spec`], a
//! fold of [`scan_step`] over the characters of the line.

use vstd::prelude::*;
use vstd::std_specs::iter::IteratorSpec;
use crate::text::join_spec;

verus! {

/// Which kind of quote the scanner is inside of.
#[derive(Clone, Copy, Debug, PartialEq, Eq, Structural)]
pub enum Quote {
    /// Outside any quote.
    Open,
    /// Between two single quotes.
    Single,
    /// Between two double quotes.
    Double,
}

/// What the scanner has gathered after reading a prefix of the line.
pub struct ScanState {
    /// The words that are complete.
    pub words: Seq<Seq<char>>,
    /// The characters of the word in progress.
    pub buf: Seq<char>,
    /// The quoting mode.
    pub quote: Quote,
}

/// The state before the first character.
pub open spec fn scan_start() -> ScanState {
    ScanState { words: Seq::empty(), buf: Seq::empty(), quote: Quote::Open }
}

/// The state with `c` added to the word in progress.
pub open spec fn keep(st: ScanState, c: char) -> ScanState {
    ScanState { buf: st.buf.push(c), ..st }
}

/// The state with the word in progress closed, if there is one.
pub open spec fn flush(st: ScanState) -> ScanState {
    if st.buf.len() == 0 {
        st
    } else {
        ScanState { words: st.words.push(st.buf), buf: Seq::empty(), ..st }
    }
}

/// The state in quoting mode `q`.
pub open spec fn enter(st: ScanState, q: Quote) -> ScanState {
    ScanState { quote: q, ..st }
}

/// How many characters the scanner consumes at position `i`: two where a
/// backslash takes the character behind it along, else one.
pub open spec fn scan_width(s: Seq<char>, i: int, q: Quote) -> int
    recommends
        0 <= i < s.len(),
{
    if s[i] == '\\' && i + 1 < s.len() && q != Quote::Single {
        2
    } else {
        1
    }
}

/// The state after the scanner has consumed what stands at position `i`.
///
/// - A space ends the word in progress outside quotes and is literal inside.
/// - A backslash outside quotes makes the next character literal and is
///   dropped; at the end of the line it is dropped alone.
/// - A backslash inside single quotes is literal.
/// - A backslash inside double quotes is dropped before `"` and `\`, which
///   become literal; before any other character it is kept, and so is that
///   character; at the end of the line it is dropped.
/// - A quote character opens or closes its mode, and is literal inside the
///   other kind of quote.
pub open spec fn scan_step(s: Seq<char>, i: int, st: ScanState) -> ScanState
    recommends
        0 <= i < s.len(),
{
    let c = s[i];
    match st.quote {
        Quote::Open => {
            if c == ' ' {
                flush(st)
            } else if c == '\\' {
                if i + 1 < s.len() {
                    keep(st, s[i + 1])
                } else {
                    st
                }
            } else if c == '\'' {
                enter(st, Quote::Single)
            } else if c == '"' {
                enter(st, Quote::Double)
            } else {
                keep(st, c)
            }
        },
        Quote::Single => {
            if c == '\'' {
                enter(st, Quote::Open)
            } else {
                keep(st, c)
            }
        },
        Quote::Double => {
            if c == '\\' {
                if i + 1 < s.len() {
                    if s[i + 1] == '"' || s[i + 1] == '\\' {
                        keep(st, s[i + 1])
                    } else {
                        keep(keep(st, c), s[i + 1])
                    }
                } else {
                    st
                }
            } else if c == '"' {
                enter(st, Quote::Open)
            } else {
                keep(st, c)
            }
        },
    }
}

/// The words that the scanner ends with when it goes on from position `i` in
/// state `st`. At the end of the line an open quote is no error: what has been
/// gathered of the last word is closed as it is.
pub open spec fn scan_from(s: Seq<char>, i: int, st: ScanState) -> Seq<Seq<char>>
    decreases s.len() - i,
{
    if 0 <= i < s.len() {
        scan_from(s, i + scan_width(s, i, st.quote), scan_step(s, i, st))
    } else {
        flush(st).words
    }
}

/// The words of a line.
pub open spec fn split_spec(s: Seq<char>) -> Seq<Seq<char>> {
    scan_from(s, 0, scan_start())
}

/// The words joined by single spaces.
pub open spec fn joined(words: Seq<Seq<char>>) -> Seq<char> {
    join_spec(words, seq![' '])
}

/// A character that the scanner takes literally in every mode: no space, no
/// quote character, no backslash.
pub open spec fn is_plain(c: char) -> bool {
    c != ' ' && c != '\'' && c != '"' && c != '\\'
}

/// A word that needs no quoting: not empty, and made of plain characters.
pub open spec fn is_plain_word(w: Seq<char>) -> bool {
    w.len() > 0 && forall|j: int| 0 <= j < w.len() ==> is_plain(#[trigger] w[j])
}

/// Outside quotes, a run of `k` plain characters is added to the word in
/// progress as it stands.
proof fn lemma_scan_plain_run(s: Seq<char>, i: int, k: int, st: ScanState)
    requires
        0 <= i,
        0 <= k,
        i + k <= s.len(),
        st.quote == Quote::Open,
        forall|j: int| i <= j < i + k ==> is_plain(#[trigger] s[j]),
    ensures
        scan_from(s, i, st) == scan_from(
            s,
            i + k,
            ScanState { buf: st.buf + s.subrange(i, i + k), ..st },
        ),
    decreases k,
{
    if k == 0 {
        assert(st.buf + s.subrange(i, i) =~= st.buf);
    } else {
        assert(is_plain(s[i]));
        let next = keep(st, s[i]);
        assert(scan_step(s, i, st) == next);
        lemma_scan_plain_run(s, i + 1, k - 1, next);
        assert(next.buf + s.subrange(i + 1, i + k) =~= st.buf + s.subrange(i, i + k));
    }
}

/// Scanning the joined form of plain words, from a state with no word in
/// progress, adds exactly these words.
proof fn lemma_scan_joined(s: Seq<char>, i: int, done: Seq<Seq<char>>, words: Seq<Seq<char>>)
    requires
        0 <= i <= s.len(),
        s.subrange(i, s.len() as int) == joined(words),
        forall|k: int| 0 <= k < words.len() ==> is_plain_word(#[trigger] words[k]),
    ensures
        scan_from(s, i, ScanState { words: done, buf: Seq::empty(), quote: Quote::Open }) == done
            + words,
    decreases words.len(),
{
    let st = ScanState { words: done, buf: Seq::empty(), quote: Quote::Open };
    let rest = s.subrange(i, s.len() as int);
    if words.len() == 0 {
        assert(rest.len() == 0);
        assert(done + words =~= done);
    } else {
        let w = words[0];
        let n = w.len() as int;
        assert(is_plain_word(w));
        if words.len() == 1 {
            assert(rest == w);
        } else {
            assert(rest == w + seq![' '] + joined(words.drop_first()));
        }
        assert(rest.len() >= n);
        assert forall|j: int| i <= j < i + n implies is_plain(#[trigger] s[j]) by {
            assert(s[j] == rest[j - i]);
            assert(rest[j - i] == w[j - i]);
        }
        lemma_scan_plain_run(s, i, n, st);
        assert(s.subrange(i, i + n) =~= w);
        assert(Seq::<char>::empty() + w =~= w);
        let full = ScanState { words: done, buf: w, quote: Quote::Open };
        assert(scan_from(s, i, st) == scan_from(s, i + n, full));
        if words.len() == 1 {
            assert(i + n == s.len());
            assert(done + words =~= done.push(w));
        } else {
            let tail = words.drop_first();
            assert(rest[n] == ' ');
            assert(s[i + n] == rest[n]);
            let after = ScanState { words: done.push(w), buf: Seq::empty(), quote: Quote::Open };
            assert(scan_step(s, i + n, full) == after);
            let jt = joined(tail);
            assert(rest.len() == n + 1 + jt.len());
            assert(rest.subrange(n + 1, rest.len() as int) =~= jt) by {
                assert forall|j: int| 0 <= j < jt.len() implies rest[n + 1 + j] == jt[j] by {
                    assert((w + seq![' '] + jt)[n + 1 + j] == jt[j]);
                }
            }
            assert(s.subrange(i + n + 1, s.len() as int) =~= rest.subrange(
                n + 1,
                rest.len() as int,
            ));
            assert forall|k: int| 0 <= k < tail.len() implies is_plain_word(#[trigger] tail[k]) by {
                assert(tail[k] == words[k + 1]);
            }
            lemma_scan_joined(s, i + n + 1, done.push(w), tail);
            assert(done.push(w) + tail =~= done + words);
        }
    }
}

/// Splitting is the inverse of joining on words that need no quoting: where
/// every word is non-empty and holds no space, no quote character and no
/// backslash, the words joined by single spaces split into the same words.
pub proof fn lemma_split_joined(words: Seq<Seq<char>>)
    requires
        forall|k: int| 0 <= k < words.len() ==> is_plain_word(#[trigger] words[k]),
    ensures
        split_spec(joined(words)) == words,
{
    let s = joined(words);
    assert(s.subrange(0, s.len() as int) =~= s);
    lemma_scan_joined(s, 0, Seq::empty(), words);
    assert(Seq::<Seq<char>>::empty() + words =~= words);
}

/// Whether no word of a list is empty.
pub open spec fn no_empty_word(words: Seq<Seq<char>>) -> bool {
    forall|k: int| 0 <= k < words.len() ==> (#[trigger] words[k]).len() > 0
}

/// Where the scanner has closed only words that are not empty, it ends with
/// such words only.
proof fn lemma_scan_keeps_words_full(s: Seq<char>, i: int, st: ScanState)
    requires
        0 <= i,
        no_empty_word(st.words),
    ensures
        no_empty_word(scan_from(s, i, st)),
    decreases s.len() - i,
{
    if 0 <= i < s.len() {
        lemma_scan_keeps_words_full(s, i + scan_width(s, i, st.quote), scan_step(s, i, st));
    }
}

/// No word of a line is empty: white space at the start and at the end of a
/// line, runs of spaces and empty quotes make no word.
pub proof fn lemma_split_words_are_not_empty(s: Seq<char>)
    ensures
        no_empty_word(split_spec(s)),
{
    lemma_scan_keeps_words_full(s, 0, scan_start());
}

/// Splits a line into words, resolving quotes and backslashes.
///
/// Never fails: an empty or blank line gives no words.
pub fn split_words(input: &str) -> (words: Vec<String>)
    ensures
        words.deep_view() == split_spec(input@),
{
    let mut words: Vec<String> = Vec::new();
    let mut buf = String::new();
    let mut quote = Quote::Open;
    let mut chars = input.chars();
    let ghost mut i: int = 0;
    proof {
        broadcast use vstd::string::group_string_axioms;

        assert(words.deep_view() =~= Seq::<Seq<char>>::empty());
        assert(input@.subrange(0, input@.len() as int) =~= input@);
    }
    loop
        invariant
            0 <= i <= input@.len(),
            chars.remaining() == input@.subrange(i, input@.len() as int),
            scan_from(input@, i, ScanState { words: words.deep_view(), buf: buf@, quote })
                == split_spec(input@),
        ensures
            i == input@.len(),
        decreases input@.len() - i,
    {
        broadcast use vstd::string::group_string_axioms;

        let ghost st = ScanState { words: words.deep_view(), buf: buf@, quote };
        let ghost at = i;
        match chars.next() {
            None => {
                break;
            },
            Some(c) => {
                assert(c == input@[at]);
                assert(chars.remaining() == input@.subrange(at + 1, input@.len() as int));
                match quote {
                    Quote::Open => {
                        if c == ' ' {
                            if !buf.as_str().is_empty() {
                                let ghost before = words.deep_view();
                                words.push(buf);
                                buf = String::new();
                                assert(words.deep_view() =~= before.push(st.buf));
                            }
                        } else if c == '\\' {
                            match chars.next() {
                                Some(d) => {
                                    buf.push(d);
                                    proof {
                                        i = i + 1;
                                    }
                                },
                                None => {},
                            }
                        } else if c == '\'' {
                            quote = Quote::Single;
                        } else if c == '"' {
                            quote = Quote::Double;
                        } else {
                            buf.push(c);
                        }
                    },
                    Quote::Single => {
                        if c == '\'' {
                            quote = Quote::Open;
                        } else {
                            buf.push(c);
                        }
                    },
                    Quote::Double => {
                        if c == '\\' {
                            match chars.next() {
                                Some(d) => {
                                    if !(d == '"' || d == '\\') {
                                        buf.push(c);
                                    }
                                    buf.push(d);
                                    proof {
                                        i = i + 1;
                                    }
                                },
                                None => {},
                            }
                        } else if c == '"' {
                            quote = Quote::Open;
                        } else {
                            buf.push(c);
                        }
                    },
                }
                proof {
                    i = i + 1;
                    assert(i == at + scan_width(input@, at, st.quote));
                    assert(chars.remaining() =~= input@.subrange(i, input@.len() as int));
                    let next = ScanState { words: words.deep_view(), buf: buf@, quote };
                    assert(next.words =~= scan_step(input@, at, st).words);
                    assert(next.buf =~= scan_step(input@, at, st).buf);
                    assert(next == scan_step(input@, at, st));
                }
            },
        }
    }
    if !buf.as_str().is_empty() {
        let ghost before = words.deep_view();
        let ghost last = buf@;
        words.push(buf);
        assert(words.deep_view() =~= before.push(last));
    }
    words
}

} // verus!
