//! Small verified helpers on text.

use vstd::prelude::*;
use vstd::std_specs::iter::IteratorSpec;
use vstd::string::{StrSliceExecFns, StringExecFns};

verus! {

/// The view of an optional text.
pub open spec fn view_of_text(t: Option<String>) -> Option<Seq<char>> {
    match t {
        Some(t) => Some(t@),
        None => None,
    }
}

/// `String::push` appends the character to the end of the string.
pub assume_specification[ String::push ](s: &mut String, c: char)
    ensures
        final(s)@ == old(s)@.push(c),
;

/// Whether two strings hold the same characters.
pub fn same_text(a: &str, b: &str) -> (same: bool)
    ensures
        same == (a@ == b@),
{
    let mut x = a.chars();
    let mut y = b.chars();
    let ghost mut i: int = 0;
    proof {
        broadcast use vstd::string::group_string_axioms;

        assert(a@.subrange(0, a@.len() as int) =~= a@);
        assert(b@.subrange(0, b@.len() as int) =~= b@);
    }
    loop
        invariant
            0 <= i <= a@.len(),
            i <= b@.len(),
            x.remaining() == a@.subrange(i, a@.len() as int),
            y.remaining() == b@.subrange(i, b@.len() as int),
            a@.subrange(0, i) == b@.subrange(0, i),
        decreases a@.len() - i,
    {
        broadcast use vstd::string::group_string_axioms;

        let p = x.next();
        let q = y.next();
        match (p, q) {
            (None, None) => {
                assert(a@ =~= a@.subrange(0, i));
                assert(b@ =~= b@.subrange(0, i));
                return true;
            },
            (Some(c), Some(d)) => {
                assert(c == a@[i]);
                assert(d == b@[i]);
                if c != d {
                    return false;
                }
                proof {
                    assert(a@.subrange(0, i + 1) =~= a@.subrange(0, i).push(c));
                    assert(b@.subrange(0, i + 1) =~= b@.subrange(0, i).push(d));
                    i = i + 1;
                    assert(x.remaining() =~= a@.subrange(i, a@.len() as int));
                    assert(y.remaining() =~= b@.subrange(i, b@.len() as int));
                }
            },
            _ => {
                assert(a@.len() != b@.len());
                return false;
            },
        }
    }
}

/// Whether `text` begins with `prefix`.
pub fn starts_with(text: &str, prefix: &str) -> (yes: bool)
    ensures
        yes == prefix@.is_prefix_of(text@),
{
    let mut x = text.chars();
    let mut y = prefix.chars();
    let ghost mut i: int = 0;
    proof {
        broadcast use vstd::string::group_string_axioms;

        assert(text@.subrange(0, text@.len() as int) =~= text@);
        assert(prefix@.subrange(0, prefix@.len() as int) =~= prefix@);
        assert(text@.subrange(0, 0) =~= prefix@.subrange(0, 0));
    }
    loop
        invariant
            0 <= i <= text@.len(),
            i <= prefix@.len(),
            x.remaining() == text@.subrange(i, text@.len() as int),
            y.remaining() == prefix@.subrange(i, prefix@.len() as int),
            text@.subrange(0, i) == prefix@.subrange(0, i),
        decreases prefix@.len() - i,
    {
        broadcast use vstd::string::group_string_axioms;

        match y.next() {
            None => {
                assert(prefix@ =~= prefix@.subrange(0, i));
                return true;
            },
            Some(d) => {
                assert(d == prefix@[i]);
                match x.next() {
                    None => {
                        assert(prefix@.len() > text@.len());
                        return false;
                    },
                    Some(c) => {
                        assert(c == text@[i]);
                        if c != d {
                            proof {
                                if prefix@.is_prefix_of(text@) {
                                    assert(text@.subrange(0, prefix@.len() as int)[i] == prefix@[i]);
                                }
                            }
                            return false;
                        }
                        proof {
                            assert(text@.subrange(0, i + 1) =~= text@.subrange(0, i).push(c));
                            assert(prefix@.subrange(0, i + 1) =~= prefix@.subrange(0, i).push(d));
                            i = i + 1;
                            assert(x.remaining() =~= text@.subrange(i, text@.len() as int));
                            assert(y.remaining() =~= prefix@.subrange(i, prefix@.len() as int));
                        }
                    },
                }
            },
        }
    }
}

/// The parts with `sep` between each two of them.
pub open spec fn join_spec(parts: Seq<Seq<char>>, sep: Seq<char>) -> Seq<char>
    decreases parts.len(),
{
    if parts.len() == 0 {
        Seq::empty()
    } else if parts.len() == 1 {
        parts[0]
    } else {
        parts[0] + sep + join_spec(parts.drop_first(), sep)
    }
}

/// What is still to come of the joined parts once the first `i` are written.
spec fn join_rest(parts: Seq<Seq<char>>, sep: Seq<char>, i: int) -> Seq<char> {
    if i == 0 {
        join_spec(parts, sep)
    } else if i >= parts.len() {
        Seq::empty()
    } else {
        sep + join_spec(parts.skip(i), sep)
    }
}

/// Joins the parts, with `sep` between each two of them.
pub fn join(parts: &Vec<String>, sep: &str) -> (text: String)
    ensures
        text@ == join_spec(parts.deep_view(), sep@),
{
    let ghost all = parts.deep_view();
    let mut text = String::new();
    let mut i: usize = 0;
    assert(Seq::<char>::empty() + join_rest(all, sep@, 0) =~= join_spec(all, sep@));
    while i < parts.len()
        invariant
            i <= parts.len(),
            all == parts.deep_view(),
            text@ + join_rest(all, sep@, i as int) == join_spec(all, sep@),
        decreases parts.len() - i,
    {
        let ghost before = text@;
        if i > 0 {
            text.append(sep);
        }
        text.append(parts[i].as_str());
        proof {
            let here = all.skip(i as int);
            assert(here.len() == all.len() - i);
            assert(here[0] == all[i as int]);
            assert(all[i as int] == parts@[i as int]@);
            assert(here.drop_first() =~= all.skip(i + 1));
            if i == 0 {
                assert(here =~= all);
            }
            if here.len() == 1 {
                assert(join_rest(all, sep@, i + 1) =~= Seq::<char>::empty());
                assert(text@ + join_rest(all, sep@, i + 1) =~= before + join_rest(
                    all,
                    sep@,
                    i as int,
                ));
            } else {
                assert(join_spec(here, sep@) == here[0] + sep@ + join_spec(here.drop_first(), sep@));
                assert(text@ + join_rest(all, sep@, i + 1) =~= before + join_rest(
                    all,
                    sep@,
                    i as int,
                ));
            }
        }
        i = i + 1;
    }
    assert(text@ + Seq::<char>::empty() =~= text@);
    text
}

/// A line without the carriage return that may end it.
pub open spec fn without_cr(line: Seq<char>) -> Seq<char> {
    if line.len() > 0 && line.last() == '\r' {
        line.drop_last()
    } else {
        line
    }
}

/// The lines of a text, read on from position `i` with `line` as the line in
/// progress and `done` as the lines before it. A line ends at a line feed,
/// and a carriage return before the line feed is not part of it. What stands
/// behind the last line feed is a line if it is not empty, and is taken as it
/// is.
pub open spec fn lines_from(text: Seq<char>, i: int, line: Seq<char>, done: Seq<Seq<char>>) -> Seq<
    Seq<char>,
>
    decreases text.len() - i,
{
    if 0 <= i < text.len() {
        if text[i] == '\n' {
            lines_from(text, i + 1, Seq::empty(), done.push(without_cr(line)))
        } else {
            lines_from(text, i + 1, line.push(text[i]), done)
        }
    } else if line.len() > 0 {
        done.push(line)
    } else {
        done
    }
}

/// The lines of a text.
pub open spec fn lines_spec(text: Seq<char>) -> Seq<Seq<char>> {
    lines_from(text, 0, Seq::empty(), Seq::empty())
}

/// Splits a text into its lines.
pub fn lines(text: &str) -> (found: Vec<String>)
    ensures
        found.deep_view() == lines_spec(text@),
{
    let mut found: Vec<String> = Vec::new();
    let mut line = String::new();
    let mut chars = text.chars();
    let ghost mut i: int = 0;
    proof {
        broadcast use vstd::string::group_string_axioms;

        assert(found.deep_view() =~= Seq::<Seq<char>>::empty());
        assert(text@.subrange(0, text@.len() as int) =~= text@);
    }
    loop
        invariant
            0 <= i <= text@.len(),
            chars.remaining() == text@.subrange(i, text@.len() as int),
            lines_from(text@, i, line@, found.deep_view()) == lines_spec(text@),
        ensures
            i == text@.len(),
            lines_from(text@, i, line@, found.deep_view()) == lines_spec(text@),
        decreases text@.len() - i,
    {
        broadcast use vstd::string::group_string_axioms;

        match chars.next() {
            None => {
                break;
            },
            Some(c) => {
                assert(c == text@[i]);
                if c == '\n' {
                    let ghost before = found.deep_view();
                    let ghost whole = line@;
                    if ends_with_cr(line.as_str()) {
                        line = without_last(line.as_str());
                    }
                    found.push(line);
                    line = String::new();
                    assert(found.deep_view() =~= before.push(without_cr(whole)));
                } else {
                    line.push(c);
                }
                proof {
                    i = i + 1;
                    assert(chars.remaining() =~= text@.subrange(i, text@.len() as int));
                }
            },
        }
    }
    if !line.as_str().is_empty() {
        let ghost before = found.deep_view();
        let ghost last = line@;
        found.push(line);
        assert(found.deep_view() =~= before.push(last));
    }
    found
}

/// Whether a text ends in a carriage return.
fn ends_with_cr(text: &str) -> (yes: bool)
    ensures
        yes == (text@.len() > 0 && text@.last() == '\r'),
{
    let n = text.unicode_len();
    n > 0 && text.get_char(n - 1) == '\r'
}

/// A text without its last character.
fn without_last(text: &str) -> (rest: String)
    requires
        text@.len() > 0,
    ensures
        rest@ == text@.drop_last(),
{
    let n = text.unicode_len();
    text.substring_char(0, n - 1).to_owned()
}

/// Whether one of the texts is the given one.
pub fn contains_text(texts: &Vec<String>, wanted: &str) -> (yes: bool)
    ensures
        yes == texts.deep_view().contains(wanted@),
{
    let mut i: usize = 0;
    while i < texts.len()
        invariant
            i <= texts.len(),
            forall|k: int| 0 <= k < i ==> texts.deep_view()[k] != wanted@,
        decreases texts.len() - i,
    {
        assert(texts.deep_view()[i as int] == texts@[i as int]@);
        if same_text(texts[i].as_str(), wanted) {
            return true;
        }
        i = i + 1;
    }
    false
}

} // verus!
