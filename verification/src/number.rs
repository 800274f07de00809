//! Numbers as text: reading a count and writing one, in decimal.

use vstd::prelude::*;
use vstd::std_specs::iter::IteratorSpec;

verus! {

/// The character of a decimal digit.
pub open spec fn digit_char(d: int) -> char {
    ((48 + d) as u8) as char
}

/// Whether a character is a decimal digit.
pub open spec fn is_digit(c: char) -> bool {
    '0' <= c <= '9'
}

/// The value of a decimal digit.
pub open spec fn digit_value(c: char) -> int {
    c as int - 48
}

/// A number in decimal, without leading zeros.
pub open spec fn decimal_spec(n: nat) -> Seq<char>
    decreases n,
{
    if n < 10 {
        seq![digit_char(n as int)]
    } else {
        decimal_spec(n / 10).push(digit_char((n % 10) as int))
    }
}

/// Writes a number in decimal.
pub fn decimal(n: usize) -> (text: String)
    ensures
        text@ == decimal_spec(n as nat),
    decreases n,
{
    if n < 10 {
        let mut text = String::new();
        text.push((48u8 + n as u8) as char);
        assert(text@ =~= seq![digit_char(n as int)]);
        text
    } else {
        let mut text = decimal(n / 10);
        text.push((48u8 + (n % 10) as u8) as char);
        text
    }
}

/// Whether every character is a decimal digit.
pub open spec fn all_digits(s: Seq<char>) -> bool {
    forall|i: int| 0 <= i < s.len() ==> is_digit(#[trigger] s[i])
}

/// The number that a run of decimal digits stands for.
pub open spec fn digits_value(s: Seq<char>) -> nat
    decreases s.len(),
{
    if s.len() == 0 {
        0
    } else {
        (10 * digits_value(s.drop_last()) + digit_value(s.last())) as nat
    }
}

/// The digits of a count: the text itself, or what follows one plus sign.
pub open spec fn count_body(s: Seq<char>) -> Seq<char> {
    if s.len() > 0 && s[0] == '+' {
        s.drop_first()
    } else {
        s
    }
}

/// The count that a text stands for: one or more decimal digits, which one
/// plus sign may precede. No other text is a count.
pub open spec fn count_of(s: Seq<char>) -> Option<nat> {
    let body = count_body(s);
    if body.len() > 0 && all_digits(body) {
        Some(digits_value(body))
    } else {
        None
    }
}

/// More digits make no smaller number.
proof fn lemma_digits_grow(s: Seq<char>, k: int)
    requires
        all_digits(s),
        0 <= k <= s.len(),
    ensures
        digits_value(s.subrange(0, k)) <= digits_value(s),
    decreases s.len() - k,
{
    if k < s.len() {
        lemma_digits_grow(s, k + 1);
        let longer = s.subrange(0, k + 1);
        assert(longer.drop_last() =~= s.subrange(0, k));
        assert(is_digit(s[k]));
        assert(longer.last() == s[k]);
    } else {
        assert(s.subrange(0, k) =~= s);
    }
}

/// Reads a count. The count is given where it fits the machine's word; a
/// text that is no count, or a count too large, gives none.
pub fn parse_count(text: &str) -> (count: Option<usize>)
    ensures
        match count {
            Some(n) => count_of(text@) == Some(n as nat),
            None => count_of(text@) matches Some(n) ==> n > usize::MAX,
        },
{
    let mut chars = text.chars();
    let ghost mut i: int = 0;
    let mut value: usize = 0;
    let mut seen: usize = 0;
    let mut first = true;
    let ghost body = count_body(text@);
    let ghost mut skipped: int = 0;
    proof {
        broadcast use vstd::string::group_string_axioms;

        assert(text@.subrange(0, text@.len() as int) =~= text@);
        assert(body.subrange(0, 0) =~= Seq::<char>::empty());
    }
    loop
        invariant
            0 <= i <= text@.len(),
            chars.remaining() == text@.subrange(i, text@.len() as int),
            body == count_body(text@),
            first ==> i == 0 && skipped == 0 && seen == 0,
            !first ==> skipped == text@.len() - body.len(),
            0 <= skipped <= i,
            skipped <= 1,
            seen > 0 <==> i > skipped,
            seen <= 1,
            all_digits(body.subrange(0, i - skipped)),
            value == digits_value(body.subrange(0, i - skipped)),
            first ==> value == 0,
        ensures
            i == text@.len(),
            !first ==> skipped == text@.len() - body.len(),
            first ==> text@.len() == 0,
            seen > 0 <==> i > skipped,
            all_digits(body.subrange(0, i - skipped)),
            value == digits_value(body.subrange(0, i - skipped)),
            0 <= skipped <= i,
        decreases text@.len() - i,
    {
        broadcast use vstd::string::group_string_axioms;

        match chars.next() {
            None => {
                break;
            },
            Some(c) => {
                assert(c == text@[i]);
                let was_first = first;
                first = false;
                if was_first && c == '+' {
                    proof {
                        i = i + 1;
                        skipped = 1;
                        assert(chars.remaining() =~= text@.subrange(i, text@.len() as int));
                        assert(body.subrange(0, 0) =~= Seq::<char>::empty());
                    }
                } else {
                    assert(body[i - skipped] == c);
                    if !('0' <= c && c <= '9') {
                        proof {
                            assert(!is_digit(body[i - skipped]));
                        }
                        return None;
                    }
                    let d = (c as u32 - 48) as usize;
                    proof {
                        let longer = body.subrange(0, i - skipped + 1);
                        assert(longer.drop_last() =~= body.subrange(0, i - skipped));
                        assert(longer.last() == c);
                        assert(digits_value(longer) == 10 * value + d);
                        assert(all_digits(longer));
                        if all_digits(body) {
                            lemma_digits_grow(body, i - skipped + 1);
                        }
                    }
                    value = match value.checked_mul(10) {
                        Some(v) => match v.checked_add(d) {
                            Some(v) => v,
                            None => {
                                return None;
                            },
                        },
                        None => {
                            return None;
                        },
                    };
                    seen = 1;
                    proof {
                        i = i + 1;
                        assert(chars.remaining() =~= text@.subrange(i, text@.len() as int));
                    }
                }
            },
        }
    }
    proof {
        assert(body.subrange(0, body.len() as int) =~= body);
    }
    if seen > 0 {
        Some(value)
    } else {
        None
    }
}

} // verus!
