//! Finding the word that the cursor stands in.

use vstd::prelude::*;
use vstd::string::StringSliceAdditionalSpecFns;

verus! {

/// The code of the space character.
pub const SPACE: u8 = 32;

/// The position reached from `pos` by going back over spaces: the last
/// position up to `pos` that holds no space, or the start of the line.
pub open spec fn back_over_spaces(bytes: Seq<u8>, pos: int) -> int
    decreases pos,
{
    if pos > 0 && bytes[pos] == SPACE {
        back_over_spaces(bytes, pos - 1)
    } else {
        pos
    }
}

/// The position reached from `pos` by going back over a word: the last
/// position up to `pos` that holds a space, or the start of the line.
pub open spec fn back_over_word(bytes: Seq<u8>, pos: int) -> int
    decreases pos,
{
    if pos > 0 && bytes[pos] != SPACE {
        back_over_word(bytes, pos - 1)
    } else {
        pos
    }
}

/// Where the last word up to `pos` begins: spaces at `pos` are passed over
/// backwards, then the word before them; the word begins behind the space
/// that stands before it, or at the start of the line.
pub open spec fn word_start(bytes: Seq<u8>, pos: int) -> int {
    let p = back_over_word(bytes, back_over_spaces(bytes, pos));
    if bytes[p] == SPACE {
        p + 1
    } else {
        p
    }
}

/// The word starts at or before the position behind `pos`, a space or the
/// start of the line stands before it, and no space stands between its start
/// and the last position up to `pos` that holds none.
pub proof fn lemma_word_start(bytes: Seq<u8>, pos: int)
    requires
        0 <= pos < bytes.len(),
    ensures
        0 <= word_start(bytes, pos) <= pos + 1,
        word_start(bytes, pos) == 0 || bytes[word_start(bytes, pos) - 1] == SPACE,
        forall|k: int|
            word_start(bytes, pos) <= k <= back_over_spaces(bytes, pos) ==> bytes[k] != SPACE,
{
    let q = back_over_spaces(bytes, pos);
    lemma_back_over_spaces(bytes, pos);
    lemma_back_over_word(bytes, q);
}

proof fn lemma_back_over_spaces(bytes: Seq<u8>, pos: int)
    requires
        0 <= pos,
    ensures
        0 <= back_over_spaces(bytes, pos) <= pos,
        back_over_spaces(bytes, pos) == 0 || bytes[back_over_spaces(bytes, pos)] != SPACE,
    decreases pos,
{
    if pos > 0 && bytes[pos] == SPACE {
        lemma_back_over_spaces(bytes, pos - 1);
    }
}

proof fn lemma_back_over_word(bytes: Seq<u8>, pos: int)
    requires
        0 <= pos,
    ensures
        0 <= back_over_word(bytes, pos) <= pos,
        back_over_word(bytes, pos) == 0 || bytes[back_over_word(bytes, pos)] == SPACE,
        forall|k: int| back_over_word(bytes, pos) < k <= pos ==> bytes[k] != SPACE,
    decreases pos,
{
    if pos > 0 && bytes[pos] != SPACE {
        lemma_back_over_word(bytes, pos - 1);
    }
}

/// The byte position at which the last word up to `pos` begins.
///
/// `pos` must be a position of the line.
pub fn start_of_last_word(s: &str, pos: usize) -> (start: usize)
    requires
        pos < s.spec_bytes().len(),
    ensures
        start == word_start(s.spec_bytes(), pos as int),
{
    let bytes = s.as_bytes();
    let mut pos = pos;
    let ghost from = pos;
    while pos > 0 && bytes[pos] == SPACE
        invariant
            pos < bytes@.len(),
            back_over_spaces(bytes@, pos as int) == back_over_spaces(bytes@, from as int),
        decreases pos,
    {
        pos -= 1;
    }
    let ghost mid = pos;
    while pos > 0 && bytes[pos] != SPACE
        invariant
            pos < bytes@.len(),
            back_over_word(bytes@, pos as int) == back_over_word(bytes@, mid as int),
        decreases pos,
    {
        pos -= 1;
    }
    if bytes[pos] == SPACE {
        proof {
            lemma_back_over_spaces(bytes@, from as int);
        }
        pos + 1
    } else {
        pos
    }
}

} // verus!
