//! Completing a command name from its first letters.
//!
//! Candidates come from two prefix trees: one of the builtin names, kept by
//! the completer, and one built anew on each request from the executables
//! that the caller found on the search path.

pub mod error;

use vstd::prelude::*;
use vstd::string::StringSliceAdditionalSpecFns;
use crate::commands::builtin::{builtin_named, Builtin};
use crate::text::starts_with;
use crate::trie::{
    are_completions, key_of, names_hold, names_reach, rest_of, TrieNode, TRIE_ASCII_SIZE,
};
use crate::util::{start_of_last_word, word_start};

pub use error::CompletionError;

verus! {

/// A file of a directory of the search path: its name, and whether it can be
/// executed.
#[derive(Debug, Clone, PartialEq, Eq)]
pub struct PathEntry {
    pub name: String,
    pub executable: bool,
}

/// Whether a file is a candidate for a prefix: it can be executed, its name
/// begins with the prefix, and it is not hidden by a builtin of that name.
pub open spec fn is_candidate(entry: PathEntry, prefix: Seq<char>) -> bool {
    entry.executable && prefix.is_prefix_of(entry.name@) && builtin_named(entry.name@) is None
}

/// The names of the candidates among the files, in the order of the files.
pub open spec fn candidate_names(entries: Seq<PathEntry>, prefix: Seq<char>) -> Seq<Seq<char>>
    decreases entries.len(),
{
    if entries.len() == 0 {
        Seq::empty()
    } else {
        let before = candidate_names(entries.drop_last(), prefix);
        if is_candidate(entries.last(), prefix) {
            before.push(entries.last().name@)
        } else {
            before
        }
    }
}

/// The texts of a list of words.
pub open spec fn texts_of_words(words: Seq<&str>) -> Seq<Seq<char>> {
    Seq::new(words.len(), |i: int| words[i]@)
}

/// The completer of command names.
#[derive(Debug)]
pub struct TrieCompleter {
    builtin_trie: TrieNode<TRIE_ASCII_SIZE>,
}

impl TrieCompleter {
    /// The tree of the builtin names that the completer knows.
    pub closed spec fn tree(self) -> TrieNode<TRIE_ASCII_SIZE> {
        self.builtin_trie
    }

    /// A completer that knows the given names. Empty names are passed over.
    pub fn with_builtin_commands(builtin_words: &[&str]) -> (completer: Self)
        ensures
            completer.tree().stores(texts_of_words(builtin_words@)),
    {
        let mut builtin_trie: TrieNode<TRIE_ASCII_SIZE> = TrieNode::new();
        let ghost mut taken: Seq<Seq<char>> = Seq::empty();
        let mut n: usize = 0;
        while n < builtin_words.len()
            invariant
                n <= builtin_words.len(),
                builtin_trie.stores(taken),
                taken == texts_of_words(builtin_words@.take(n as int)),
            decreases builtin_words.len() - n,
        {
            let ghost before = builtin_trie;
            builtin_trie.insert(builtin_words[n]);
            proof {
                let name = builtin_words[n as int]@;
                TrieNode::lemma_stores_one_more(before, builtin_trie, taken, name);
                taken = taken.push(name);
                assert(taken =~= texts_of_words(builtin_words@.take(n + 1)));
            }
            n = n + 1;
        }
        assert(builtin_words@.take(n as int) =~= builtin_words@);
        Self { builtin_trie }
    }

    /// The builtin names that begin with the prefix, in the order of a
    /// dictionary; no answer where none does and the prefix is not empty.
    pub fn builtin_candidates(&self, prefix: &str) -> (found: Option<Vec<String>>)
        ensures
            found is Some <==> self.tree().reaches(key_of(prefix@)),
            found matches Some(texts) ==> are_completions(
                texts.deep_view(),
                prefix@,
                |key: Seq<u8>| self.tree().holds(key_of(prefix@) + key),
            ),
    {
        self.builtin_trie.auto_complete(prefix)
    }

    /// The candidates among the files of the search path, in the order of a
    /// dictionary; no answer where there is none and the prefix is not empty.
    pub fn get_external_candidates(&self, prefix: &str, entries: &Vec<PathEntry>) -> (found: Option<
        Vec<String>,
    >)
        ensures
            found is Some <==> names_reach(candidate_names(entries@, prefix@), key_of(prefix@)),
            found matches Some(texts) ==> are_completions(
                texts.deep_view(),
                prefix@,
                |key: Seq<u8>| names_hold(candidate_names(entries@, prefix@), key_of(prefix@) + key),
            ),
    {
        let mut external_trie: TrieNode<TRIE_ASCII_SIZE> = TrieNode::new();
        let ghost mut taken: Seq<Seq<char>> = Seq::empty();
        let mut n: usize = 0;
        while n < entries.len()
            invariant
                n <= entries.len(),
                external_trie.stores(taken),
                taken == candidate_names(entries@.take(n as int), prefix@),
            decreases entries.len() - n,
        {
            let entry = &entries[n];
            let name = entry.name.as_str();
            proof {
                assert(entries@.take(n + 1).drop_last() =~= entries@.take(n as int));
                assert(entries@.take(n + 1).last() == entries@[n as int]);
            }
            if entry.executable && starts_with(name, prefix) && Builtin::from_str(name).is_err() {
                let ghost before = external_trie;
                external_trie.insert(name);
                proof {
                    TrieNode::lemma_stores_one_more(before, external_trie, taken, name@);
                    taken = taken.push(name@);
                }
            }
            n = n + 1;
        }
        assert(entries@.take(n as int) =~= entries@);
        let found = external_trie.auto_complete(prefix);
        proof {
            if found is Some {
                let texts = found->0.deep_view();
                let rows = Seq::new(texts.len(), |i: int| key_of(rest_of(prefix@, texts[i])));
                assert forall|key: Seq<u8>| #[trigger]
                    rows.contains(key) <==> names_hold(taken, key_of(prefix@) + key) by {
                    assert(rows.contains(key) <==> external_trie.holds(key_of(prefix@) + key));
                }
            }
        }
        found
    }

    /// The answer to a request for completion: the byte position at which the
    /// word to complete begins, and the candidates, the builtin names before
    /// those of the search path. A single candidate gets a space behind it.
    ///
    /// `pos` is the byte position of the cursor, which must stand behind at
    /// least one byte of the line.
    pub fn complete(&self, line: &str, pos: usize, external: Option<Vec<String>>) -> (answer: (
        usize,
        Vec<String>,
    ))
        requires
            0 < pos <= line.spec_bytes().len(),
        ensures
            answer.0 == word_start(line.spec_bytes(), pos - 1),
            exists|builtin: Seq<Seq<char>>|
                {
                    &&& (self.tree().reaches(key_of(line@)) ==> are_completions(
                        builtin,
                        line@,
                        |key: Seq<u8>| self.tree().holds(key_of(line@) + key),
                    ))
                    &&& (!self.tree().reaches(key_of(line@)) ==> builtin.len() == 0)
                    &&& answer.1.deep_view() == spaced(builtin + texts_of(external))
                },
    {
        let mut candidates = match self.builtin_candidates(line) {
            Some(found) => found,
            None => Vec::new(),
        };
        let ghost builtin = candidates.deep_view();
        let mut external_candidates = match external {
            Some(found) => found,
            None => Vec::new(),
        };
        let ghost more = external_candidates.deep_view();
        assert(more =~= texts_of(external));
        candidates.append(&mut external_candidates);
        assert(candidates.deep_view() =~= builtin + more);
        let idx = start_of_last_word(line, pos - 1);
        if candidates.len() == 1 {
            let mut only = match candidates.pop() {
                Some(text) => text,
                None => String::new(),
            };
            only.push(' ');
            candidates.push(only);
            assert(candidates.deep_view() =~= spaced(builtin + more));
        }
        (idx, candidates)
    }
}

/// The candidates that the search path gave, or none.
pub open spec fn texts_of(found: Option<Vec<String>>) -> Seq<Seq<char>> {
    match found {
        Some(texts) => texts.deep_view(),
        None => Seq::empty(),
    }
}

/// The candidates as they are offered: a single one with a space behind it.
pub open spec fn spaced(candidates: Seq<Seq<char>>) -> Seq<Seq<char>> {
    if candidates.len() == 1 {
        seq![candidates[0].push(' ')]
    } else {
        candidates
    }
}

} // verus!
