//! A prefix tree over bytes, for completing command names.
//!
//! A key is stored under the low bytes of its characters. Each node has one
//! slot per byte value below `N`, and a mark that says whether a key ends at
//! it. What a tree stores is told by [`TrieNode::holds`], and which paths
//! exist in it by [`TrieNode::reaches`].

use vstd::prelude::*;
use vstd::std_specs::iter::IteratorSpec;
use vstd::string::StringExecFns;

verus! {

/// The number of slots of a node that takes every byte.
pub const TRIE_ASCII_SIZE: usize = 256;

/// The byte under which a character is stored: the low eight bits of its
/// code.
pub open spec fn low_byte(c: char) -> u8 {
    c as u8
}

/// The key under which a text is stored.
pub open spec fn key_of(text: Seq<char>) -> Seq<u8> {
    Seq::new(text.len(), |i: int| low_byte(text[i]))
}

/// The text that a key is read back as: each byte as the character of that
/// code.
pub open spec fn text_of(key: Seq<u8>) -> Seq<char> {
    Seq::new(key.len(), |i: int| key[i] as char)
}

/// Whether `a` comes before `b` in the order of a dictionary: at the first
/// place where they differ `a` has the smaller byte, or `a` ends there and
/// `b` goes on.
pub open spec fn lex_less(a: Seq<u8>, b: Seq<u8>) -> bool
    decreases a.len(),
{
    if b.len() == 0 {
        false
    } else if a.len() == 0 {
        true
    } else {
        a[0] < b[0] || (a[0] == b[0] && lex_less(a.drop_first(), b.drop_first()))
    }
}

/// Whether the keys stand in the order of a dictionary, none twice.
pub open spec fn is_sorted(keys: Seq<Seq<u8>>) -> bool {
    forall|i: int, j: int| 0 <= i < j < keys.len() ==> lex_less(#[trigger] keys[i], #[trigger] keys[j])
}

/// Two keys with the same first byte and the same rest are the same key.
proof fn lemma_same_key(a: Seq<u8>, b: Seq<u8>)
    requires
        a.len() > 0,
        b.len() > 0,
        a[0] == b[0],
        a.drop_first() == b.drop_first(),
    ensures
        a == b,
{
    assert(a.len() == b.len()) by {
        assert(a.drop_first().len() == a.len() - 1);
        assert(b.drop_first().len() == b.len() - 1);
    }
    assert forall|j: int| 0 <= j < a.len() implies a[j] == b[j] by {
        if j > 0 {
            assert(a[j] == a.drop_first()[j - 1]);
            assert(b[j] == b.drop_first()[j - 1]);
        }
    }
    assert(a =~= b);
}

/// Behind an equal first byte, a path is a prefix of a key exactly if its
/// rest is a prefix of the rest of the key.
proof fn lemma_prefix_step(p: Seq<u8>, k: Seq<u8>)
    requires
        p.len() > 0,
        k.len() > 0,
        p[0] == k[0],
    ensures
        p.is_prefix_of(k) <==> p.drop_first().is_prefix_of(k.drop_first()),
{
    let t = p.drop_first();
    let r = k.drop_first();
    if p.is_prefix_of(k) {
        assert(t =~= r.subrange(0, t.len() as int)) by {
            assert forall|j: int| 0 <= j < t.len() implies t[j] == r[j] by {
                assert(p[j + 1] == k.subrange(0, p.len() as int)[j + 1]);
            }
        }
    }
    if t.is_prefix_of(r) {
        assert(p =~= k.subrange(0, p.len() as int)) by {
            assert forall|j: int| 0 <= j < p.len() implies p[j] == k[j] by {
                if j > 0 {
                    assert(t[j - 1] == r.subrange(0, t.len() as int)[j - 1]);
                }
            }
        }
    }
}

/// What stands behind the first `stem.len()` characters of a text.
pub open spec fn rest_of(stem: Seq<char>, text: Seq<char>) -> Seq<char> {
    text.subrange(stem.len() as int, text.len() as int)
}

/// The keys that a list of byte vectors holds.
pub open spec fn rows_of(rows: Seq<Vec<u8>>) -> Seq<Seq<u8>> {
    Seq::new(rows.len(), |i: int| rows[i]@)
}

/// The keys of a list of texts.
pub open spec fn keys_of(texts: Seq<Seq<char>>) -> Seq<Seq<u8>> {
    Seq::new(texts.len(), |i: int| key_of(texts[i]))
}

/// Whether `rows` lists the keys that `stored` tells of: each of them once,
/// in the order of a dictionary, and no other.
pub open spec fn is_listing(rows: Seq<Seq<u8>>, stored: spec_fn(Seq<u8>) -> bool) -> bool {
    &&& is_sorted(rows)
    &&& forall|key: Seq<u8>| #[trigger] rows.contains(key) <==> stored(key)
}

/// Whether `texts` are the completions of `prefix` among the keys that
/// `stored` tells of by what follows the prefix: each text is the prefix and
/// such a rest read back byte by byte, every such rest occurs once, and the
/// texts stand in the order of a dictionary.
pub open spec fn are_completions(
    texts: Seq<Seq<char>>,
    prefix: Seq<char>,
    stored: spec_fn(Seq<u8>) -> bool,
) -> bool {
    &&& forall|i: int|
        0 <= i < texts.len() ==> (#[trigger] texts[i]) == prefix + text_of(
            key_of(rest_of(prefix, texts[i])),
        )
    &&& is_listing(Seq::new(texts.len(), |i: int| key_of(rest_of(prefix, texts[i]))), stored)
}

/// Whether one of the names is not empty and has this key.
pub open spec fn names_hold(names: Seq<Seq<char>>, key: Seq<u8>) -> bool {
    exists|i: int| 0 <= i < names.len() && (#[trigger] names[i]).len() > 0 && key == key_of(names[i])
}

/// Whether the key of one of the names begins with this path, or the path is
/// empty.
pub open spec fn names_reach(names: Seq<Seq<char>>, path: Seq<u8>) -> bool {
    path.len() == 0 || exists|i: int|
        0 <= i < names.len() && path.is_prefix_of(key_of(#[trigger] names[i]))
}

/// A byte read as a character is stored under that byte.
pub proof fn lemma_byte_round_trip(b: u8)
    ensures
        low_byte(b as char) == b,
{
    let c = b as char;
    assert(c as u32 == b as u32);
    assert((b as u32) as u8 == b) by (bit_vector);
}

/// The text that a key is read back as is stored under that key.
pub proof fn lemma_key_round_trip(key: Seq<u8>)
    ensures
        key_of(text_of(key)) == key,
{
    assert forall|i: int| 0 <= i < key.len() implies key_of(text_of(key))[i] == key[i] by {
        lemma_byte_round_trip(key[i]);
    }
    assert(key_of(text_of(key)) =~= key);
}

/// A node of the tree, and with it the tree below it.
#[derive(Debug, PartialEq, Eq, PartialOrd, Ord)]
pub struct TrieNode<const N: usize> {
    end: bool,
    children: Vec<Option<Box<TrieNode<N>>>>,
}

impl<const N: usize> TrieNode<N> {
    #[verifier::type_invariant]
    spec fn has_all_slots(self) -> bool {
        &&& self.children@.len() == N
        &&& forall|i: int| 256 <= i < self.children@.len() ==> (#[trigger] self.children@[i]) is None
    }

    /// Whether a key ends at the node that `key` leads to from here.
    pub closed spec fn holds(self, key: Seq<u8>) -> bool
        decreases key.len(),
    {
        if key.len() == 0 {
            self.end
        } else {
            let i = key[0] as int;
            i < self.children@.len() && self.children@[i] is Some && self.children@[i]->0.holds(
                key.drop_first(),
            )
        }
    }

    /// Whether `path` leads to a node from here.
    pub closed spec fn reaches(self, path: Seq<u8>) -> bool
        decreases path.len(),
    {
        if path.len() == 0 {
            true
        } else {
            let i = path[0] as int;
            i < self.children@.len() && self.children@[i] is Some && self.children@[i]->0.reaches(
                path.drop_first(),
            )
        }
    }

    /// Whether the tree is the tree of these names: it stores the keys of
    /// those that are not empty, and its paths are the starts of their keys.
    pub open spec fn stores(self, names: Seq<Seq<char>>) -> bool {
        &&& forall|key: Seq<u8>| #[trigger] self.holds(key) <==> names_hold(names, key)
        &&& forall|path: Seq<u8>| #[trigger] self.reaches(path) <==> names_reach(names, path)
    }

    /// A tree of some names into which one more name was put is the tree of
    /// the names and that name.
    pub proof fn lemma_stores_one_more(
        before: Self,
        after: Self,
        names: Seq<Seq<char>>,
        name: Seq<char>,
    )
        requires
            before.stores(names),
            forall|key: Seq<u8>|
                #![trigger after.holds(key)]
                after.holds(key) <==> before.holds(key) || (name.len() > 0 && key == key_of(name)),
            forall|path: Seq<u8>|
                #![trigger after.reaches(path)]
                after.reaches(path) <==> before.reaches(path) || path.is_prefix_of(key_of(name)),
        ensures
            after.stores(names.push(name)),
    {
        let more = names.push(name);
        assert(more[names.len() as int] == name);
        assert forall|key: Seq<u8>| #[trigger] after.holds(key) <==> names_hold(more, key) by {
            if names_hold(names, key) {
                let i = choose|i: int|
                    0 <= i < names.len() && (#[trigger] names[i]).len() > 0 && key == key_of(
                        names[i],
                    );
                assert(more[i] == names[i]);
            }
            if names_hold(more, key) {
                let i = choose|i: int|
                    0 <= i < more.len() && (#[trigger] more[i]).len() > 0 && key == key_of(more[i]);
                if i < names.len() {
                    assert(more[i] == names[i]);
                }
            }
        }
        assert forall|path: Seq<u8>| #[trigger] after.reaches(path) <==> names_reach(more, path) by {
            if path.len() > 0 && names_reach(names, path) {
                let i = choose|i: int|
                    0 <= i < names.len() && path.is_prefix_of(key_of(#[trigger] names[i]));
                assert(more[i] == names[i]);
            }
            if path.len() > 0 && names_reach(more, path) {
                let i = choose|i: int|
                    0 <= i < more.len() && path.is_prefix_of(key_of(#[trigger] more[i]));
                if i < names.len() {
                    assert(more[i] == names[i]);
                }
            }
        }
    }

    /// Whether the tree has no node but this one.
    pub open spec fn is_bare(self) -> bool {
        &&& forall|key: Seq<u8>| key.len() > 0 ==> !#[trigger] self.holds(key)
        &&& forall|path: Seq<u8>| #[trigger] self.reaches(path) <==> path.len() == 0
    }

    fn with_mark(end: bool) -> (node: Self)
        ensures
            node.is_bare(),
            forall|key: Seq<u8>| key.len() == 0 ==> #[trigger] node.holds(key) == end,
    {
        let mut children: Vec<Option<Box<TrieNode<N>>>> = Vec::new();
        let mut i: usize = 0;
        while i < N
            invariant
                i <= N,
                children@.len() == i,
                forall|j: int| 0 <= j < i ==> children@[j] is None,
            decreases N - i,
        {
            children.push(None);
            i = i + 1;
        }
        TrieNode { end, children }
    }

    /// A tree that stores nothing.
    pub fn new() -> (node: Self)
        ensures
            node.is_bare(),
            forall|key: Seq<u8>| !#[trigger] node.holds(key),
            node.stores(Seq::empty()),
    {
        Self::with_mark(false)
    }

    /// A tree that stores the empty key and nothing else.
    pub fn create_end_node() -> (node: Self)
        ensures
            node.is_bare(),
            forall|key: Seq<u8>| #[trigger] node.holds(key) <==> key.len() == 0,
    {
        Self::with_mark(true)
    }

    /// Stores the empty key.
    pub fn set_end_node(&mut self)
        ensures
            forall|key: Seq<u8>|
                #![trigger final(self).holds(key)]
                final(self).holds(key) <==> old(self).holds(key) || key.len() == 0,
            forall|path: Seq<u8>|
                #![trigger final(self).reaches(path)]
                final(self).reaches(path) <==> old(self).reaches(path),
    {
        proof {
            use_type_invariant(&*self);
        }
        self.end = true;
    }

    /// A copy of the tree: it stores the same keys and has the same paths.
    pub fn duplicate(&self) -> (copy: Self)
        ensures
            forall|key: Seq<u8>| #[trigger] copy.holds(key) == self.holds(key),
            forall|path: Seq<u8>| #[trigger] copy.reaches(path) == self.reaches(path),
        decreases self,
    {
        proof {
            use_type_invariant(self);
        }
        let mut children: Vec<Option<Box<TrieNode<N>>>> = Vec::new();
        let mut i: usize = 0;
        while i < N
            invariant
                i <= N,
                self.children@.len() == N,
                children@.len() == i,
                forall|j: int| 256 <= j < self.children@.len() ==> (#[trigger] self.children@[j]) is None,
                forall|j: int|
                    0 <= j < i ==> ((#[trigger] children@[j]) is Some <==> self.children@[j] is Some),
                forall|j: int, key: Seq<u8>|
                    0 <= j < i && children@[j] is Some ==> #[trigger] children@[j]->0.holds(key)
                        == self.children@[j]->0.holds(key),
                forall|j: int, path: Seq<u8>|
                    0 <= j < i && children@[j] is Some ==> #[trigger] children@[j]->0.reaches(path)
                        == self.children@[j]->0.reaches(path),
            decreases N - i,
        {
            let slot = match &self.children[i] {
                Some(child) => Some(Box::new(child.duplicate())),
                None => None,
            };
            children.push(slot);
            i = i + 1;
        }
        let ghost slots = children@;
        let copy = TrieNode { end: self.end, children };
        proof {
            assert(copy.children@ == slots);
            assert forall|key: Seq<u8>| #[trigger] copy.holds(key) == self.holds(key) by {
                if key.len() > 0 {
                    let j = key[0] as int;
                    if j < N {
                        assert(slots[j] is Some <==> self.children@[j] is Some);
                        if slots[j] is Some {
                            assert(slots[j]->0.holds(key.drop_first()) == self.children@[j]->0.holds(
                                key.drop_first(),
                            ));
                        }
                    }
                }
            }
            assert forall|path: Seq<u8>| #[trigger] copy.reaches(path) == self.reaches(path) by {
                if path.len() > 0 {
                    let j = path[0] as int;
                    if j < N {
                        assert(slots[j] is Some <==> self.children@[j] is Some);
                        if slots[j] is Some {
                            assert(slots[j]->0.reaches(path.drop_first())
                                == self.children@[j]->0.reaches(path.drop_first()));
                        }
                    }
                }
            }
        }
        copy
    }

    /// Stores the bytes of `key` from position `pos` on, which are at least
    /// one.
    fn insert_from(&mut self, key: &Vec<u8>, pos: usize)
        requires
            pos < key.len(),
            forall|j: int| 0 <= j < key.len() ==> (#[trigger] key[j]) < N,
        ensures
            forall|k: Seq<u8>|
                #![trigger final(self).holds(k)]
                final(self).holds(k) <==> old(self).holds(k) || k == key@.subrange(
                    pos as int,
                    key.len() as int,
                ),
            forall|p: Seq<u8>|
                #![trigger final(self).reaches(p)]
                final(self).reaches(p) <==> old(self).reaches(p) || p.is_prefix_of(
                    key@.subrange(pos as int, key.len() as int),
                ),
        decreases key.len() - pos,
    {
        proof {
            use_type_invariant(&*self);
        }
        let ghost rest = key@.subrange(pos as int, key.len() as int);
        let ghost below = key@.subrange(pos + 1, key.len() as int);
        let i = key[pos] as usize;
        let ghost before = *self;
        let taken = self.children[i].take();
        let ghost was = taken;
        let mut child = match taken {
            Some(c) => c,
            None => Box::new(Self::new()),
        };
        let ghost fresh = *child;
        if pos + 1 == key.len() {
            child.set_end_node();
        } else {
            child.insert_from(key, pos + 1);
        }
        let ghost grown = *child;
        self.children[i] = Some(child);
        proof {
            assert(rest.len() > 0 && rest[0] == key[pos as int]);
            assert(rest.drop_first() =~= below);
            assert forall|t: Seq<u8>| #![trigger grown.holds(t)]
                grown.holds(t) <==> fresh.holds(t) || t == below by {
                if pos + 1 == key.len() {
                    assert(t.len() == 0 <==> t =~= below);
                }
            }
            assert forall|t: Seq<u8>| #![trigger grown.reaches(t)]
                grown.reaches(t) <==> fresh.reaches(t) || t.is_prefix_of(below) by {
                if pos + 1 == key.len() {
                    assert(t.is_prefix_of(below) ==> t.len() == 0);
                }
            }
            assert forall|k: Seq<u8>| #![trigger self.holds(k)]
                self.holds(k) <==> before.holds(k) || k == rest by {
                if k.len() > 0 && k[0] == i {
                    let t = k.drop_first();
                    assert(self.holds(k) == grown.holds(t));
                    assert(before.holds(k) == (was is Some && fresh.holds(t)));
                    if was is None {
                        assert(!fresh.holds(t)) by {
                            if t.len() == 0 {
                            }
                        }
                    }
                    if t == below {
                        lemma_same_key(k, rest);
                    }
                } else if k.len() > 0 {
                    assert(k[0] != rest[0]);
                }
            }
            assert forall|p: Seq<u8>| #![trigger self.reaches(p)]
                self.reaches(p) <==> before.reaches(p) || p.is_prefix_of(rest) by {
                if p.len() > 0 && p[0] == i {
                    let t = p.drop_first();
                    assert(self.reaches(p) == grown.reaches(t));
                    assert(before.reaches(p) == (was is Some && fresh.reaches(t)));
                    lemma_prefix_step(p, rest);
                } else if p.len() > 0 {
                    assert(p[0] != rest[0]);
                    if p.is_prefix_of(rest) {
                        assert(p[0] == rest.subrange(0, p.len() as int)[0]);
                    }
                } else {
                    assert(p =~= rest.subrange(0, 0));
                }
            }
            assert(before == *old(self));
            assert(rest == key@.subrange(pos as int, key.len() as int));
        }
    }

    /// Stores a key under the low bytes of its characters. The empty key is
    /// not stored.
    ///
    /// Every byte of the key must have a slot.
    pub fn insert(&mut self, key: &str)
        requires
            forall|j: int| 0 <= j < key@.len() ==> low_byte(#[trigger] key@[j]) < N,
        ensures
            forall|k: Seq<u8>|
                #![trigger final(self).holds(k)]
                final(self).holds(k) <==> old(self).holds(k) || (key@.len() > 0 && k == key_of(
                    key@,
                )),
            forall|p: Seq<u8>|
                #![trigger final(self).reaches(p)]
                final(self).reaches(p) <==> old(self).reaches(p) || p.is_prefix_of(key_of(key@)),
    {
        let bytes = key_bytes(key);
        if bytes.len() > 0 {
            assert(bytes@.subrange(0, bytes.len() as int) =~= bytes@);
            self.insert_from(&bytes, 0);
        } else {
            assert forall|p: Seq<u8>| p.is_prefix_of(key_of(key@)) implies old(self).reaches(p) by {
                assert(p.len() == 0);
            }
        }
    }

    /// The keys stored in the tree, in the order of a dictionary.
    fn suffixes(&self) -> (rows: Vec<Vec<u8>>)
        ensures
            is_listing(rows_of(rows@), |key: Seq<u8>| self.holds(key)),
        decreases self,
    {
        proof {
            use_type_invariant(self);
        }
        let mut out: Vec<Vec<u8>> = Vec::new();
        if self.end {
            out.push(Vec::new());
            assert(rows_of(out@) =~= seq![Seq::<u8>::empty()]);
            assert forall|key: Seq<u8>| #[trigger]
                rows_of(out@).contains(key) <==> self.holds(key) && key.len() == 0 by {
                if key.len() == 0 {
                    assert(key =~= Seq::<u8>::empty());
                    assert(rows_of(out@)[0] == key);
                }
            }
        } else {
            assert(rows_of(out@) =~= Seq::<Seq<u8>>::empty());
        }
        let mut i: usize = 0;
        while i < N && i < 256
            invariant
                i <= N,
                i <= 256,
                self.children@.len() == N,
                is_sorted(rows_of(out@)),
                forall|key: Seq<u8>| #[trigger]
                    rows_of(out@).contains(key) <==> self.holds(key) && (key.len() == 0 || key[0]
                        < i),
            decreases N - i,
        {
            match &self.children[i] {
                None => {
                    assert forall|key: Seq<u8>| self.holds(key) && (key.len() == 0 || key[0] < i
                        + 1) implies key.len() == 0 || key[0] < i by {}
                },
                Some(child) => {
                    let sub = child.suffixes();
                    let ghost below = rows_of(sub@);
                    let ghost base = rows_of(out@);
                    let first = i as u8;
                    let mut j: usize = 0;
                    assert forall|k: int| 0 <= k < base.len() implies (#[trigger] base[k]).len()
                        == 0 || base[k][0] < i by {
                        assert(base.contains(base[k]));
                    }
                    while j < sub.len()
                        invariant
                            j <= sub.len(),
                            i < N,
                            i < 256,
                            first == i,
                            below == rows_of(sub@),
                            is_sorted(below),
                            is_sorted(rows_of(out@)),
                            rows_of(out@).len() == base.len() + j,
                            forall|k: int| 0 <= k < base.len() ==> rows_of(out@)[k] == base[k],
                            forall|k: int|
                                0 <= k < j ==> #[trigger] rows_of(out@)[base.len() + k] == seq![
                                    first,
                                ] + below[k],
                            forall|k: int|
                                0 <= k < base.len() ==> (#[trigger] base[k]).len() == 0 || base[k][0]
                                    < i,
                        decreases sub.len() - j,
                    {
                        let mut item: Vec<u8> = Vec::new();
                        item.push(first);
                        let tail = &sub[j];
                        let mut m: usize = 0;
                        while m < tail.len()
                            invariant
                                m <= tail.len(),
                                item@ == seq![first] + tail@.subrange(0, m as int),
                            decreases tail.len() - m,
                        {
                            item.push(tail[m]);
                            assert(tail@.subrange(0, m + 1) =~= tail@.subrange(0, m as int).push(
                                tail@[m as int],
                            ));
                            m = m + 1;
                        }
                        assert(tail@.subrange(0, m as int) =~= tail@);
                        assert(below[j as int] == tail@);
                        let ghost prior = rows_of(out@);
                        let ghost row = item@;
                        out.push(item);
                        proof {
                            assert(rows_of(out@) =~= prior.push(row));
                            assert forall|a: int, b: int|
                                0 <= a < b < rows_of(out@).len() implies lex_less(
                                #[trigger] rows_of(out@)[a],
                                #[trigger] rows_of(out@)[b],
                            ) by {
                                if b == prior.len() {
                                    assert(row.drop_first() =~= below[j as int]);
                                    if a < base.len() {
                                        assert(prior[a] == base[a]);
                                    } else {
                                        let k = a - base.len();
                                        assert(prior[base.len() + k] == seq![first] + below[k]);
                                        assert(prior[a].drop_first() =~= below[k]);
                                        assert(lex_less(below[k], below[j as int]));
                                    }
                                } else {
                                    assert(lex_less(prior[a], prior[b]));
                                }
                            }
                        }
                        j = j + 1;
                    }
                    proof {
                        let rows = rows_of(out@);
                        assert forall|key: Seq<u8>| #[trigger]
                            rows.contains(key) <==> self.holds(key) && (key.len() == 0 || key[0] < i
                                + 1) by {
                            if rows.contains(key) {
                                let k = choose|k: int| 0 <= k < rows.len() && rows[k] == key;
                                if k < base.len() {
                                    assert(base[k] == key);
                                    assert(base.contains(key));
                                } else {
                                    let kk = k - base.len();
                                    let t = below[kk];
                                    assert(rows[base.len() + kk] == seq![first] + t);
                                    assert(key == seq![first] + t);
                                    assert(key.drop_first() =~= t);
                                    assert(below.contains(t));
                                    assert(child.holds(t));
                                }
                            }
                            if self.holds(key) && (key.len() == 0 || key[0] < i + 1) {
                                if key.len() == 0 || key[0] < i {
                                    assert(base.contains(key));
                                    let k = choose|k: int| 0 <= k < base.len() && base[k] == key;
                                    assert(rows[k] == key);
                                } else {
                                    let t = key.drop_first();
                                    assert(child.holds(t));
                                    assert(below.contains(t));
                                    let k = choose|k: int| 0 <= k < below.len() && below[k] == t;
                                    assert(rows[base.len() + k] == seq![first] + t);
                                    assert(seq![first] + t =~= key);
                                }
                            }
                        }
                    }
                },
            }
            i = i + 1;
        }
        proof {
            let rows = rows_of(out@);
            assert forall|key: Seq<u8>| #[trigger] rows.contains(key) <==> self.holds(key) by {
                if self.holds(key) && key.len() > 0 {
                    assert(key[0] < 256);
                    assert(key[0] < N);
                }
            }
        }
        out
    }

    /// The texts of the keys stored in the tree, in the order of a
    /// dictionary: each key read back byte by byte.
    pub fn dfs(&self) -> (texts: Vec<String>)
        ensures
            is_listing(keys_of(texts.deep_view()), |key: Seq<u8>| self.holds(key)),
            forall|i: int|
                0 <= i < texts.len() ==> (#[trigger] texts.deep_view()[i]) == text_of(
                    key_of(texts.deep_view()[i]),
                ),
    {
        let rows = self.suffixes();
        let mut texts: Vec<String> = Vec::new();
        let mut i: usize = 0;
        while i < rows.len()
            invariant
                i <= rows.len(),
                texts.len() == i,
                forall|k: int| 0 <= k < i ==> #[trigger] texts.deep_view()[k] == text_of(
                    rows_of(rows@)[k],
                ),
            decreases rows.len() - i,
        {
            let text = read_back(&rows[i]);
            let ghost prior = texts.deep_view();
            texts.push(text);
            assert(texts.deep_view() =~= prior.push(text@));
            i = i + 1;
        }
        proof {
            let keys = keys_of(texts.deep_view());
            assert forall|k: int| 0 <= k < keys.len() implies keys[k] == rows_of(rows@)[k] by {
                lemma_key_round_trip(rows_of(rows@)[k]);
            }
            assert(keys =~= rows_of(rows@));
        }
        texts
    }

    /// The stored keys that begin with the key of `prefix`, as texts: the
    /// prefix as it was given, and behind it the rest of the key read back
    /// byte by byte. They come in the order of a dictionary. Where no node
    /// stands at the prefix, there is no answer.
    ///
    /// Every byte of the prefix must have a slot.
    pub fn auto_complete(&self, prefix: &str) -> (found: Option<Vec<String>>)
        requires
            forall|j: int| 0 <= j < prefix@.len() ==> low_byte(#[trigger] prefix@[j]) < N,
        ensures
            found is Some <==> self.reaches(key_of(prefix@)),
            found matches Some(texts) ==> are_completions(
                texts.deep_view(),
                prefix@,
                |key: Seq<u8>| self.holds(key_of(prefix@) + key),
            ),
    {
        let path = key_bytes(prefix);
        let mut x = self;
        let mut i: usize = 0;
        while i < path.len()
            invariant
                i <= path.len(),
                path@ == key_of(prefix@),
                forall|j: int| 0 <= j < path.len() ==> (#[trigger] path[j]) < N,
                forall|key: Seq<u8>|
                    #![trigger x.holds(key)]
                    x.holds(key) <==> self.holds(path@.subrange(0, i as int) + key),
                forall|key: Seq<u8>|
                    #![trigger x.reaches(key)]
                    x.reaches(key) <==> self.reaches(path@.subrange(0, i as int) + key),
            decreases path.len() - i,
        {
            proof {
                use_type_invariant(x);
            }
            let b = path[i] as usize;
            let ghost here = *x;
            let ghost walked = path@.subrange(0, i as int);
            let ghost further = path@.subrange(0, i + 1);
            match &x.children[b] {
                None => {
                    proof {
                        let rest = path@.subrange(i as int, path.len() as int);
                        assert(!here.reaches(rest));
                        assert(walked + rest =~= path@);
                    }
                    return None;
                },
                Some(child) => {
                    proof {
                        assert forall|key: Seq<u8>| #![trigger child.holds(key)]
                            child.holds(key) <==> self.holds(further + key) by {
                            let longer = seq![path[i as int]] + key;
                            assert(longer.drop_first() =~= key);
                            assert(here.holds(longer) == child.holds(key));
                            assert(walked + longer =~= further + key);
                        }
                        assert forall|key: Seq<u8>| #![trigger child.reaches(key)]
                            child.reaches(key) <==> self.reaches(further + key) by {
                            let longer = seq![path[i as int]] + key;
                            assert(longer.drop_first() =~= key);
                            assert(here.reaches(longer) == child.reaches(key));
                            assert(walked + longer =~= further + key);
                        }
                    }
                    x = child;
                },
            }
            i = i + 1;
        }
        proof {
            assert(path@.subrange(0, i as int) =~= path@);
            assert(path@ + Seq::<u8>::empty() =~= path@);
            assert(x.reaches(Seq::empty()));
        }
        let postfixes = x.dfs();
        let mut texts: Vec<String> = Vec::new();
        let mut k: usize = 0;
        while k < postfixes.len()
            invariant
                k <= postfixes.len(),
                texts.len() == k,
                forall|j: int| 0 <= j < k ==> #[trigger] texts.deep_view()[j] == prefix@
                    + postfixes.deep_view()[j],
            decreases postfixes.len() - k,
        {
            let mut text = prefix.to_owned();
            text.append(postfixes[k].as_str());
            let ghost prior = texts.deep_view();
            assert(postfixes.deep_view()[k as int] == postfixes@[k as int]@);
            texts.push(text);
            assert(texts.deep_view() =~= prior.push(text@));
            k = k + 1;
        }
        proof {
            let tails = postfixes.deep_view();
            let rows = Seq::new(
                texts.len() as nat,
                |i: int| key_of(rest_of(prefix@, texts.deep_view()[i])),
            );
            assert forall|j: int| 0 <= j < texts.len() implies rest_of(
                prefix@,
                #[trigger] texts.deep_view()[j],
            ) == tails[j] by {
                assert((prefix@ + tails[j]).subrange(
                    prefix@.len() as int,
                    (prefix@ + tails[j]).len() as int,
                ) =~= tails[j]);
            }
            assert(rows =~= keys_of(tails));
            assert forall|key: Seq<u8>| #[trigger]
                rows.contains(key) <==> self.holds(key_of(prefix@) + key) by {}
        }
        Some(texts)
    }
}

impl<const N: usize> Clone for TrieNode<N> {
    fn clone(&self) -> (copy: Self)
        ensures
            forall|key: Seq<u8>| #[trigger] copy.holds(key) == self.holds(key),
            forall|path: Seq<u8>| #[trigger] copy.reaches(path) == self.reaches(path),
    {
        self.duplicate()
    }
}

/// A key read back as a text, byte by byte.
pub fn read_back(key: &Vec<u8>) -> (text: String)
    ensures
        text@ == text_of(key@),
{
    let mut text = String::new();
    let mut i: usize = 0;
    while i < key.len()
        invariant
            i <= key.len(),
            text@ == text_of(key@.subrange(0, i as int)),
        decreases key.len() - i,
    {
        text.push(key[i] as char);
        assert(text_of(key@.subrange(0, i + 1)) =~= text_of(key@.subrange(0, i as int)).push(
            key@[i as int] as char,
        ));
        i = i + 1;
    }
    assert(key@.subrange(0, i as int) =~= key@);
    text
}

/// The low bytes of the characters of a text.
pub fn key_bytes(text: &str) -> (bytes: Vec<u8>)
    ensures
        bytes@ == key_of(text@),
{
    let mut bytes: Vec<u8> = Vec::new();
    let mut chars = text.chars();
    let ghost mut i: int = 0;
    proof {
        broadcast use vstd::string::group_string_axioms;

        assert(text@.subrange(0, text@.len() as int) =~= text@);
    }
    loop
        invariant
            0 <= i <= text@.len(),
            chars.remaining() == text@.subrange(i, text@.len() as int),
            bytes@ == key_of(text@.subrange(0, i)),
        ensures
            i == text@.len(),
        decreases text@.len() - i,
    {
        broadcast use vstd::string::group_string_axioms;

        match chars.next() {
            None => {
                break;
            },
            Some(c) => {
                assert(c == text@[i]);
                let b = #[verifier::truncate]
                (c as u8);
                bytes.push(b);
                proof {
                    assert(key_of(text@.subrange(0, i + 1)) =~= key_of(text@.subrange(0, i)).push(
                        low_byte(c),
                    ));
                    i = i + 1;
                    assert(chars.remaining() =~= text@.subrange(i, text@.len() as int));
                }
            },
        }
    }
    assert(text@.subrange(0, i) =~= text@);
    bytes
}

} // verus!
