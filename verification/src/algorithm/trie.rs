//! A trie over strings, for prefix matching of request paths.
//!
//! A node keeps its children as a vector of `(char, TrieNode)` pairs; a
//! lookup always takes the first pair carrying the wanted character, and an
//! insertion never adds a second pair for a character that is already
//! present, so the first match is the only one.

use vstd::prelude::*;

verus! {

/// One node of the trie: labelled outgoing edges, and whether a stored
/// word ends here.
#[derive(Debug)]
pub struct TrieNode {
    pub children: Vec<(char, TrieNode)>,
    pub is_end: bool,
}

/// Index of the first child pair labelled `key`, or -1 when none is.
pub open spec fn spec_child_index(s: Seq<(char, TrieNode)>, key: char) -> int
    decreases s.len(),
{
    if s.len() == 0 {
        -1
    } else if s[0].0 == key {
        0
    } else {
        let sub = spec_child_index(s.drop_first(), key);
        if sub == -1 {
            -1
        } else {
            sub + 1
        }
    }
}

/// Whether the word `w` is stored in the subtrie rooted at `n`.
pub open spec fn spec_contains(n: TrieNode, w: Seq<char>) -> bool
    decreases w.len(),
{
    if w.len() == 0 {
        n.is_end
    } else {
        let i = spec_child_index(n.children@, w[0]);
        if i == -1 {
            false
        } else {
            spec_contains(n.children@[i].1, w.drop_first())
        }
    }
}

/// `spec_child_index` lands on the first pair labelled `key`, and only
/// reports -1 when no pair is.
proof fn lemma_child_index_props(s: Seq<(char, TrieNode)>, key: char)
    ensures
        spec_child_index(s, key) == -1 ==> (forall|j: int| 0 <= j < s.len() ==> s[j].0 != key),
        spec_child_index(s, key) != -1 ==> 0 <= spec_child_index(s, key) < s.len()
            && s[spec_child_index(s, key)].0 == key
            && (forall|j: int| 0 <= j < spec_child_index(s, key) ==> s[j].0 != key),
    decreases s.len(),
{
    if s.len() == 0 {
    } else if s[0].0 == key {
    } else {
        lemma_child_index_props(s.drop_first(), key);
        let sub = spec_child_index(s.drop_first(), key);
        if sub == -1 {
            assert forall|j: int| 0 <= j < s.len() implies s[j].0 != key by {
                if j > 0 {
                    assert(s.drop_first()[j - 1] == s[j]);
                }
            }
        } else {
            assert(s.drop_first()[sub] == s[sub + 1]);
            assert forall|j: int| 0 <= j < sub + 1 implies s[j].0 != key by {
                if j > 0 {
                    assert(s.drop_first()[j - 1] == s[j]);
                }
            }
        }
    }
}

/// The first matching position determines `spec_child_index`.
proof fn lemma_child_index_first(s: Seq<(char, TrieNode)>, key: char, i: int)
    requires
        0 <= i < s.len(),
        s[i].0 == key,
        forall|j: int| 0 <= j < i ==> s[j].0 != key,
    ensures
        spec_child_index(s, key) == i,
    decreases s.len(),
{
    if i == 0 {
    } else {
        assert forall|j: int| 0 <= j < i - 1 implies s.drop_first()[j].0 != key by {
            assert(s.drop_first()[j] == s[j + 1]);
        }
        assert(s.drop_first()[i - 1] == s[i]);
        lemma_child_index_first(s.drop_first(), key, i - 1);
    }
}

/// When no pair carries `key`, the index is -1.
proof fn lemma_child_index_absent(s: Seq<(char, TrieNode)>, key: char)
    requires
        forall|j: int| 0 <= j < s.len() ==> s[j].0 != key,
    ensures
        spec_child_index(s, key) == -1,
{
    lemma_child_index_props(s, key);
}

/// `spec_child_index` reads only the labels: two child vectors with the
/// same labels in the same order agree on it.
proof fn lemma_child_index_same_keys(s1: Seq<(char, TrieNode)>, s2: Seq<(char, TrieNode)>, key: char)
    requires
        s1.len() == s2.len(),
        forall|j: int| 0 <= j < s1.len() ==> s1[j].0 == s2[j].0,
    ensures
        spec_child_index(s1, key) == spec_child_index(s2, key),
    decreases s1.len(),
{
    if s1.len() == 0 {
    } else {
        assert forall|j: int| 0 <= j < s1.drop_first().len() implies s1.drop_first()[j].0
            == s2.drop_first()[j].0 by {
            assert(s1.drop_first()[j] == s1[j + 1]);
            assert(s2.drop_first()[j] == s2[j + 1]);
        }
        lemma_child_index_same_keys(s1.drop_first(), s2.drop_first(), key);
    }
}

/// Appending a pair changes a lookup only when the key was absent.
proof fn lemma_child_index_push(s: Seq<(char, TrieNode)>, p: (char, TrieNode), key: char)
    ensures
        spec_child_index(s, key) != -1 ==> spec_child_index(s.push(p), key) == spec_child_index(
            s,
            key,
        ),
        spec_child_index(s, key) == -1 && p.0 == key ==> spec_child_index(s.push(p), key)
            == s.len(),
        spec_child_index(s, key) == -1 && p.0 != key ==> spec_child_index(s.push(p), key) == -1,
{
    lemma_child_index_props(s, key);
    lemma_child_index_props(s.push(p), key);
    let i = spec_child_index(s, key);
    let ip = spec_child_index(s.push(p), key);
    if i != -1 {
        assert(s.push(p)[i] == s[i]);
        assert forall|j: int| 0 <= j < i implies s.push(p)[j].0 != key by {
            assert(s.push(p)[j] == s[j]);
        }
        lemma_child_index_first(s.push(p), key, i);
    } else if p.0 == key {
        assert(s.push(p)[s.len() as int] == p);
        assert forall|j: int| 0 <= j < s.len() implies s.push(p)[j].0 != key by {
            assert(s.push(p)[j] == s[j]);
        }
        lemma_child_index_first(s.push(p), key, s.len() as int);
    } else {
        assert forall|j: int| 0 <= j < s.push(p).len() implies s.push(p)[j].0 != key by {
            if j < s.len() {
                assert(s.push(p)[j] == s[j]);
            }
        }
        lemma_child_index_absent(s.push(p), key);
    }
}

/// Two non-empty sequences with equal heads and equal tails are equal.
proof fn lemma_cons_eq(w: Seq<char>, t: Seq<char>)
    requires
        w.len() > 0,
        t.len() > 0,
        w[0] == t[0],
        w.drop_first() == t.drop_first(),
    ensures
        w == t,
{
    assert(w.drop_first().len() == w.len() - 1);
    assert(t.drop_first().len() == t.len() - 1);
    assert(w.len() == t.len());
    assert forall|i: int| 0 <= i < w.len() implies w[i] == t[i] by {
        if i > 0 {
            assert(w.drop_first() == w.subrange(1, w.len() as int));
            assert(t.drop_first() == t.subrange(1, t.len() as int));
            assert(w.subrange(1, w.len() as int)[i - 1] == w[i]);
            assert(t.subrange(1, t.len() as int)[i - 1] == t[i]);
        }
    }
    assert(w =~= t);
}

/// A freshly made node stores no word at all.
proof fn lemma_fresh_node_contains_nothing(n: TrieNode, w: Seq<char>)
    requires
        n.children@.len() == 0,
        !n.is_end,
    ensures
        !spec_contains(n, w),
{
    if w.len() != 0 {
        lemma_child_index_props(n.children@, w[0]);
    }
}

/// One step of insertion: replacing (or appending) the child reached by
/// the first character of `target` with a node that stores exactly the
/// words of the old child plus the tail of `target` adds exactly `target`
/// to the words of the parent.
proof fn lemma_insert_step(
    n0: TrieNode,
    n1: TrieNode,
    oldc: TrieNode,
    nc: TrieNode,
    idx: int,
    c: char,
    target: Seq<char>,
    rest: Seq<char>,
)
    requires
        n1.is_end == n0.is_end,
        target.len() > 0,
        target[0] == c,
        target.drop_first() == rest,
        forall|w2: Seq<char>| spec_contains(nc, w2) == (spec_contains(oldc, w2) || w2 == rest),
        spec_child_index(n0.children@, c) == -1 ==> idx == n0.children@.len()
            && n1.children@ == n0.children@.push((c, nc)) && oldc.children@.len() == 0
            && !oldc.is_end,
        spec_child_index(n0.children@, c) != -1 ==> idx == spec_child_index(n0.children@, c)
            && oldc == n0.children@[idx].1 && n1.children@ == n0.children@.update(idx, (c, nc)),
    ensures
        forall|w: Seq<char>| spec_contains(n1, w) == (spec_contains(n0, w) || w == target),
{
    let pushed = spec_child_index(n0.children@, c) == -1;
    lemma_child_index_props(n0.children@, c);
    assert forall|w: Seq<char>| spec_contains(n1, w) == (spec_contains(n0, w) || w == target) by {
        if w.len() == 0 {
            assert(w != target);
        } else {
            let k = w[0];
            let i0 = spec_child_index(n0.children@, k);
            let i1 = spec_child_index(n1.children@, k);
            lemma_child_index_props(n0.children@, k);
            lemma_child_index_props(n1.children@, k);
            if pushed {
                lemma_child_index_push(n0.children@, (c, nc), k);
                if k == c {
                    assert(i0 == -1 && i1 == idx);
                    assert(n1.children@[i1].1 == nc);
                    lemma_fresh_node_contains_nothing(oldc, w.drop_first());
                    assert(spec_contains(n1, w) == (w.drop_first() == rest));
                    if w.drop_first() == rest {
                        lemma_cons_eq(w, target);
                    }
                    if w == target {
                        assert(w.drop_first() == rest);
                    }
                } else {
                    assert(w != target) by {
                        if w == target {
                            assert(w[0] == target[0]);
                        }
                    }
                    assert(i1 == i0);
                    if i0 != -1 {
                        assert(n1.children@[i0] == n0.children@[i0]);
                    }
                }
            } else {
                lemma_child_index_same_keys(n0.children@, n1.children@, k);
                assert(i1 == i0);
                if k == c {
                    assert(i0 == idx);
                    assert(n1.children@[i1].1 == nc);
                    assert(spec_contains(n1, w) == spec_contains(nc, w.drop_first()));
                    assert(spec_contains(n0, w) == spec_contains(oldc, w.drop_first()));
                    if w.drop_first() == rest {
                        lemma_cons_eq(w, target);
                    }
                    if w == target {
                        assert(w.drop_first() == rest);
                    }
                } else {
                    assert(w != target) by {
                        if w == target {
                            assert(w[0] == target[0]);
                        }
                    }
                    if i0 != -1 {
                        assert(i0 != idx);
                        assert(n1.children@[i0] == n0.children@[i0]);
                    }
                }
            }
        }
    }
}

impl TrieNode {
    pub fn new() -> (r: Self)
        ensures
            r.children@ == Seq::<(char, TrieNode)>::empty(),
            !r.is_end,
    {
        TrieNode { children: Vec::new(), is_end: false }
    }

    /// Position of the first child labelled `key`, if any.
    fn find_child_index(&self, key: char) -> (r: Option<usize>)
        ensures
            r matches Some(i) ==> spec_child_index(self.children@, key) == i as int,
            r is None ==> spec_child_index(self.children@, key) == -1,
    {
        let n = self.children.len();
        let mut i: usize = 0;
        while i < n
            invariant
                n == self.children.len(),
                i <= n,
                forall|j: int| 0 <= j < i ==> self.children@[j].0 != key,
            decreases n - i,
        {
            if self.children[i].0 == key {
                proof {
                    lemma_child_index_first(self.children@, key, i as int);
                }
                return Some(i);
            }
            i += 1;
        }
        proof {
            lemma_child_index_absent(self.children@, key);
        }
        None
    }

    pub fn contains_key(&self, key: char) -> (r: bool)
        ensures
            r == (spec_child_index(self.children@, key) != -1),
    {
        self.find_child_index(key).is_some()
    }

    pub fn get_child(&self, key: char) -> (r: Option<&TrieNode>)
        ensures
            r matches Some(n) ==> spec_child_index(self.children@, key) >= 0 && *n
                == self.children@[spec_child_index(self.children@, key)].1,
            r is None ==> spec_child_index(self.children@, key) == -1,
    {
        match self.find_child_index(key) {
            Some(i) => {
                proof {
                    lemma_child_index_props(self.children@, key);
                }
                Some(&self.children[i].1)
            },
            None => None,
        }
    }

    pub fn get_child_mut(&mut self, key: char) -> (r: Option<&mut TrieNode>)
        ensures
            spec_child_index(old(self).children@, key) == -1 ==> r is None && *final(self) == *old(
                self,
            ),
            spec_child_index(old(self).children@, key) >= 0 ==> (r matches Some(n) && *n == old(
                self,
            ).children@[spec_child_index(old(self).children@, key)].1 && final(self).is_end == old(
                self,
            ).is_end && final(self).children@ == old(self).children@.update(
                spec_child_index(old(self).children@, key),
                (key, *final(n)),
            )),
    {
        match self.find_child_index(key) {
            Some(i) => {
                proof {
                    lemma_child_index_props(self.children@, key);
                }
                Some(child_node_mut(&mut self.children, i))
            },
            None => None,
        }
    }

    pub fn children(&self) -> (r: &Vec<(char, TrieNode)>)
        ensures
            *r == self.children,
    {
        &self.children
    }

    pub fn children_mut(&mut self) -> (r: &mut Vec<(char, TrieNode)>)
        ensures
            *r == old(self).children,
            final(self).children == *final(r),
            final(self).is_end == old(self).is_end,
    {
        &mut self.children
    }

    pub fn set_end(&mut self)
        ensures
            final(self).is_end,
            final(self).children == old(self).children,
    {
        self.is_end = true;
    }

    fn contains_rec(&self, word: &str, pos: usize) -> (r: bool)
        requires
            pos <= word@.len(),
        ensures
            r == spec_contains(*self, word@.skip(pos as int)),
        decreases word@.len() - pos,
    {
        let len = word.unicode_len();
        if pos == len {
            proof {
                assert(word@.skip(pos as int) =~= Seq::<char>::empty());
            }
            return self.is_end;
        }
        let c = word.get_char(pos);
        proof {
            assert(word@.skip(pos as int)[0] == c);
        }
        match self.find_child_index(c) {
            None => false,
            Some(i) => {
                proof {
                    lemma_child_index_props(self.children@, c);
                }
                let r = self.children[i].1.contains_rec(word, pos + 1);
                proof {
                    assert(word@.skip(pos as int).drop_first() =~= word@.skip(pos as int + 1));
                }
                r
            },
        }
    }

    fn insert_rec(&mut self, word: &str, pos: usize)
        requires
            pos <= word@.len(),
        ensures
            forall|w: Seq<char>| spec_contains(*final(self), w) == (spec_contains(*old(self), w)
                || w == word@.skip(pos as int)),
        decreases word@.len() - pos,
    {
        let ghost n0 = *self;
        let ghost target = word@.skip(pos as int);
        let len = word.unicode_len();
        if pos == len {
            self.is_end = true;
            proof {
                assert(target =~= Seq::<char>::empty());
                assert forall|w: Seq<char>| spec_contains(*self, w) == (spec_contains(n0, w) || w
                    == target) by {
                    if w.len() == 0 {
                        assert(w =~= target);
                    } else {
                        assert(spec_contains(*self, w) == spec_contains(n0, w));
                        assert(w != target);
                    }
                }
            }
            return;
        }
        let c = word.get_char(pos);
        let ghost rest = word@.skip(pos as int + 1);
        proof {
            assert(target[0] == c);
            assert(target.drop_first() =~= rest);
        }
        let idx: usize = match self.find_child_index(c) {
            Some(i) => i,
            None => {
                self.children.push((c, TrieNode::new()));
                proof {
                    lemma_child_index_push(n0.children@, self.children@[n0.children@.len() as int], c);
                }
                self.children.len() - 1
            },
        };
        let ghost pushed = idx == n0.children@.len();
        let ghost mid = *self;
        proof {
            assert(spec_child_index(mid.children@, c) == idx as int);
            lemma_child_index_props(mid.children@, c);
        }
        let ghost old_child = mid.children@[idx as int].1;
        let child = child_node_mut(&mut self.children, idx);
        child.insert_rec(word, pos + 1);
        proof {
            let nc = self.children@[idx as int].1;
            assert(self.children@ == mid.children@.update(idx as int, (c, nc)));
            assert(forall|w2: Seq<char>| spec_contains(nc, w2) == (spec_contains(old_child, w2)
                || w2 == rest));
            if pushed {
                assert(self.children@ =~= n0.children@.push((c, nc)));
                assert(old_child.children@.len() == 0 && !old_child.is_end);
            } else {
                assert(self.children@ =~= n0.children@.update(idx as int, (c, nc)));
            }
            lemma_insert_step(n0, *self, old_child, nc, idx as int, c, target, rest);
        }
    }

}

/// Mutable access to the node of the child pair at `i`, with the vector's
/// final value expressed through the reference.
fn child_node_mut(v: &mut Vec<(char, TrieNode)>, i: usize) -> (r: &mut TrieNode)
    requires
        i < old(v).len(),
    ensures
        *r == old(v)@[i as int].1,
        final(v)@ == old(v)@.update(i as int, (old(v)@[i as int].0, *final(r))),
    {
    let p = &mut v[i];
    &mut p.1
}

/// A trie of words, with insertion and exact lookup.
#[derive(Debug)]
pub struct Trie {
    root: TrieNode,
}

impl Trie {
    /// The set of stored words, as a predicate over character sequences.
    pub closed spec fn spec_trie_contains(self, w: Seq<char>) -> bool {
        spec_contains(self.root, w)
    }

    pub fn new() -> (r: Self)
        ensures
            forall|w: Seq<char>| !r.spec_trie_contains(w),
    {
        let t = Trie { root: TrieNode::new() };
        proof {
            assert forall|w: Seq<char>| !spec_contains(t.root, w) by {
                lemma_fresh_node_contains_nothing(t.root, w);
            }
        }
        t
    }

    fn root(&self) -> (r: &TrieNode)
        ensures
            *r == self.root,
    {
        &self.root
    }

    fn root_mut(&mut self) -> (r: &mut TrieNode)
        ensures
            *r == old(self).root,
            final(self).root == *final(r),
    {
        &mut self.root
    }

    /// Whether `word` was inserted before.
    pub fn contains(&self, word: &str) -> (r: bool)
        ensures
            r == self.spec_trie_contains(word@),
    {
        let r = self.root.contains_rec(word, 0);
        proof {
            assert(word@.skip(0) =~= word@);
        }
        r
    }

    /// Store `word`; every word stored before stays stored.
    pub fn insert(&mut self, word: &str)
        ensures
            forall|w: Seq<char>| final(self).spec_trie_contains(w) == (old(
                self,
            ).spec_trie_contains(w) || w == word@),
    {
        self.root.insert_rec(word, 0);
        proof {
            assert(word@.skip(0) =~= word@);
        }
    }

    /// The stored word equal to `prefix`, when there is one and `prefix`
    /// is not empty.
    pub fn longest_prefix(&self, prefix: &str) -> (r: Option<String>)
        ensures
            prefix@.len() > 0 && self.spec_trie_contains(prefix@) ==> (r matches Some(w) && w@
                == prefix@),
            !(prefix@.len() > 0 && self.spec_trie_contains(prefix@)) ==> r is None,
    {
        if prefix.is_empty() {
            return None;
        }
        if self.contains(prefix) {
            Some(prefix.to_owned())
        } else {
            None
        }
    }
}

} // verus!
