//! A small table keyed by text.
//!
//! The table keeps its pairs in a vector, each key once, and is modelled by
//! the finite map from keys to values. It is meant for the handful of
//! entries that the engine's registries hold.

use vstd::prelude::*;

verus! {

/// `str`'s `==`: whether two texts hold the same characters.
#[verifier::external_body]
pub(crate) fn text_eq(a: &str, b: &str) -> (same: bool)
    ensures
        same == (a@ == b@),
{
    a == b
}

/// The map that a sequence of pairs stands for; a later pair wins.
pub open spec fn pairs_map<V>(pairs: Seq<(String, V)>) -> Map<Seq<char>, V>
    decreases pairs.len(),
{
    if pairs.len() == 0 {
        Map::empty()
    } else {
        pairs_map(pairs.drop_last()).insert(pairs.last().0@, pairs.last().1)
    }
}

/// No key stands in two pairs.
pub open spec fn distinct_keys<V>(pairs: Seq<(String, V)>) -> bool {
    forall|i: int, j: int|
        0 <= i < pairs.len() && 0 <= j < pairs.len() && (#[trigger] pairs[i]).0@ == (
        #[trigger] pairs[j]).0@ ==> i == j
}

/// Whether some pair has the key `key`.
pub open spec fn has_key<V>(pairs: Seq<(String, V)>, key: Seq<char>) -> bool {
    exists|i: int| 0 <= i < pairs.len() && (#[trigger] pairs[i]).0@ == key
}

pub proof fn lemma_pairs_map<V>(pairs: Seq<(String, V)>)
    requires
        distinct_keys(pairs),
    ensures
        pairs_map(pairs).dom().finite(),
        pairs_map(pairs).dom().len() == pairs.len(),
        forall|k: Seq<char>| #[trigger] pairs_map(pairs).contains_key(k) <==> has_key(pairs, k),
        forall|i: int|
            0 <= i < pairs.len() ==> pairs_map(pairs).contains_key((#[trigger] pairs[i]).0@)
                && pairs_map(pairs)[pairs[i].0@] == pairs[i].1,
    decreases pairs.len(),
{
    if pairs.len() == 0 {
        assert forall|k: Seq<char>| #[trigger]
            pairs_map(pairs).contains_key(k) <==> has_key(pairs, k) by {}
    } else {
        let front = pairs.drop_last();
        let last = pairs.last();
        assert forall|i: int, j: int|
            0 <= i < front.len() && 0 <= j < front.len() && (#[trigger] front[i]).0@ == (
            #[trigger] front[j]).0@ implies i == j by {
            assert(front[i] == pairs[i]);
            assert(front[j] == pairs[j]);
        }
        lemma_pairs_map(front);
        if has_key(front, last.0@) {
            let i = choose|i: int| 0 <= i < front.len() && (#[trigger] front[i]).0@ == last.0@;
            assert(front[i] == pairs[i]);
            assert(pairs[pairs.len() - 1] == last);
            assert(false);
        }
        assert forall|k: Seq<char>| #[trigger]
            pairs_map(pairs).contains_key(k) <==> has_key(pairs, k) by {
            if has_key(pairs, k) {
                let i = choose|i: int| 0 <= i < pairs.len() && (#[trigger] pairs[i]).0@ == k;
                if i < front.len() {
                    assert(front[i] == pairs[i]);
                }
            }
            if pairs_map(pairs).contains_key(k) {
                if k == last.0@ {
                    assert(pairs[pairs.len() - 1].0@ == k);
                } else {
                    let i = choose|i: int| 0 <= i < front.len() && (#[trigger] front[i]).0@ == k;
                    assert(front[i] == pairs[i]);
                }
            }
        }
        assert forall|i: int| 0 <= i < pairs.len() implies pairs_map(pairs).contains_key(
            (#[trigger] pairs[i]).0@,
        ) && pairs_map(pairs)[pairs[i].0@] == pairs[i].1 by {
            if i < front.len() {
                assert(front[i] == pairs[i]);
                assert(pairs[pairs.len() - 1] == last);
            }
        }
    }
}

pub proof fn lemma_pairs_push<V>(pairs: Seq<(String, V)>, pair: (String, V))
    ensures
        pairs_map(pairs.push(pair)) == pairs_map(pairs).insert(pair.0@, pair.1),
        distinct_keys(pairs) && !has_key(pairs, pair.0@) ==> distinct_keys(pairs.push(pair)),
{
    assert(pairs.push(pair).drop_last() =~= pairs);
    if distinct_keys(pairs) && !has_key(pairs, pair.0@) {
        let r = pairs.push(pair);
        assert forall|i: int, j: int|
            0 <= i < r.len() && 0 <= j < r.len() && (#[trigger] r[i]).0@ == (#[trigger] r[j]).0@
            implies i == j by {
            if i < pairs.len() {
                assert(r[i] == pairs[i]);
            }
            if j < pairs.len() {
                assert(r[j] == pairs[j]);
            }
        }
    }
}

pub proof fn lemma_pairs_remove<V>(pairs: Seq<(String, V)>, i: int)
    requires
        distinct_keys(pairs),
        0 <= i < pairs.len(),
    ensures
        distinct_keys(pairs.remove(i)),
        pairs_map(pairs.remove(i)) == pairs_map(pairs).remove(pairs[i].0@),
{
    let r = pairs.remove(i);
    assert forall|a: int, b: int|
        0 <= a < r.len() && 0 <= b < r.len() && (#[trigger] r[a]).0@ == (#[trigger] r[b]).0@
        implies a == b by {
        let a0 = if a < i { a } else { a + 1 };
        let b0 = if b < i { b } else { b + 1 };
        assert(r[a] == pairs[a0]);
        assert(r[b] == pairs[b0]);
    }
    lemma_pairs_map(pairs);
    lemma_pairs_map(r);
    let left = pairs_map(r);
    let right = pairs_map(pairs).remove(pairs[i].0@);
    assert forall|k: Seq<char>| left.contains_key(k) <==> right.contains_key(k) by {
        if left.contains_key(k) {
            let a = choose|a: int| 0 <= a < r.len() && (#[trigger] r[a]).0@ == k;
            let a0 = if a < i { a } else { a + 1 };
            assert(r[a] == pairs[a0]);
        }
        if right.contains_key(k) {
            let a = choose|a: int| 0 <= a < pairs.len() && (#[trigger] pairs[a]).0@ == k;
            let a1 = if a < i { a } else { a - 1 };
            assert(r[a1] == pairs[a]);
        }
    }
    assert forall|k: Seq<char>| left.contains_key(k) implies left[k] == right[k] by {
        let a = choose|a: int| 0 <= a < r.len() && (#[trigger] r[a]).0@ == k;
        let a0 = if a < i { a } else { a + 1 };
        assert(r[a] == pairs[a0]);
    }
    assert(left =~= right);
}

/// A table from text keys to values.
#[derive(Debug, Clone)]
pub struct StringMap<V> {
    pairs: Vec<(String, V)>,
}

impl<V> View for StringMap<V> {
    type V = Map<Seq<char>, V>;

    closed spec fn view(&self) -> Map<Seq<char>, V> {
        pairs_map(self.pairs@)
    }
}

impl<V> StringMap<V> {
    /// The table's invariant: each key stands once.
    pub closed spec fn wf(&self) -> bool {
        distinct_keys(self.pairs@)
    }

    /// The pairs in the order in which their keys came in.
    pub closed spec fn pairs(&self) -> Seq<(String, V)> {
        self.pairs@
    }

    /// The map holds exactly the keys of the pairs, each with the value of
    /// its pair, and has as many keys as there are pairs.
    pub proof fn law_view(&self)
        requires
            self.wf(),
        ensures
            distinct_keys(self.pairs()),
            self@ == pairs_map(self.pairs()),
            self@.dom().finite(),
            self@.dom().len() == self.pairs().len(),
            forall|k: Seq<char>| #[trigger] self@.contains_key(k) <==> has_key(self.pairs(), k),
            forall|i: int|
                0 <= i < self.pairs().len() ==> self@.contains_key((#[trigger] self.pairs()[i]).0@)
                    && self@[self.pairs()[i].0@] == self.pairs()[i].1,
    {
        lemma_pairs_map(self.pairs@);
    }

    /// Creates an empty table.
    pub fn new() -> (table: Self)
        ensures
            table.wf(),
            table@ == Map::<Seq<char>, V>::empty(),
            table.pairs().len() == 0,
    {
        StringMap { pairs: Vec::new() }
    }

    /// The number of keys.
    pub fn len(&self) -> (n: usize)
        requires
            self.wf(),
        ensures
            n == self@.dom().len(),
            n == self.pairs().len(),
    {
        proof {
            lemma_pairs_map(self.pairs@);
        }
        self.pairs.len()
    }

    /// Whether the table holds nothing.
    pub fn is_empty(&self) -> (empty: bool)
        requires
            self.wf(),
        ensures
            empty == (self@.dom().len() == 0),
            empty == (self@ == Map::<Seq<char>, V>::empty()),
    {
        proof {
            lemma_pairs_map(self.pairs@);
            if self.pairs@.len() == 0 {
                assert(self@ =~= Map::<Seq<char>, V>::empty());
            } else {
                assert(self@.contains_key(self.pairs@[0].0@));
            }
        }
        self.pairs.len() == 0
    }

    /// The position of `key` among the pairs.
    fn position(&self, key: &str) -> (at: Option<usize>)
        requires
            self.wf(),
        ensures
            match at {
                Some(i) => i < self.pairs@.len() && self.pairs@[i as int].0@ == key@,
                None => !has_key(self.pairs@, key@),
            },
    {
        let mut i: usize = 0;
        while i < self.pairs.len()
            invariant
                0 <= i <= self.pairs@.len(),
                forall|k: int| 0 <= k < i ==> (#[trigger] self.pairs@[k]).0@ != key@,
            decreases self.pairs@.len() - i,
        {
            if text_eq(self.pairs[i].0.as_str(), key) {
                return Some(i);
            }
            i += 1;
        }
        None
    }

    /// Whether `key` is in the table.
    pub fn contains_key(&self, key: &str) -> (held: bool)
        requires
            self.wf(),
        ensures
            held == self@.contains_key(key@),
    {
        proof {
            lemma_pairs_map(self.pairs@);
        }
        self.position(key).is_some()
    }

    /// The value under `key`.
    pub fn get(&self, key: &str) -> (value: Option<&V>)
        requires
            self.wf(),
        ensures
            match value {
                Some(v) => self@.contains_key(key@) && *v == self@[key@],
                None => !self@.contains_key(key@),
            },
    {
        proof {
            lemma_pairs_map(self.pairs@);
        }
        match self.position(key) {
            Some(i) => Some(&self.pairs[i].1),
            None => None,
        }
    }

    /// Puts `value` under `key` and returns what stood there before.
    pub fn insert(&mut self, key: String, value: V) -> (before: Option<V>)
        requires
            old(self).wf(),
        ensures
            final(self).wf(),
            final(self)@ == old(self)@.insert(key@, value),
            match before {
                Some(v) => old(self)@.contains_key(key@) && v == old(self)@[key@],
                None => !old(self)@.contains_key(key@),
            },
    {
        proof {
            lemma_pairs_map(self.pairs@);
        }
        let ghost start = self.pairs@;
        let before = match self.position(key.as_str()) {
            Some(i) => {
                proof {
                    lemma_pairs_remove(start, i as int);
                }
                let pair = self.pairs.remove(i);
                Some(pair.1)
            },
            None => None,
        };
        proof {
            let mid = self.pairs@;
            lemma_pairs_map(mid);
            lemma_pairs_push(mid, (key, value));
            assert(pairs_map(mid).insert(key@, value) =~= pairs_map(start).insert(key@, value));
        }
        self.pairs.push((key, value));
        before
    }

    /// Takes `key` out of the table and returns its value.
    pub fn remove(&mut self, key: &str) -> (removed: Option<V>)
        requires
            old(self).wf(),
        ensures
            final(self).wf(),
            final(self)@ == old(self)@.remove(key@),
            match removed {
                Some(v) => old(self)@.contains_key(key@) && v == old(self)@[key@],
                None => !old(self)@.contains_key(key@) && final(self)@ == old(self)@,
            },
    {
        proof {
            lemma_pairs_map(self.pairs@);
        }
        match self.position(key) {
            Some(i) => {
                proof {
                    lemma_pairs_remove(self.pairs@, i as int);
                }
                let pair = self.pairs.remove(i);
                Some(pair.1)
            },
            None => {
                proof {
                    assert(self@.remove(key@) =~= self@);
                }
                None
            },
        }
    }

    /// Empties the table and hands out what it held, in the order in which
    /// the keys came in.
    pub fn drain(&mut self) -> (taken: Vec<(String, V)>)
        requires
            old(self).wf(),
        ensures
            final(self).wf(),
            final(self)@ == Map::<Seq<char>, V>::empty(),
            taken@ == old(self).pairs(),
    {
        let mut taken: Vec<(String, V)> = Vec::new();
        std::mem::swap(&mut self.pairs, &mut taken);
        taken
    }

    /// The key of the pair at position `i`.
    pub fn key_at(&self, i: usize) -> (key: &str)
        requires
            i < self.pairs().len(),
        ensures
            key@ == self.pairs()[i as int].0@,
    {
        self.pairs[i].0.as_str()
    }

    /// The value of the pair at position `i`.
    pub fn value_at(&self, i: usize) -> (value: &V)
        requires
            i < self.pairs().len(),
        ensures
            *value == self.pairs()[i as int].1,
    {
        &self.pairs[i].1
    }
}

} // verus!
