//! The declaration set of one package: a mapping from declaration key to
//! declaration value in which a later write to a key replaces an earlier one.

use vstd::prelude::*;
use crate::text::str_eq;

verus! {

/// The mapping that results from writing `pairs` one after another, each
/// write replacing what its key held before.
pub open spec fn pairs_map(pairs: Seq<(String, String)>) -> Map<Seq<char>, Seq<char>>
    decreases pairs.len(),
{
    if pairs.len() == 0 {
        Map::empty()
    } else {
        pairs_map(pairs.drop_last()).insert(pairs.last().0@, pairs.last().1@)
    }
}

/// A key that no pair writes is not in the mapping.
proof fn lemma_absent(pairs: Seq<(String, String)>, key: Seq<char>)
    requires
        forall|j: int| 0 <= j < pairs.len() ==> (#[trigger] pairs[j]).0@ != key,
    ensures
        !pairs_map(pairs).contains_key(key),
    decreases pairs.len(),
{
    if pairs.len() > 0 {
        let front = pairs.drop_last();
        assert forall|j: int| 0 <= j < front.len() implies (#[trigger] front[j]).0@ != key by {
            assert(front[j] == pairs[j]);
        }
        lemma_absent(front, key);
        assert(pairs.last() == pairs[pairs.len() - 1]);
    }
}

/// The last pair that writes a key decides its value.
proof fn lemma_last_write_wins(pairs: Seq<(String, String)>, at: int, key: Seq<char>)
    requires
        0 <= at < pairs.len(),
        pairs[at].0@ == key,
        forall|j: int| at < j < pairs.len() ==> (#[trigger] pairs[j]).0@ != key,
    ensures
        pairs_map(pairs).contains_key(key),
        pairs_map(pairs)[key] == pairs[at].1@,
    decreases pairs.len(),
{
    if at < pairs.len() - 1 {
        let front = pairs.drop_last();
        assert forall|j: int| at < j < front.len() implies (#[trigger] front[j]).0@ != key by {
            assert(front[j] == pairs[j]);
        }
        assert(front[at] == pairs[at]);
        lemma_last_write_wins(front, at, key);
        assert(pairs.last() == pairs[pairs.len() - 1]);
    }
}

/// Taking out one pair changes the mapping at most at that pair's key.
proof fn lemma_without_pair(pairs: Seq<(String, String)>, at: int)
    requires
        0 <= at < pairs.len(),
    ensures
        pairs_map(pairs.remove(at)).remove(pairs[at].0@) == pairs_map(pairs).remove(pairs[at].0@),
    decreases pairs.len(),
{
    let key = pairs[at].0@;
    let front = pairs.drop_last();
    if at == pairs.len() - 1 {
        assert(pairs.remove(at) == front);
        assert(pairs_map(front).insert(key, pairs[at].1@).remove(key) == pairs_map(front).remove(
            key,
        ));
    } else {
        let rest = pairs.remove(at);
        assert(rest.drop_last() == front.remove(at));
        assert(rest.last() == pairs.last());
        assert(front[at] == pairs[at]);
        lemma_without_pair(front, at);
        let k = pairs.last().0@;
        let v = pairs.last().1@;
        let a = pairs_map(front.remove(at));
        let b = pairs_map(front);
        if k == key {
            assert(a.insert(k, v).remove(key) == a.remove(key));
            assert(b.insert(k, v).remove(key) == b.remove(key));
        } else {
            assert(a.insert(k, v).remove(key) == a.remove(key).insert(k, v));
            assert(b.insert(k, v).remove(key) == b.remove(key).insert(k, v));
        }
    }
}

/// Pairs with the same texts give the same mapping.
proof fn lemma_same_texts(a: Seq<(String, String)>, b: Seq<(String, String)>)
    requires
        a.len() == b.len(),
        forall|i: int| 0 <= i < a.len() ==> a[i].0@ == b[i].0@ && a[i].1@ == b[i].1@,
    ensures
        pairs_map(a) == pairs_map(b),
    decreases a.len(),
{
    if a.len() > 0 {
        lemma_same_texts(a.drop_last(), b.drop_last());
    }
}

/// The declaration set of one package.
#[derive(Debug, Clone)]
pub struct Context {
    entries: Vec<(String, String)>,
}

impl View for Context {
    type V = Map<Seq<char>, Seq<char>>;

    closed spec fn view(&self) -> Map<Seq<char>, Seq<char>> {
        pairs_map(self.entries@)
    }
}

impl Context {
    /// A context without declarations.
    pub fn new() -> (r: Context)
        ensures
            r@ == Map::<Seq<char>, Seq<char>>::empty(),
    {
        Context { entries: Vec::new() }
    }

    /// The context that results from writing `pairs` in order.
    pub fn from_pairs(pairs: Vec<(String, String)>) -> (r: Context)
        ensures
            r@ == pairs_map(pairs@),
    {
        Context { entries: pairs }
    }

    /// Pairs that, written in order, give this context again.
    pub fn into_pairs(self) -> (r: Vec<(String, String)>)
        ensures
            pairs_map(r@) == self@,
    {
        self.entries
    }

    /// A context with the same declarations.
    pub fn copy(&self) -> (r: Context)
        ensures
            r@ == self@,
    {
        let mut entries: Vec<(String, String)> = Vec::new();
        let mut i: usize = 0;
        while i < self.entries.len()
            invariant
                i <= self.entries@.len(),
                entries@.len() == i,
                forall|k: int|
                    0 <= k < i ==> entries@[k].0@ == self.entries@[k].0@ && entries@[k].1@
                        == self.entries@[k].1@,
            decreases self.entries.len() - i,
        {
            let key = self.entries[i].0.clone();
            let value = self.entries[i].1.clone();
            entries.push((key, value));
            i += 1;
        }
        proof {
            lemma_same_texts(entries@, self.entries@);
        }
        Context { entries }
    }

    /// The index of the last pair that writes `key`, if any does.
    fn last_write(&self, key: &str) -> (r: Option<usize>)
        ensures
            match r {
                Some(at) => {
                    &&& at < self.entries@.len()
                    &&& self.entries@[at as int].0@ == key@
                    &&& self@.contains_key(key@)
                    &&& self@[key@] == self.entries@[at as int].1@
                },
                None => !self@.contains_key(key@),
            },
    {
        let mut i: usize = self.entries.len();
        while i > 0
            invariant
                i <= self.entries@.len(),
                forall|j: int| i <= j < self.entries@.len() ==> (#[trigger] self.entries@[j]).0@ != key@,
            decreases i,
        {
            i -= 1;
            if str_eq(self.entries[i].0.as_str(), key) {
                proof {
                    lemma_last_write_wins(self.entries@, i as int, key@);
                }
                return Some(i);
            }
        }
        proof {
            lemma_absent(self.entries@, key@);
        }
        None
    }

    /// The value declared for `key`, if there is one.
    pub fn get(&self, key: &str) -> (r: Option<&String>)
        ensures
            match r {
                Some(value) => self@.contains_key(key@) && self@[key@] == value@,
                None => !self@.contains_key(key@),
            },
    {
        match self.last_write(key) {
            Some(at) => Some(&self.entries[at].1),
            None => None,
        }
    }

    /// Whether `key` is declared.
    pub fn contains_key(&self, key: &str) -> (r: bool)
        ensures
            r == self@.contains_key(key@),
    {
        self.last_write(key).is_some()
    }

    /// Takes the declaration of `key` out and returns the value it had.
    pub fn remove(&mut self, key: &str) -> (r: Option<String>)
        ensures
            final(self)@ == old(self)@.remove(key@),
            match r {
                Some(value) => old(self)@.contains_key(key@) && old(self)@[key@] == value@,
                None => !old(self)@.contains_key(key@),
            },
    {
        let mut found: Option<String> = None;
        let mut i: usize = self.entries.len();
        while i > 0
            invariant
                i <= self.entries@.len(),
                forall|j: int| i <= j < self.entries@.len() ==> (#[trigger] self.entries@[j]).0@ != key@,
                pairs_map(self.entries@).remove(key@) == pairs_map(old(self).entries@).remove(key@),
                match found {
                    Some(value) => {
                        &&& pairs_map(old(self).entries@).contains_key(key@)
                        &&& pairs_map(old(self).entries@)[key@] == value@
                    },
                    None => self.entries@ == old(self).entries@,
                },
            decreases i,
        {
            i -= 1;
            if str_eq(self.entries[i].0.as_str(), key) {
                proof {
                    lemma_without_pair(self.entries@, i as int);
                    if found is None {
                        lemma_last_write_wins(self.entries@, i as int, key@);
                    }
                }
                let pair = self.entries.remove(i);
                if found.is_none() {
                    found = Some(pair.1);
                }
            }
        }
        proof {
            lemma_absent(self.entries@, key@);
            assert(pairs_map(self.entries@).remove(key@) == pairs_map(self.entries@));
        }
        found
    }

    /// Declares `value` for `key` and returns the value that `key` had.
    pub fn insert(&mut self, key: String, value: String) -> (r: Option<String>)
        ensures
            final(self)@ == old(self)@.insert(key@, value@),
            match r {
                Some(previous) => old(self)@.contains_key(key@) && old(self)@[key@] == previous@,
                None => !old(self)@.contains_key(key@),
            },
    {
        let previous = self.remove(key.as_str());
        let ghost before = self.entries@;
        self.entries.push((key, value));
        proof {
            assert(self.entries@.drop_last() == before);
            assert(old(self)@.remove(key@).insert(key@, value@) == old(self)@.insert(key@, value@));
        }
        previous
    }
}

} // verus!
