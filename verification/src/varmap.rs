//! A map from names to text values, kept as a list of distinct keys.
use vstd::prelude::*;
use crate::text::{chars_eq, from_chars, to_chars};

verus! {

/// A finite map from character strings to character strings.
pub struct VarMap {
    entries: Vec<(Vec<char>, Vec<char>)>,
}

impl VarMap {
    /// No key occurs twice.
    #[verifier::type_invariant]
    closed spec fn keys_distinct(self) -> bool {
        forall|i: int, j: int|
            0 <= i < self.entries@.len() && 0 <= j < self.entries@.len() && i != j
                ==> #[trigger] self.entries@[i].0@ != #[trigger] self.entries@[j].0@
    }

    closed spec fn has_key_at(self, k: Seq<char>, i: int) -> bool {
        0 <= i < self.entries@.len() && self.entries@[i].0@ == k
    }

    /// The map that the entries denote.
    pub closed spec fn map(self) -> Map<Seq<char>, Seq<char>> {
        Map::new(
            |k: Seq<char>| exists|i: int| self.has_key_at(k, i),
            |k: Seq<char>| self.entries@[choose|i: int| self.has_key_at(k, i)].1@,
        )
    }

    /// The number of keys.
    pub closed spec fn spec_len(self) -> nat {
        self.entries@.len()
    }

    proof fn lemma_value_at(self, i: int)
        requires
            self.keys_distinct(),
            0 <= i < self.entries@.len(),
        ensures
            self.map().dom().contains(self.entries@[i].0@),
            self.map()[self.entries@[i].0@] == self.entries@[i].1@,
    {
        let k = self.entries@[i].0@;
        assert(self.has_key_at(k, i));
        let j = choose|j: int| self.has_key_at(k, j);
        assert(self.has_key_at(k, j));
        assert(i == j);
    }


    pub fn len(&self) -> (n: usize)
        ensures
            n == self.spec_len(),
    {
        self.entries.len()
    }

    /// Every key with its value, each key once.
    pub fn entries(&self) -> (r: Vec<(Vec<char>, Vec<char>)>)
        ensures
            r@.len() == self.spec_len(),
            forall|i: int| #![trigger r@[i]]
                0 <= i < r@.len() ==> self.map().dom().contains(r@[i].0@) && self.map()[r@[i].0@]
                    == r@[i].1@,
            forall|k: Seq<char>| #[trigger]
                self.map().dom().contains(k) ==> exists|i: int| 0 <= i < r@.len() && r@[i].0@ == k,
            forall|i: int, j: int|
                0 <= i < r@.len() && 0 <= j < r@.len() && i != j ==> #[trigger] r@[i].0@
                    != #[trigger] r@[j].0@,
    {
        proof {
            use_type_invariant(self);
        }
        let mut r: Vec<(Vec<char>, Vec<char>)> = Vec::new();
        let mut n: usize = 0;
        while n < self.entries.len()
            invariant
                n <= self.entries@.len(),
                r@.len() == n,
                forall|i: int| #![trigger r@[i]]
                    0 <= i < n ==> r@[i].0@ == self.entries@[i].0@ && r@[i].1@
                        == self.entries@[i].1@,
            decreases self.entries.len() - n,
        {
            let k = self.entries[n].0.clone();
            let v = self.entries[n].1.clone();
            r.push((k, v));
            n += 1;
        }
        proof {
            assert forall|i: int| 0 <= i < r@.len() implies self.map().dom().contains(r@[i].0@)
                && self.map()[r@[i].0@] == r@[i].1@ by {
                self.lemma_value_at(i);
            }
            assert forall|k: Seq<char>| #[trigger]
                self.map().dom().contains(k) implies exists|i: int|
                0 <= i < r@.len() && r@[i].0@ == k by {
                let j = choose|j: int| self.has_key_at(k, j);
                assert(r@[j].0@ == k);
            }
            assert forall|i: int, j: int|
                0 <= i < r@.len() && 0 <= j < r@.len() && i != j implies #[trigger] r@[i].0@
                    != #[trigger] r@[j].0@ by {
                assert(self.entries@[i].0@ != self.entries@[j].0@);
            }
        }
        r
    }

    pub fn new() -> (m: Self)
        ensures
            m.map() == Map::<Seq<char>, Seq<char>>::empty(),
            m.spec_len() == 0,
    {
        let m = VarMap { entries: Vec::new() };
        assert(m.map() =~= Map::<Seq<char>, Seq<char>>::empty());
        m
    }

    fn index_of(&self, key: &[char]) -> (r: Option<usize>)
        ensures
            r matches Some(i) ==> self.has_key_at(key@, i as int),
            r is None ==> forall|i: int| !self.has_key_at(key@, i),
    {
        let mut i: usize = 0;
        while i < self.entries.len()
            invariant
                i <= self.entries@.len(),
                forall|j: int| 0 <= j < i ==> !self.has_key_at(key@, j),
            decreases self.entries.len() - i,
        {
            if chars_eq(self.entries[i].0.as_slice(), key) {
                return Some(i);
            }
            i += 1;
        }
        None
    }

    pub fn contains_key(&self, key: &[char]) -> (r: bool)
        ensures
            r == self.map().dom().contains(key@),
    {
        self.index_of(key).is_some()
    }

    pub fn get(&self, key: &[char]) -> (r: Option<Vec<char>>)
        ensures
            r matches Some(v) ==> self.map().dom().contains(key@) && self.map()[key@] == v@,
            r is None ==> !self.map().dom().contains(key@),
    {
        proof {
            use_type_invariant(self);
        }
        match self.index_of(key) {
            Some(i) => {
                proof {
                    self.lemma_value_at(i as int);
                }
                Some(self.entries[i].1.clone())
            },
            None => None,
        }
    }

    /// Sets `key` to `value`, replacing what it was set to.
    pub fn insert(&mut self, key: Vec<char>, value: Vec<char>)
        ensures
            final(self).map() == old(self).map().insert(key@, value@),
            final(self).spec_len() == old(self).spec_len() + if old(self).map().dom().contains(
                key@,
            ) {
                0int
            } else {
                1int
            },
    {
        proof {
            use_type_invariant(&*self);
        }
        let ghost old_self = *self;
        match self.index_of(key.as_slice()) {
            Some(i) => {
                let mut entries: Vec<(Vec<char>, Vec<char>)> = Vec::new();
                std::mem::swap(&mut entries, &mut self.entries);
                let ghost pre = entries@;
                entries.set(i, (key, value));
                proof {
                    assert forall|a: int, b: int|
                        0 <= a < entries@.len() && 0 <= b < entries@.len() && a != b implies
                        #[trigger] entries@[a].0@ != #[trigger] entries@[b].0@ by {
                        assert(pre[a].0@ != pre[b].0@ || a == b);
                    }
                }
                *self = VarMap { entries };
                proof {
                    let new_self = *self;
                    assert forall|k: Seq<char>| #[trigger]
                        new_self.map().dom().contains(k) == old_self.map().insert(
                            key@,
                            value@,
                        ).dom().contains(k) by {
                        if old_self.map().dom().contains(k) {
                            let j = choose|j: int| old_self.has_key_at(k, j);
                            assert(new_self.has_key_at(k, j) || k == key@);
                        }
                        if new_self.map().dom().contains(k) && k != key@ {
                            let j = choose|j: int| new_self.has_key_at(k, j);
                            assert(old_self.has_key_at(k, j));
                        }
                        if k == key@ {
                            assert(new_self.has_key_at(k, i as int));
                        }
                    }
                    assert forall|k: Seq<char>| #[trigger]
                        new_self.map().dom().contains(k) implies new_self.map()[k]
                        == old_self.map().insert(key@, value@)[k] by {
                        let j = choose|j: int| new_self.has_key_at(k, j);
                        new_self.lemma_value_at(j);
                        if j != i {
                            old_self.lemma_value_at(j);
                        }
                    }
                    assert(new_self.map() =~= old_self.map().insert(key@, value@));
                }
            },
            None => {
                let mut entries: Vec<(Vec<char>, Vec<char>)> = Vec::new();
                std::mem::swap(&mut entries, &mut self.entries);
                let ghost pre = entries@;
                entries.push((key, value));
                proof {
                    assert forall|a: int, b: int|
                        0 <= a < entries@.len() && 0 <= b < entries@.len() && a != b implies
                        #[trigger] entries@[a].0@ != #[trigger] entries@[b].0@ by {
                        if a < pre.len() && b < pre.len() {
                            assert(pre[a].0@ != pre[b].0@);
                        } else if a < pre.len() {
                            assert(!old_self.has_key_at(key@, a));
                        } else {
                            assert(!old_self.has_key_at(key@, b));
                        }
                    }
                }
                *self = VarMap { entries };
                proof {
                    let new_self = *self;
                    let n = pre.len() as int;
                    assert forall|k: Seq<char>| #[trigger]
                        new_self.map().dom().contains(k) == old_self.map().insert(
                            key@,
                            value@,
                        ).dom().contains(k) by {
                        if old_self.map().dom().contains(k) {
                            let j = choose|j: int| old_self.has_key_at(k, j);
                            assert(new_self.has_key_at(k, j));
                        }
                        if new_self.map().dom().contains(k) && k != key@ {
                            let j = choose|j: int| new_self.has_key_at(k, j);
                            assert(old_self.has_key_at(k, j));
                        }
                        if k == key@ {
                            assert(new_self.has_key_at(k, n));
                        }
                    }
                    assert forall|k: Seq<char>| #[trigger]
                        new_self.map().dom().contains(k) implies new_self.map()[k]
                        == old_self.map().insert(key@, value@)[k] by {
                        let j = choose|j: int| new_self.has_key_at(k, j);
                        new_self.lemma_value_at(j);
                        if j != n {
                            old_self.lemma_value_at(j);
                        }
                    }
                    assert(new_self.map() =~= old_self.map().insert(key@, value@));
                }
            },
        }
    }
}

impl VarMap {
    /// The value of `key`.
    pub fn get_str(&self, key: &str) -> (r: Option<String>)
        ensures
            r matches Some(v) ==> self.map().dom().contains(key@) && self.map()[key@] == v@,
            r is None ==> !self.map().dom().contains(key@),
    {
        let k = to_chars(key);
        match self.get(k.as_slice()) {
            Some(v) => Some(from_chars(v.as_slice())),
            None => None,
        }
    }

    /// Sets `key` to `value`.
    pub fn insert_str(&mut self, key: &str, value: &str)
        ensures
            final(self).map() == old(self).map().insert(key@, value@),
    {
        self.insert(to_chars(key), to_chars(value));
    }

    /// Every key with its value as strings, each key once.
    pub fn pairs(&self) -> (r: Vec<(String, String)>)
        ensures
            r@.len() == self.spec_len(),
            forall|i: int| #![trigger r@[i]]
                0 <= i < r@.len() ==> self.map().dom().contains(r@[i].0@) && self.map()[r@[i].0@]
                    == r@[i].1@,
            forall|k: Seq<char>| #[trigger]
                self.map().dom().contains(k) ==> exists|i: int| 0 <= i < r@.len() && r@[i].0@ == k,
    {
        let es = self.entries();
        let mut r: Vec<(String, String)> = Vec::new();
        let mut i: usize = 0;
        while i < es.len()
            invariant
                i <= es@.len(),
                r@.len() == i,
                forall|j: int| #![trigger r@[j]]
                    0 <= j < i ==> r@[j].0@ == es@[j].0@ && r@[j].1@ == es@[j].1@,
            decreases es.len() - i,
        {
            r.push((from_chars(es[i].0.as_slice()), from_chars(es[i].1.as_slice())));
            i += 1;
        }
        proof {
            assert forall|k: Seq<char>| #[trigger]
                self.map().dom().contains(k) implies exists|i: int| 0 <= i < r@.len() && r@[i].0@
                == k by {
                let j = choose|j: int| 0 <= j < es@.len() && es@[j].0@ == k;
                assert(r@[j].0@ == k);
            }
        }
        r
    }
}

} // verus!
