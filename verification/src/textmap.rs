//! A small map keyed by text, kept as a list of entries with distinct
//! keys; its meaning is a `Map` from the key's characters to the value.

use vstd::prelude::*;
use crate::text::{chars_eq, chars_of};

verus! {

/// No two entries share a key.
pub open spec fn keys_unique<V>(s: Seq<(String, V)>) -> bool {
    forall|i: int, j: int| 0 <= i < j < s.len() ==> (#[trigger] s[i]).0@ != (#[trigger] s[j]).0@
}

/// The map the entries stand for, later entries winning.
pub open spec fn map_of<V>(s: Seq<(String, V)>) -> Map<Seq<char>, V>
    decreases s.len(),
{
    if s.len() == 0 {
        Map::empty()
    } else {
        map_of(s.drop_last()).insert(s.last().0@, s.last().1)
    }
}

/// The map of a table with unique keys holds exactly its entries, one per
/// key.
pub proof fn lemma_map_of<V>(s: Seq<(String, V)>)
    requires
        keys_unique(s),
    ensures
        forall|k: Seq<char>| #[trigger] map_of(s).dom().contains(k) <==> exists|i: int| 0 <= i < s.len() && (#[trigger] s[i]).0@ == k,
        forall|i: int| 0 <= i < s.len() ==> #[trigger] map_of(s)[s[i].0@] == s[i].1,
        map_of(s).dom().finite(),
        map_of(s).dom().len() == s.len(),
    decreases s.len(),
{
    if s.len() > 0 {
        let t = s.drop_last();
        assert(keys_unique(t)) by {
            assert forall|i: int, j: int| 0 <= i < j < t.len() implies (#[trigger] t[i]).0@ != (#[trigger] t[j]).0@ by {
                assert(t[i] == s[i] && t[j] == s[j]);
            }
        }
        lemma_map_of(t);
        let last = s.last();
        assert(!map_of(t).dom().contains(last.0@)) by {
            if map_of(t).dom().contains(last.0@) {
                let i = choose|i: int| 0 <= i < t.len() && (#[trigger] t[i]).0@ == last.0@;
                assert(s[i] == t[i]);
                assert(s[s.len() - 1] == last);
            }
        }
        assert forall|k: Seq<char>| #[trigger] map_of(s).dom().contains(k) implies exists|i: int| 0 <= i < s.len() && (#[trigger] s[i]).0@ == k by {
            if k == last.0@ {
                assert(s[s.len() - 1].0@ == k);
            } else {
                let i = choose|i: int| 0 <= i < t.len() && (#[trigger] t[i]).0@ == k;
                assert(s[i] == t[i]);
            }
        }
        assert forall|k: Seq<char>| (exists|i: int| 0 <= i < s.len() && (#[trigger] s[i]).0@ == k) implies #[trigger] map_of(s).dom().contains(k) by {
            let i = choose|i: int| 0 <= i < s.len() && (#[trigger] s[i]).0@ == k;
            if i < s.len() - 1 {
                assert(t[i] == s[i]);
            }
        }
        assert forall|i: int| 0 <= i < s.len() implies #[trigger] map_of(s)[s[i].0@] == s[i].1 by {
            if i < s.len() - 1 {
                assert(t[i] == s[i]);
                assert(s[i].0@ != last.0@);
            }
        }
    } else {
        assert(map_of(s).dom() =~= Set::empty());
    }
}

/// The map of a well-formed table has a finite domain.
pub proof fn lemma_map_of_finite<V>(m: &TextMap<V>)
    requires
        m.wf(),
    ensures
        m.view().dom().finite(),
{
    lemma_map_of(m.entries@);
}

/// A map from texts to values with distinct keys.
pub struct TextMap<V> {
    entries: Vec<(String, V)>,
}

impl<V> TextMap<V> {
    pub closed spec fn view(&self) -> Map<Seq<char>, V> {
        map_of(self.entries@)
    }

    /// The keys are distinct.
    pub closed spec fn wf(&self) -> bool {
        keys_unique(self.entries@)
    }

    pub fn new() -> (m: TextMap<V>)
        ensures
            m.wf(),
            m.view() == Map::<Seq<char>, V>::empty(),
    {
        TextMap { entries: Vec::new() }
    }

    fn index_of(&self, key: &str) -> (r: Option<usize>)
        requires
            self.wf(),
        ensures
            match r {
                Some(i) => i < self.entries@.len() && self.entries@[i as int].0@ == key@,
                None => forall|i: int| 0 <= i < self.entries@.len() ==> (#[trigger] self.entries@[i]).0@ != key@,
            },
    {
        let k = chars_of(key);
        let n = self.entries.len();
        let mut i: usize = 0;
        while i < n
            invariant
                n == self.entries@.len(),
                i <= n,
                k@ == key@,
                forall|j: int| 0 <= j < i ==> (#[trigger] self.entries@[j]).0@ != key@,
            decreases n - i,
        {
            if chars_eq(&chars_of(self.entries[i].0.as_str()), &k) {
                return Some(i);
            }
            i = i + 1;
        }
        None
    }

    pub fn contains_key(&self, key: &str) -> (r: bool)
        requires
            self.wf(),
        ensures
            r == self.view().dom().contains(key@),
    {
        proof {
            lemma_map_of(self.entries@);
        }
        self.index_of(key).is_some()
    }

    pub fn get(&self, key: &str) -> (r: Option<&V>)
        requires
            self.wf(),
        ensures
            match r {
                Some(v) => self.view().dom().contains(key@) && *v == self.view()[key@],
                None => !self.view().dom().contains(key@),
            },
    {
        proof {
            lemma_map_of(self.entries@);
        }
        match self.index_of(key) {
            Some(i) => Some(&self.entries[i].1),
            None => None,
        }
    }

    /// Inserts `value` under `key`, replacing what the key held.
    pub fn insert(&mut self, key: String, value: V)
        requires
            old(self).wf(),
        ensures
            final(self).wf(),
            final(self).view() == old(self).view().insert(key@, value),
    {
        proof {
            lemma_map_of(self.entries@);
        }
        match self.index_of(key.as_str()) {
            Some(i) => {
                let ghost before = self.view();
                let ghost kv = key@;
                self.remove_at(i);
                self.push_new(key, value);
                assert(self.view() =~= before.insert(kv, value));
            },
            None => {
                self.push_new(key, value);
            },
        }
    }

    /// Drops the entry at position `i`.
    fn remove_at(&mut self, i: usize)
        requires
            old(self).wf(),
            i < old(self).entries@.len(),
        ensures
            final(self).wf(),
            final(self).view() == old(self).view().remove(old(self).entries@[i as int].0@),
            forall|j: int| 0 <= j < final(self).entries@.len() ==> (#[trigger] final(self).entries@[j]).0@ != old(self).entries@[i as int].0@,
    {
        let ghost s0 = self.entries@;
        let ghost kv = s0[i as int].0@;
        proof {
            lemma_map_of(s0);
        }
        self.entries.remove(i);
        let ghost s1 = self.entries@;
        assert(keys_unique(s1)) by {
            assert forall|a: int, b: int| 0 <= a < b < s1.len() implies (#[trigger] s1[a]).0@ != (#[trigger] s1[b]).0@ by {
                let a0 = if a < i { a } else { a + 1 };
                let b0 = if b < i { b } else { b + 1 };
                assert(s1[a] == s0[a0] && s1[b] == s0[b0]);
            }
        }
        assert forall|j: int| 0 <= j < s1.len() implies (#[trigger] s1[j]).0@ != kv by {
            let j0 = if j < i { j } else { j + 1 };
            assert(s1[j] == s0[j0]);
        }
        proof {
            lemma_map_of(s1);
        }
        assert(map_of(s1) =~= map_of(s0).remove(kv)) by {
            assert forall|k: Seq<char>| #[trigger] map_of(s1).dom().contains(k) <==> map_of(s0).remove(kv).dom().contains(k) by {
                if map_of(s1).dom().contains(k) {
                    let j = choose|j: int| 0 <= j < s1.len() && (#[trigger] s1[j]).0@ == k;
                    let j0 = if j < i { j } else { j + 1 };
                    assert(s1[j] == s0[j0]);
                }
                if map_of(s0).remove(kv).dom().contains(k) {
                    let j = choose|j: int| 0 <= j < s0.len() && (#[trigger] s0[j]).0@ == k;
                    assert(j != i);
                    let j1 = if j < i { j } else { j - 1 };
                    assert(s1[j1] == s0[j]);
                }
            }
            assert forall|k: Seq<char>| #[trigger] map_of(s1).dom().contains(k) implies map_of(s1)[k] == map_of(s0)[k] by {
                let j = choose|j: int| 0 <= j < s1.len() && (#[trigger] s1[j]).0@ == k;
                let j0 = if j < i { j } else { j + 1 };
                assert(s1[j] == s0[j0]);
            }
        }
    }

    /// Removes `key`; says whether it was there.
    pub fn remove(&mut self, key: &str) -> (found: bool)
        requires
            old(self).wf(),
        ensures
            final(self).wf(),
            found == old(self).view().dom().contains(key@),
            final(self).view() == old(self).view().remove(key@),
    {
        proof {
            lemma_map_of(self.entries@);
        }
        match self.index_of(key) {
            Some(i) => {
                self.remove_at(i);
                true
            },
            None => {
                assert(self.view() =~= self.view().remove(key@));
                false
            },
        }
    }

    /// Removes every entry.
    pub fn clear(&mut self)
        ensures
            final(self).wf(),
            final(self).view() == Map::<Seq<char>, V>::empty(),
    {
        self.entries = Vec::new();
        assert(map_of(self.entries@) =~= Map::<Seq<char>, V>::empty());
    }

    fn push_new(&mut self, key: String, value: V)
        requires
            old(self).wf(),
            forall|i: int| 0 <= i < old(self).entries@.len() ==> (#[trigger] old(self).entries@[i]).0@ != key@,
        ensures
            final(self).wf(),
            final(self).view() == old(self).view().insert(key@, value),
    {
        let ghost s0 = self.entries@;
        self.entries.push((key, value));
        assert(self.entries@.drop_last() =~= s0);
        assert(keys_unique(self.entries@)) by {
            let s1 = self.entries@;
            assert forall|a: int, b: int| 0 <= a < b < s1.len() implies (#[trigger] s1[a]).0@ != (#[trigger] s1[b]).0@ by {
                assert(s1[a] == s0[a]);
                if b < s0.len() {
                    assert(s1[b] == s0[b]);
                }
            }
        }
    }

    /// Inserts `value` under `key` only when the key is not there yet.
    pub fn insert_if_absent(&mut self, key: String, value: V)
        requires
            old(self).wf(),
        ensures
            final(self).wf(),
            final(self).view() == if old(self).view().dom().contains(key@) {
                old(self).view()
            } else {
                old(self).view().insert(key@, value)
            },
    {
        proof {
            lemma_map_of(self.entries@);
        }
        match self.index_of(key.as_str()) {
            Some(_) => {},
            None => {
                self.push_new(key, value);
            },
        }
    }

    pub fn len(&self) -> (n: usize)
        requires
            self.wf(),
        ensures
            n == self.view().dom().len(),
    {
        proof {
            lemma_map_of(self.entries@);
        }
        self.entries.len()
    }
}

} // verus!
