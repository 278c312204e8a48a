//! The keyed record store: a mapping from string key to record value with
//! unique keys, supporting insert-or-replace, point lookup, removal and
//! full enumeration. It abstracts to a `Map` from key view to value view.

use vstd::prelude::*;

verus! {

/// No two entries share a key.
pub open spec fn distinct_keys<V>(s: Seq<(String, V)>) -> bool {
    forall|i: int, j: int| 0 <= i < j < s.len() ==> s[i].0@ != s[j].0@
}

/// The map a sequence of key-value entries denotes; later entries win.
pub open spec fn map_of<V: View>(s: Seq<(String, V)>) -> Map<Seq<char>, V::V>
    decreases s.len(),
{
    if s.len() == 0 {
        Map::empty()
    } else {
        map_of(s.drop_last()).insert(s.last().0@, s.last().1@)
    }
}

pub proof fn lemma_map_of_contains<V: View>(s: Seq<(String, V)>, k: Seq<char>)
    ensures
        map_of(s).contains_key(k) <==> exists|i: int| 0 <= i < s.len() && s[i].0@ == k,
    decreases s.len(),
{
    if s.len() > 0 {
        lemma_map_of_contains(s.drop_last(), k);
        if s.last().0@ == k {
            assert(s[s.len() - 1].0@ == k);
        } else if map_of(s).contains_key(k) {
            let i = choose|i: int| 0 <= i < s.drop_last().len() && s.drop_last()[i].0@ == k;
            assert(s[i].0@ == k);
        } else {
            assert forall|i: int| 0 <= i < s.len() implies s[i].0@ != k by {
                if i < s.len() - 1 {
                    assert(s.drop_last()[i].0@ == s[i].0@);
                }
            }
        }
    }
}

pub proof fn lemma_map_of_index<V: View>(s: Seq<(String, V)>, k: Seq<char>, i: int)
    requires
        distinct_keys(s),
        0 <= i < s.len(),
        s[i].0@ == k,
    ensures
        map_of(s).contains_key(k),
        map_of(s)[k] == s[i].1@,
    decreases s.len(),
{
    if i == s.len() - 1 {
    } else {
        assert(s.drop_last()[i] == s[i]);
        lemma_map_of_index(s.drop_last(), k, i);
        assert(s.last().0@ != k);
    }
}

pub proof fn lemma_map_of_finite<V: View>(s: Seq<(String, V)>)
    ensures
        map_of(s).dom().finite(),
    decreases s.len(),
{
    if s.len() > 0 {
        lemma_map_of_finite(s.drop_last());
    }
}

pub proof fn lemma_map_of_len<V: View>(s: Seq<(String, V)>)
    requires
        distinct_keys(s),
    ensures
        map_of(s).dom().finite(),
        map_of(s).dom().len() == s.len(),
    decreases s.len(),
{
    lemma_map_of_finite(s);
    if s.len() > 0 {
        let d = s.drop_last();
        assert(distinct_keys(d)) by {
            assert forall|i: int, j: int| 0 <= i < j < d.len() implies d[i].0@ != d[j].0@ by {
                assert(d[i] == s[i] && d[j] == s[j]);
            }
        }
        lemma_map_of_len(d);
        lemma_map_of_contains(d, s.last().0@);
        assert forall|i: int| 0 <= i < d.len() implies d[i].0@ != s.last().0@ by {
            assert(d[i] == s[i] && s.last() == s[s.len() - 1]);
        }
        assert(!map_of(d).contains_key(s.last().0@));
        assert(map_of(s).dom() =~= map_of(d).dom().insert(s.last().0@));
    } else {
        assert(map_of(s).dom() =~= Set::<Seq<char>>::empty());
    }
}

pub proof fn lemma_map_of_push<V: View>(s: Seq<(String, V)>, e: (String, V))
    ensures
        map_of(s.push(e)) == map_of(s).insert(e.0@, e.1@),
{
    assert(s.push(e).drop_last() =~= s);
    assert(s.push(e).last() == e);
}

pub proof fn lemma_map_of_update<V: View>(s: Seq<(String, V)>, i: int, e: (String, V))
    requires
        distinct_keys(s),
        0 <= i < s.len(),
        s[i].0@ == e.0@,
    ensures
        distinct_keys(s.update(i, e)),
        map_of(s.update(i, e)) == map_of(s).insert(e.0@, e.1@),
    decreases s.len(),
{
    let t = s.update(i, e);
    assert forall|a: int, b: int| 0 <= a < b < t.len() implies t[a].0@ != t[b].0@ by {
        assert(s[a].0@ != s[b].0@);
    }
    assert forall|k: Seq<char>|
        map_of(t).contains_key(k) <==> map_of(s).insert(e.0@, e.1@).contains_key(k) by {
        lemma_map_of_contains(t, k);
        lemma_map_of_contains(s, k);
        if exists|a: int| 0 <= a < t.len() && t[a].0@ == k {
            let a = choose|a: int| 0 <= a < t.len() && t[a].0@ == k;
            assert(s[a].0@ == k || k == e.0@);
        }
        if exists|a: int| 0 <= a < s.len() && s[a].0@ == k {
            let a = choose|a: int| 0 <= a < s.len() && s[a].0@ == k;
            assert(t[a].0@ == k || k == e.0@);
            assert(t[i].0@ == e.0@);
        }
        assert(t[i].0@ == e.0@);
    }
    assert forall|k: Seq<char>| #[trigger] map_of(t).contains_key(k) implies map_of(t)[k]
        == map_of(s).insert(e.0@, e.1@)[k] by {
        if k == e.0@ {
            lemma_map_of_index(t, k, i);
        } else {
            lemma_map_of_contains(t, k);
            let a = choose|a: int| 0 <= a < t.len() && t[a].0@ == k;
            assert(a != i);
            assert(t[a] == s[a]);
            lemma_map_of_index(t, k, a);
            lemma_map_of_index(s, k, a);
        }
    }
    assert(map_of(t) =~= map_of(s).insert(e.0@, e.1@));
}

pub proof fn lemma_map_of_remove<V: View>(s: Seq<(String, V)>, i: int)
    requires
        distinct_keys(s),
        0 <= i < s.len(),
    ensures
        distinct_keys(s.remove(i)),
        map_of(s.remove(i)) == map_of(s).remove(s[i].0@),
{
    let t = s.remove(i);
    s.remove_ensures(i);
    assert forall|a: int, b: int| 0 <= a < b < t.len() implies t[a].0@ != t[b].0@ by {
        let a2: int = if a < i { a } else { a + 1 };
        let b2: int = if b < i { b } else { b + 1 };
        assert(t[a] == s[a2] && t[b] == s[b2]);
        assert(s[a2].0@ != s[b2].0@);
    }
    assert forall|k: Seq<char>|
        map_of(t).contains_key(k) <==> map_of(s).remove(s[i].0@).contains_key(k) by {
        lemma_map_of_contains(t, k);
        lemma_map_of_contains(s, k);
        if exists|a: int| 0 <= a < t.len() && t[a].0@ == k {
            let a = choose|a: int| 0 <= a < t.len() && t[a].0@ == k;
            let a2: int = if a < i { a } else { a + 1 };
            assert(s[a2].0@ == k);
            assert(k != s[i].0@);
        }
        if exists|a: int| 0 <= a < s.len() && s[a].0@ == k && k != s[i].0@ {
            let a = choose|a: int| 0 <= a < s.len() && s[a].0@ == k;
            assert(a != i);
            let a2: int = if a < i { a } else { a - 1 };
            assert(t[a2] == s[a]);
        }
    }
    assert forall|k: Seq<char>| #[trigger] map_of(t).contains_key(k) implies map_of(t)[k]
        == map_of(s).remove(s[i].0@)[k] by {
        lemma_map_of_contains(t, k);
        let a = choose|a: int| 0 <= a < t.len() && t[a].0@ == k;
        let a2: int = if a < i { a } else { a + 1 };
        assert(t[a] == s[a2]);
        lemma_map_of_index(t, k, a);
        lemma_map_of_index(s, k, a2);
        assert(k != s[i].0@);
    }
    assert(map_of(t) =~= map_of(s).remove(s[i].0@));
}

/// A mapping from string key to record value, guaranteeing unique keys.
pub struct KeyedStore<V> {
    pub entries: Vec<(String, V)>,
}

impl<V: View> View for KeyedStore<V> {
    type V = Map<Seq<char>, V::V>;

    open spec fn view(&self) -> Map<Seq<char>, V::V> {
        map_of(self.entries@)
    }
}

impl<V: View> KeyedStore<V> {
    /// The store's keys are unique.
    pub open spec fn wf(&self) -> bool {
        distinct_keys(self.entries@)
    }

    pub fn new() -> (s: Self)
        ensures
            s.wf(),
            s@ == Map::<Seq<char>, V::V>::empty(),
            s.entries@.len() == 0,
    {
        KeyedStore { entries: Vec::new() }
    }

    fn find_index(&self, key: &String) -> (r: Option<usize>)
        ensures
            match r {
                Some(i) => i < self.entries@.len() && self.entries@[i as int].0@ == key@,
                None => forall|j: int| 0 <= j < self.entries@.len() ==> self.entries@[j].0@ != key@,
            },
    {
        let mut i: usize = 0;
        while i < self.entries.len()
            invariant
                i <= self.entries@.len(),
                forall|j: int| 0 <= j < i ==> self.entries@[j].0@ != key@,
            decreases self.entries@.len() - i,
        {
            if self.entries[i].0 == *key {
                return Some(i);
            }
            i += 1;
        }
        None
    }

    /// Point lookup.
    pub fn get(&self, key: &String) -> (r: Option<&V>)
        requires
            self.wf(),
        ensures
            match r {
                Some(v) => self@.contains_key(key@) && v@ == self@[key@],
                None => !self@.contains_key(key@),
            },
    {
        proof {
            lemma_map_of_contains(self.entries@, key@);
        }
        match self.find_index(key) {
            Some(i) => {
                proof {
                    lemma_map_of_index(self.entries@, key@, i as int);
                }
                Some(&self.entries[i].1)
            },
            None => None,
        }
    }

    /// Whether a record is stored under `key`.
    pub fn contains(&self, key: &String) -> (r: bool)
        requires
            self.wf(),
        ensures
            r == self@.contains_key(key@),
    {
        proof {
            lemma_map_of_contains(self.entries@, key@);
        }
        self.find_index(key).is_some()
    }

    /// Insert-or-replace.
    pub fn insert(&mut self, key: String, value: V)
        requires
            old(self).wf(),
        ensures
            final(self).wf(),
            final(self)@ == old(self)@.insert(key@, value@),
            final(self).entries@.len() <= old(self).entries@.len() + 1,
    {
        match self.find_index(&key) {
            Some(i) => {
                proof {
                    lemma_map_of_update(self.entries@, i as int, (key, value));
                }
                self.entries[i] = (key, value);
            },
            None => {
                proof {
                    lemma_map_of_push(self.entries@, (key, value));
                }
                self.entries.push((key, value));
                proof {
                    assert forall|a: int, b: int|
                        0 <= a < b < self.entries@.len() implies self.entries@[a].0@
                        != self.entries@[b].0@ by {
                        if b < self.entries@.len() - 1 {
                            assert(old(self).entries@[a].0@ != old(self).entries@[b].0@);
                        }
                    }
                }
            },
        }
    }

    /// Removal by key; absence is a no-op.
    pub fn remove(&mut self, key: &String)
        requires
            old(self).wf(),
        ensures
            final(self).wf(),
            final(self)@ == old(self)@.remove(key@),
            final(self).entries@.len() <= old(self).entries@.len(),
    {
        proof {
            lemma_map_of_contains(self.entries@, key@);
        }
        match self.find_index(key) {
            Some(i) => {
                proof {
                    lemma_map_of_remove(self.entries@, i as int);
                }
                let _removed = self.entries.remove(i);
            },
            None => {
                proof {
                    assert(self@ =~= old(self)@.remove(key@));
                }
            },
        }
    }

    /// How many records the store holds.
    pub fn len(&self) -> (r: usize)
        requires
            self.wf(),
        ensures
            r == self@.dom().len(),
            r == self.entries@.len(),
    {
        proof {
            lemma_map_of_len(self.entries@);
        }
        self.entries.len()
    }

    /// The `i`-th entry, for enumeration; together with `len`, callers see
    /// every key exactly once.
    pub fn nth(&self, i: usize) -> (r: &(String, V))
        requires
            self.wf(),
            i < self.entries@.len(),
        ensures
            r == self.entries@[i as int],
            self@.contains_key(r.0@),
            self@[r.0@] == r.1@,
    {
        proof {
            lemma_map_of_index(self.entries@, self.entries@[i as int].0@, i as int);
        }
        &self.entries[i]
    }

    /// Every key in the abstraction stands at some entry index.
    pub proof fn lemma_enumeration_complete(&self, k: Seq<char>)
        requires
            self.wf(),
            self@.contains_key(k),
        ensures
            exists|i: int|
                0 <= i < self.entries@.len() && self.entries@[i].0@ == k && self.entries@[i].1@
                    == self@[k],
    {
        lemma_map_of_contains(self.entries@, k);
        let i = choose|i: int| 0 <= i < self.entries@.len() && self.entries@[i].0@ == k;
        lemma_map_of_index(self.entries@, k, i);
    }
}

} // verus!
