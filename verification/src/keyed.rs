//! An ordered list of entries keyed by strings, each key at most once.

use vstd::prelude::*;
use crate::text::str_eq;

verus! {

/// Whether no key occurs twice among the entries.
pub open spec fn keys_unique<V>(s: Seq<(String, V)>) -> bool {
    forall|i: int, j: int| 0 <= i < j < s.len() ==> s[i].0@ != s[j].0@
}

/// Whether some entry has key `k`.
pub open spec fn has_key<V>(s: Seq<(String, V)>, k: Seq<char>) -> bool {
    exists|i: int| 0 <= i < s.len() && #[trigger] s[i].0@ == k
}

/// The map from keys to values that the entries denote.
pub open spec fn entries_map<V>(s: Seq<(String, V)>) -> Map<Seq<char>, V> {
    Map::new(
        |k: Seq<char>| has_key(s, k),
        |k: Seq<char>| s[choose|i: int| 0 <= i < s.len() && #[trigger] s[i].0@ == k].1,
    )
}

/// Only finitely many keys occur among the entries.
pub proof fn lemma_keys_finite<V>(s: Seq<(String, V)>)
    ensures
        Set::new(|k: Seq<char>| has_key(s, k)).finite(),
    decreases s.len(),
{
    if s.len() == 0 {
        assert(Set::new(|k: Seq<char>| has_key(s, k)) =~= Set::<Seq<char>>::empty());
    } else {
        let t = s.drop_last();
        lemma_keys_finite(t);
        assert forall|k: Seq<char>| has_key(s, k) == (has_key(t, k) || k == s.last().0@) by {
            if has_key(s, k) {
                let i = choose|i: int| 0 <= i < s.len() && #[trigger] s[i].0@ == k;
                if i < t.len() {
                    assert(t[i].0@ == k);
                }
            }
            if has_key(t, k) {
                let i = choose|i: int| 0 <= i < t.len() && #[trigger] t[i].0@ == k;
                assert(s[i].0@ == k);
            }
            if k == s.last().0@ {
                assert(s[s.len() - 1].0@ == k);
            }
        }
        assert(Set::new(|k: Seq<char>| has_key(s, k)) =~= Set::new(|k: Seq<char>| has_key(t, k)).insert(
            s.last().0@,
        ));
    }
}

/// The entry at index `i` is what the map holds under its key.
pub proof fn lemma_entry_in_map<V>(s: Seq<(String, V)>, i: int)
    requires
        keys_unique(s),
        0 <= i < s.len(),
    ensures
        entries_map(s).contains_key(s[i].0@),
        entries_map(s)[s[i].0@] == s[i].1,
{
    assert(has_key(s, s[i].0@));
    let j = choose|j: int| 0 <= j < s.len() && #[trigger] s[j].0@ == s[i].0@;
    if j != i {
        if j < i {
            assert(s[j].0@ != s[i].0@);
        } else {
            assert(s[i].0@ != s[j].0@);
        }
    }
}

proof fn lemma_push_absent<V>(s: Seq<(String, V)>, key: String, value: V)
    requires
        keys_unique(s),
        !has_key(s, key@),
    ensures
        keys_unique(s.push((key, value))),
        entries_map(s.push((key, value))) == entries_map(s).insert(key@, value),
{
    let t = s.push((key, value));
    assert forall|i: int, j: int| 0 <= i < j < t.len() implies t[i].0@ != t[j].0@ by {
        if j == s.len() {
            assert(s[i].0@ != key@);
        } else {
            assert(t[i] == s[i] && t[j] == s[j]);
        }
    }
    assert forall|k: Seq<char>| #[trigger] has_key(t, k) == (has_key(s, k) || k == key@) by {
        if has_key(t, k) {
            let i = choose|i: int| 0 <= i < t.len() && #[trigger] t[i].0@ == k;
            if i < s.len() {
                assert(s[i].0@ == k);
            }
        }
        if has_key(s, k) {
            let i = choose|i: int| 0 <= i < s.len() && #[trigger] s[i].0@ == k;
            assert(t[i].0@ == k);
        }
        if k == key@ {
            assert(t[s.len() as int].0@ == k);
        }
    }
    assert forall|k: Seq<char>| #[trigger] entries_map(t).contains_key(k) implies entries_map(t)[k]
        == entries_map(s).insert(key@, value)[k] by {
        if k == key@ {
            lemma_entry_in_map(t, s.len() as int);
        } else {
            let i = choose|i: int| 0 <= i < s.len() && #[trigger] s[i].0@ == k;
            lemma_entry_in_map(s, i);
            assert(t[i] == s[i]);
            lemma_entry_in_map(t, i);
        }
    }
    assert(entries_map(t) =~= entries_map(s).insert(key@, value));
}

proof fn lemma_update_at<V>(s: Seq<(String, V)>, i: int, key: String, value: V)
    requires
        keys_unique(s),
        0 <= i < s.len(),
        s[i].0@ == key@,
    ensures
        keys_unique(s.update(i, (key, value))),
        entries_map(s.update(i, (key, value))) == entries_map(s).insert(key@, value),
{
    let t = s.update(i, (key, value));
    assert forall|a: int, b: int| 0 <= a < b < t.len() implies t[a].0@ != t[b].0@ by {
        assert(t[a].0@ == s[a].0@ && t[b].0@ == s[b].0@);
    }
    assert forall|k: Seq<char>| #[trigger] has_key(t, k) == has_key(s, k) by {
        if has_key(t, k) {
            let a = choose|a: int| 0 <= a < t.len() && #[trigger] t[a].0@ == k;
            assert(s[a].0@ == k);
        }
        if has_key(s, k) {
            let a = choose|a: int| 0 <= a < s.len() && #[trigger] s[a].0@ == k;
            assert(t[a].0@ == k);
        }
    }
    lemma_entry_in_map(s, i);
    assert forall|k: Seq<char>| #[trigger] entries_map(t).contains_key(k) implies entries_map(t)[k]
        == entries_map(s).insert(key@, value)[k] by {
        let a = choose|a: int| 0 <= a < t.len() && #[trigger] t[a].0@ == k;
        lemma_entry_in_map(t, a);
        if a != i {
            lemma_entry_in_map(s, a);
        }
    }
    assert(entries_map(t) =~= entries_map(s).insert(key@, value));
}

proof fn lemma_remove_at<V>(s: Seq<(String, V)>, i: int)
    requires
        keys_unique(s),
        0 <= i < s.len(),
    ensures
        keys_unique(s.remove(i)),
        entries_map(s.remove(i)) == entries_map(s).remove(s[i].0@),
{
    let t = s.remove(i);
    let key = s[i].0@;
    assert forall|a: int, b: int| 0 <= a < b < t.len() implies t[a].0@ != t[b].0@ by {
        let a2 = if a < i { a } else { a + 1 };
        let b2 = if b < i { b } else { b + 1 };
        assert(t[a] == s[a2] && t[b] == s[b2]);
    }
    assert forall|k: Seq<char>| #[trigger] has_key(t, k) == (has_key(s, k) && k != key) by {
        if has_key(t, k) {
            let a = choose|a: int| 0 <= a < t.len() && #[trigger] t[a].0@ == k;
            let a2 = if a < i { a } else { a + 1 };
            assert(t[a] == s[a2]);
            assert(s[a2].0@ == k);
            assert(a2 != i);
            if a2 < i {
                assert(s[a2].0@ != s[i].0@);
            } else {
                assert(s[i].0@ != s[a2].0@);
            }
        }
        if has_key(s, k) && k != key {
            let a = choose|a: int| 0 <= a < s.len() && #[trigger] s[a].0@ == k;
            assert(a != i);
            let a2 = if a < i { a } else { a - 1 };
            assert(t[a2] == s[a]);
        }
    }
    assert forall|k: Seq<char>| #[trigger] entries_map(t).contains_key(k) implies entries_map(t)[k]
        == entries_map(s).remove(key)[k] by {
        let a = choose|a: int| 0 <= a < t.len() && #[trigger] t[a].0@ == k;
        let a2 = if a < i { a } else { a + 1 };
        assert(t[a] == s[a2]);
        lemma_entry_in_map(t, a);
        lemma_entry_in_map(s, a2);
    }
    assert(entries_map(t) =~= entries_map(s).remove(key));
}

/// A list of entries keyed by strings, in insertion order, each key at most once.
pub struct KeyedList<V> {
    entries: Vec<(String, V)>,
}

impl<V> KeyedList<V> {
    /// Each key occurs at most once.
    #[verifier::type_invariant]
    pub closed spec fn inv(self) -> bool {
        keys_unique(self.entries@)
    }

    /// The entries in order.
    pub closed spec fn entries(self) -> Seq<(String, V)> {
        self.entries@
    }

    /// The map from keys to values.
    pub open spec fn map(self) -> Map<Seq<char>, V> {
        entries_map(self.entries())
    }

    /// The list's entries hold each key once and denote its map.
    pub proof fn lemma_entries(self)
        requires
            self.inv(),
        ensures
            keys_unique(self.entries()),
            forall|i: int| 0 <= i < self.entries().len() ==> #[trigger] self.map().contains_key(self.entries()[i].0@)
                && self.map()[self.entries()[i].0@] == self.entries()[i].1,
            forall|k: Seq<char>| #[trigger] self.map().contains_key(k) <==> has_key(self.entries(), k),
    {
        assert forall|i: int| 0 <= i < self.entries().len() implies #[trigger] self.map().contains_key(
            self.entries()[i].0@,
        ) && self.map()[self.entries()[i].0@] == self.entries()[i].1 by {
            lemma_entry_in_map(self.entries(), i);
        }
    }

    /// An empty list.
    pub fn new() -> (r: KeyedList<V>)
        ensures
            r.entries() == Seq::<(String, V)>::empty(),
            r.map() == Map::<Seq<char>, V>::empty(),
    {
        let r = KeyedList { entries: Vec::new() };
        assert(r.map() =~= Map::<Seq<char>, V>::empty());
        r
    }

    /// The number of entries.
    pub fn len(&self) -> (n: usize)
        ensures
            n == self.entries().len(),
    {
        self.entries.len()
    }

    /// The position of the entry with key `key`, if any.
    pub fn index_of(&self, key: &str) -> (r: Option<usize>)
        ensures
            match r {
                Some(i) => i < self.entries().len() && self.entries()[i as int].0@ == key@,
                None => !self.map().contains_key(key@),
            },
    {
        let mut i: usize = 0;
        while i < self.entries.len()
            invariant
                i <= self.entries@.len(),
                forall|j: int| 0 <= j < i ==> self.entries@[j].0@ != key@,
            decreases self.entries@.len() - i,
        {
            if str_eq(self.entries[i].0.as_str(), key) {
                return Some(i);
            }
            i = i + 1;
        }
        None
    }

    /// The key of the entry at position `i`.
    pub fn key_at(&self, i: usize) -> (r: &String)
        requires
            i < self.entries().len(),
        ensures
            *r == self.entries()[i as int].0,
    {
        &self.entries[i].0
    }

    /// The value of the entry at position `i`.
    pub fn value_at(&self, i: usize) -> (r: &V)
        requires
            i < self.entries().len(),
        ensures
            *r == self.entries()[i as int].1,
    {
        &self.entries[i].1
    }

    /// The value stored under `key`, if any.
    pub fn get(&self, key: &str) -> (r: Option<&V>)
        ensures
            match r {
                Some(v) => self.map().contains_key(key@) && self.map()[key@] == *v,
                None => !self.map().contains_key(key@),
            },
    {
        proof {
            use_type_invariant(self);
            self.lemma_entries();
        }
        match self.index_of(key) {
            Some(i) => Some(&self.entries[i].1),
            None => None,
        }
    }

    /// Whether some entry has key `key`.
    pub fn contains_key(&self, key: &str) -> (r: bool)
        ensures
            r == self.map().contains_key(key@),
    {
        proof {
            use_type_invariant(self);
            self.lemma_entries();
        }
        self.index_of(key).is_some()
    }

    /// Stores `value` under `key`: an existing entry keeps its place, a new one goes last.
    pub fn insert(&mut self, key: String, value: V)
        ensures
            final(self).map() == old(self).map().insert(key@, value),
    {
        proof { use_type_invariant(&*self); }
        match self.index_of(key.as_str()) {
            Some(i) => {
                proof { lemma_update_at(self.entries@, i as int, key, value); }
                let mut e: Vec<(String, V)> = Vec::new();
                std::mem::swap(&mut e, &mut self.entries);
                e.set(i, (key, value));
                self.entries = e;
            },
            None => {
                proof {
                    use_type_invariant(&*self);
                    self.lemma_entries();
                    lemma_push_absent(self.entries@, key, value);
                }
                let mut e: Vec<(String, V)> = Vec::new();
                std::mem::swap(&mut e, &mut self.entries);
                e.push((key, value));
                self.entries = e;
            },
        }
    }

    /// Takes the entry under `key` out of the list; the others keep their order.
    pub fn remove(&mut self, key: &str) -> (r: Option<V>)
        ensures
            final(self).map() == old(self).map().remove(key@),
            match r {
                Some(v) => old(self).map().contains_key(key@) && old(self).map()[key@] == v,
                None => !old(self).map().contains_key(key@),
            },
    {
        proof { use_type_invariant(&*self); }
        match self.index_of(key) {
            Some(i) => {
                proof {
                    lemma_remove_at(self.entries@, i as int);
                    lemma_entry_in_map(self.entries@, i as int);
                }
                let mut e: Vec<(String, V)> = Vec::new();
                std::mem::swap(&mut e, &mut self.entries);
                let (_, v) = e.remove(i);
                self.entries = e;
                Some(v)
            },
            None => None,
        }
    }
}

} // verus!
