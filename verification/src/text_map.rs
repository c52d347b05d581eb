//! A map from text keys to values, each key at most once, in the order in
//! which the keys were first stored.

use vstd::prelude::*;

verus! {

/// Whether some entry has this key.
pub open spec fn has_key<T>(s: Seq<(Seq<char>, T)>, key: Seq<char>) -> bool {
    exists|i: int| 0 <= i < s.len() && (#[trigger] s[i]).0 == key
}

/// The place of the entry with this key, where there is one.
pub open spec fn key_index<T>(s: Seq<(Seq<char>, T)>, key: Seq<char>) -> int {
    choose|i: int| 0 <= i < s.len() && (#[trigger] s[i]).0 == key
}

/// The value stored under a key.
pub open spec fn value_of<T>(s: Seq<(Seq<char>, T)>, key: Seq<char>) -> Option<T> {
    if has_key(s, key) {
        Some(s[key_index(s, key)].1)
    } else {
        None
    }
}

/// No key stands at two places.
pub open spec fn distinct_keys<T>(s: Seq<(Seq<char>, T)>) -> bool {
    forall|i: int, j: int| 0 <= i < j < s.len() ==> s[i].0 != s[j].0
}

/// The entries after a value was stored under a key.
pub open spec fn stored<T>(s: Seq<(Seq<char>, T)>, key: Seq<char>, value: T) -> Seq<
    (Seq<char>, T),
> {
    if has_key(s, key) {
        s.update(key_index(s, key), (key, value))
    } else {
        s.push((key, value))
    }
}

/// The entries after a key was removed.
pub open spec fn without<T>(s: Seq<(Seq<char>, T)>, key: Seq<char>) -> Seq<(Seq<char>, T)> {
    if has_key(s, key) {
        s.remove(key_index(s, key))
    } else {
        s
    }
}

/// With distinct keys, a key stands at one place only.
pub proof fn lemma_key_unique<T>(s: Seq<(Seq<char>, T)>, i: int)
    requires
        distinct_keys(s),
        0 <= i < s.len(),
    ensures
        has_key(s, s[i].0),
        key_index(s, s[i].0) == i,
        value_of(s, s[i].0) == Some(s[i].1),
{
    let j = key_index(s, s[i].0);
    if j < i {
        assert(s[j].0 != s[i].0);
    }
    if i < j {
        assert(s[i].0 != s[j].0);
    }
}

/// Storing keeps the keys distinct; afterwards the key gives the stored
/// value and every other key gives what it gave before.
pub proof fn lemma_stored<T>(s: Seq<(Seq<char>, T)>, key: Seq<char>, value: T)
    requires
        distinct_keys(s),
    ensures
        distinct_keys(stored(s, key, value)),
        value_of(stored(s, key, value), key) == Some(value),
        forall|k: Seq<char>| k != key ==> value_of(stored(s, key, value), k) == value_of(s, k),
        forall|k: Seq<char>| has_key(stored(s, key, value), k) <==> (k == key || has_key(s, k)),
{
    let r = stored(s, key, value);
    let at = if has_key(s, key) {
        key_index(s, key)
    } else {
        s.len() as int
    };
    assert(r[at] == (key, value));
    assert forall|i: int| 0 <= i < r.len() && i != at implies r[i] == s[i] && r[i].0 != key by {
        if has_key(s, key) {
            lemma_key_unique(s, at);
            if s[i].0 == key {
                lemma_key_unique(s, i);
            }
        } else if s[i].0 == key {
            assert(has_key(s, key));
        }
    }
    assert(distinct_keys(r)) by {
        assert forall|i: int, j: int| 0 <= i < j < r.len() implies r[i].0 != r[j].0 by {
            if i != at && j != at {
                assert(s[i].0 != s[j].0);
            }
        }
    }
    lemma_key_unique(r, at);
    assert forall|k: Seq<char>| k != key implies value_of(r, k) == value_of(s, k) by {
        if has_key(s, k) {
            let j = key_index(s, k);
            lemma_key_unique(s, j);
            assert(r[j] == s[j]);
            lemma_key_unique(r, j);
        } else if has_key(r, k) {
            let j = key_index(r, k);
            assert(s[j].0 == k);
        }
    }
    assert forall|k: Seq<char>| has_key(r, k) <==> (k == key || has_key(s, k)) by {
        if k != key {
            assert(value_of(r, k) == value_of(s, k));
        }
    }
}

/// Removing keeps the keys distinct; afterwards the key gives nothing and
/// every other key gives what it gave before.
pub proof fn lemma_without<T>(s: Seq<(Seq<char>, T)>, key: Seq<char>)
    requires
        distinct_keys(s),
    ensures
        distinct_keys(without(s, key)),
        !has_key(without(s, key), key),
        forall|k: Seq<char>| k != key ==> value_of(without(s, key), k) == value_of(s, k),
{
    let r = without(s, key);
    if has_key(s, key) {
        let at = key_index(s, key);
        lemma_key_unique(s, at);
        assert(forall|i: int| 0 <= i < at ==> r[i] == s[i]);
        assert(forall|i: int| at <= i < r.len() ==> r[i] == s[i + 1]);
        assert(distinct_keys(r)) by {
            assert forall|i: int, j: int| 0 <= i < j < r.len() implies r[i].0 != r[j].0 by {
                let a = if i < at {
                    i
                } else {
                    i + 1
                };
                let b = if j < at {
                    j
                } else {
                    j + 1
                };
                assert(s[a].0 != s[b].0);
            }
        }
        if has_key(r, key) {
            let j = key_index(r, key);
            let b = if j < at {
                j
            } else {
                j + 1
            };
            lemma_key_unique(s, b);
        }
        assert forall|k: Seq<char>| k != key implies value_of(r, k) == value_of(s, k) by {
            if has_key(s, k) {
                let j = key_index(s, k);
                lemma_key_unique(s, j);
                let b = if j < at {
                    j
                } else {
                    j - 1
                };
                assert(r[b] == s[j]);
                lemma_key_unique(r, b);
            } else if has_key(r, k) {
                let j = key_index(r, k);
                let b = if j < at {
                    j
                } else {
                    j + 1
                };
                assert(s[b].0 == k);
            }
        }
    }
}

/// A map from text keys to values.
pub struct TextMap<V: View> {
    entries: Vec<(String, V)>,
}

impl<V: View> View for TextMap<V> {
    type V = Seq<(Seq<char>, V::V)>;

    closed spec fn view(&self) -> Seq<(Seq<char>, V::V)> {
        Seq::new(self.entries@.len(), |i: int| (self.entries@[i].0@, self.entries@[i].1@))
    }
}

impl<V: View> TextMap<V> {
    /// The keys of a map are always distinct.
    #[verifier::type_invariant]
    pub open spec fn well_formed(&self) -> bool {
        distinct_keys(self@)
    }

    /// An empty map.
    pub fn new() -> (r: TextMap<V>)
        ensures
            r@ == Seq::<(Seq<char>, V::V)>::empty(),
    {
        let r = TextMap { entries: Vec::new() };
        assert(r@ =~= Seq::<(Seq<char>, V::V)>::empty());
        r
    }

    /// The number of entries.
    pub fn len(&self) -> (n: usize)
        ensures
            n == self@.len(),
            distinct_keys(self@),
    {
        proof {
            use_type_invariant(self);
        }
        self.entries.len()
    }

    /// The place of a key.
    pub fn find(&self, key: &str) -> (r: Option<usize>)
        ensures
            distinct_keys(self@),
            match r {
                Some(i) => i < self@.len() && self@[i as int].0 == key@ && has_key(self@, key@)
                    && key_index(self@, key@) == i,
                None => !has_key(self@, key@),
            },
    {
        proof {
            use_type_invariant(self);
        }
        let mut i: usize = 0;
        while i < self.entries.len()
            invariant
                i <= self.entries@.len(),
                self@.len() == self.entries@.len(),
                distinct_keys(self@),
                forall|j: int| 0 <= j < i ==> (#[trigger] self@[j]).0 != key@,
            decreases self.entries@.len() - i,
        {
            if crate::text_map::same_text(self.entries[i].0.as_str(), key) {
                proof {
                    lemma_key_unique(self@, i as int);
                }
                return Some(i);
            }
            i += 1;
        }
        None
    }

    /// The entry at a place.
    pub fn entry(&self, i: usize) -> (e: (&String, &V))
        requires
            i < self@.len(),
        ensures
            e.0@ == self@[i as int].0,
            e.1@ == self@[i as int].1,
            distinct_keys(self@),
    {
        proof {
            use_type_invariant(self);
        }
        (&self.entries[i].0, &self.entries[i].1)
    }

    /// The value under a key.
    pub fn get(&self, key: &str) -> (r: Option<&V>)
        ensures
            distinct_keys(self@),
            match r {
                Some(v) => value_of(self@, key@) == Some(v@),
                None => value_of(self@, key@) is None,
            },
    {
        match self.find(key) {
            Some(i) => Some(&self.entries[i].1),
            None => None,
        }
    }

    /// Whether a key is stored.
    pub fn contains_key(&self, key: &str) -> (r: bool)
        ensures
            r == has_key(self@, key@),
            distinct_keys(self@),
    {
        self.find(key).is_some()
    }

    /// Stores a value under a key, in place of what the key had.
    pub fn insert(&mut self, key: String, value: V)
        ensures
            final(self)@ == stored(old(self)@, key@, value@),
            distinct_keys(final(self)@),
    {
        proof {
            use_type_invariant(&*self);
            lemma_stored(self@, key@, value@);
        }
        let found = self.find(key.as_str());
        let ghost before = self@;
        let ghost k = key@;
        let ghost v = value@;
        let mut entries: Vec<(String, V)> = Vec::new();
        std::mem::swap(&mut self.entries, &mut entries);
        assert(before =~= Seq::new(entries@.len(), |i: int| (entries@[i].0@, entries@[i].1@)));
        match found {
            Some(i) => {
                entries[i] = (key, value);
                assert(Seq::new(entries@.len(), |i: int| (entries@[i].0@, entries@[i].1@))
                    =~= before.update(i as int, (k, v)));
            },
            None => {
                entries.push((key, value));
                assert(Seq::new(entries@.len(), |i: int| (entries@[i].0@, entries@[i].1@))
                    =~= before.push((k, v)));
            },
        }
        std::mem::swap(&mut self.entries, &mut entries);
    }

    /// Removes a key, if it is stored.
    pub fn remove(&mut self, key: &str)
        ensures
            final(self)@ == without(old(self)@, key@),
            distinct_keys(final(self)@),
    {
        proof {
            use_type_invariant(&*self);
            lemma_without(self@, key@);
        }
        let found = self.find(key);
        let ghost before = self@;
        let mut entries: Vec<(String, V)> = Vec::new();
        std::mem::swap(&mut self.entries, &mut entries);
        assert(before =~= Seq::new(entries@.len(), |i: int| (entries@[i].0@, entries@[i].1@)));
        match found {
            Some(i) => {
                let _ = entries.remove(i);
                assert(Seq::new(entries@.len(), |i: int| (entries@[i].0@, entries@[i].1@))
                    =~= before.remove(i as int));
            },
            None => {},
        }
        std::mem::swap(&mut self.entries, &mut entries);
    }

    /// Removes every entry.
    pub fn clear(&mut self)
        ensures
            final(self)@ == Seq::<(Seq<char>, V::V)>::empty(),
    {
        let mut entries: Vec<(String, V)> = Vec::new();
        std::mem::swap(&mut self.entries, &mut entries);
        assert(self@ =~= Seq::<(Seq<char>, V::V)>::empty());
    }
}

/// Whether two texts hold the same characters.
pub fn same_text(a: &str, b: &str) -> (r: bool)
    ensures
        r == (a@ == b@),
{
    let x = a.to_string();
    let y = b.to_string();
    x == y
}

} // verus!
