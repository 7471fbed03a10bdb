//! A small map from text keys to values, in insertion order, in which no key
//! occurs twice. It holds what the launcher's JSON documents give as objects
//! keyed by name (per-platform classifiers, native library names).

use vstd::prelude::*;

verus! {

/// The map that a list of entries describes; a later entry for a key wins.
pub open spec fn spec_entries_map<V>(entries: Seq<(String, V)>) -> Map<Seq<char>, V>
    decreases entries.len(),
{
    if entries.len() == 0 {
        Map::empty()
    } else {
        spec_entries_map(entries.drop_last()).insert(entries.last().0@, entries.last().1)
    }
}

/// Entries keyed by text, no key twice.
#[derive(Debug)]
pub struct KeyedList<V> {
    entries: Vec<(String, V)>,
}

impl<V> View for KeyedList<V> {
    type V = Map<Seq<char>, V>;

    closed spec fn view(&self) -> Map<Seq<char>, V> {
        spec_entries_map(self.entries@)
    }
}

proof fn lemma_map_absent<V>(entries: Seq<(String, V)>, k: Seq<char>)
    requires
        forall|i: int| 0 <= i < entries.len() ==> (#[trigger] entries[i]).0@ != k,
    ensures
        !spec_entries_map(entries).contains_key(k),
    decreases entries.len(),
{
    if entries.len() > 0 {
        let front = entries.drop_last();
        assert forall|i: int| 0 <= i < front.len() implies (#[trigger] front[i]).0@ != k by {
            assert(front[i] == entries[i]);
        }
        lemma_map_absent(front, k);
    }
}

proof fn lemma_map_at<V>(entries: Seq<(String, V)>, i: int)
    requires
        0 <= i < entries.len(),
        forall|a: int, b: int|
            0 <= a < entries.len() && 0 <= b < entries.len() && a != b ==> (#[trigger] entries[a]).0@
                != (#[trigger] entries[b]).0@,
    ensures
        spec_entries_map(entries).contains_key(entries[i].0@),
        spec_entries_map(entries)[entries[i].0@] == entries[i].1,
    decreases entries.len(),
{
    if i < entries.len() - 1 {
        let front = entries.drop_last();
        assert forall|a: int, b: int|
            0 <= a < front.len() && 0 <= b < front.len() && a != b implies (#[trigger] front[a]).0@
            != (#[trigger] front[b]).0@ by {
            assert(front[a] == entries[a]);
            assert(front[b] == entries[b]);
        }
        assert(front[i] == entries[i]);
        lemma_map_at(front, i);
        assert(entries[entries.len() - 1].0@ != entries[i].0@);
    }
}

proof fn lemma_map_update<V>(entries: Seq<(String, V)>, i: int, key: String, value: V)
    requires
        0 <= i < entries.len(),
        entries[i].0@ == key@,
        forall|a: int, b: int|
            0 <= a < entries.len() && 0 <= b < entries.len() && a != b ==> (#[trigger] entries[a]).0@
                != (#[trigger] entries[b]).0@,
    ensures
        spec_entries_map(entries.update(i, (key, value))) == spec_entries_map(entries).insert(key@, value),
    decreases entries.len(),
{
    let updated = entries.update(i, (key, value));
    if i == entries.len() - 1 {
        assert(updated.drop_last() =~= entries.drop_last());
        let front = entries.drop_last();
        assert forall|j: int| 0 <= j < front.len() implies (#[trigger] front[j]).0@ != key@ by {
            assert(front[j] == entries[j]);
        }
        lemma_map_absent(front, key@);
        assert(spec_entries_map(updated) =~= spec_entries_map(entries).insert(key@, value));
    } else {
        let front = entries.drop_last();
        assert forall|a: int, b: int|
            0 <= a < front.len() && 0 <= b < front.len() && a != b implies (#[trigger] front[a]).0@
            != (#[trigger] front[b]).0@ by {
            assert(front[a] == entries[a]);
            assert(front[b] == entries[b]);
        }
        assert(front[i] == entries[i]);
        lemma_map_update(front, i, key, value);
        assert(updated.drop_last() =~= front.update(i, (key, value)));
        assert(updated.last() == entries.last());
        assert(entries.last().0@ != key@);
        assert(spec_entries_map(updated) =~= spec_entries_map(entries).insert(key@, value));
    }
}

impl<V> KeyedList<V> {
    #[verifier::type_invariant]
    spec fn keys_distinct(self) -> bool {
        forall|a: int, b: int|
            0 <= a < self.entries@.len() && 0 <= b < self.entries@.len() && a != b ==> (
            #[trigger] self.entries@[a]).0@ != (#[trigger] self.entries@[b]).0@
    }

    /// An empty map.
    pub fn new() -> (r: Self)
        ensures
            r@ == Map::<Seq<char>, V>::empty(),
    {
        KeyedList { entries: Vec::new() }
    }

    fn position(&self, key: &str) -> (r: Option<usize>)
        ensures
            match r {
                Some(i) => i < self.entries@.len() && self.entries@[i as int].0@ == key@,
                None => forall|i: int|
                    0 <= i < self.entries@.len() ==> (#[trigger] self.entries@[i]).0@ != key@,
            },
    {
        let mut i: usize = 0;
        while i < self.entries.len()
            invariant
                i <= self.entries@.len(),
                forall|j: int| 0 <= j < i ==> (#[trigger] self.entries@[j]).0@ != key@,
            decreases self.entries@.len() - i,
        {
            if crate::text::str_eq(self.entries[i].0.as_str(), key) {
                return Some(i);
            }
            i = i + 1;
        }
        None
    }

    /// Sets the value for `key`, replacing the one it had.
    pub fn insert(&mut self, key: String, value: V)
        ensures
            final(self)@ == old(self)@.insert(key@, value),
    {
        proof {
            use_type_invariant(&*self);
        }
        let found = self.position(key.as_str());
        let mut entries: Vec<(String, V)> = Vec::new();
        std::mem::swap(&mut entries, &mut self.entries);
        match found {
            Some(i) => {
                proof {
                    lemma_map_update(entries@, i as int, key, value);
                }
                entries.set(i, (key, value));
            },
            None => {
                entries.push((key, value));
                assert(entries@.drop_last() =~= old(self).entries@);
            },
        }
        self.entries = entries;
    }

    /// The value stored for `key`, if any.
    pub fn get(&self, key: &str) -> (r: Option<&V>)
        ensures
            match r {
                Some(v) => self@.contains_key(key@) && *v == self@[key@],
                None => !self@.contains_key(key@),
            },
    {
        proof {
            use_type_invariant(self);
        }
        match self.position(key) {
            Some(i) => {
                proof {
                    lemma_map_at(self.entries@, i as int);
                }
                Some(&self.entries[i].1)
            },
            None => {
                proof {
                    lemma_map_absent(self.entries@, key@);
                }
                None
            },
        }
    }

    /// The number of entries.
    pub fn len(&self) -> (r: usize)
        ensures
            r == self@.dom().len(),
    {
        proof {
            use_type_invariant(self);
            lemma_map_len(self.entries@);
        }
        self.entries.len()
    }

    /// The `i`-th entry in insertion order.
    pub fn entry(&self, i: usize) -> (r: (&String, &V))
        requires
            i < self@.dom().len(),
        ensures
            self@.contains_key(r.0@),
            self@[r.0@] == *r.1,
    {
        proof {
            use_type_invariant(self);
            lemma_map_len(self.entries@);
            lemma_map_at(self.entries@, i as int);
        }
        (&self.entries[i].0, &self.entries[i].1)
    }
}

proof fn lemma_map_len<V>(entries: Seq<(String, V)>)
    requires
        forall|a: int, b: int|
            0 <= a < entries.len() && 0 <= b < entries.len() && a != b ==> (#[trigger] entries[a]).0@
                != (#[trigger] entries[b]).0@,
    ensures
        spec_entries_map(entries).dom().finite(),
        spec_entries_map(entries).dom().len() == entries.len(),
    decreases entries.len(),
{
    if entries.len() > 0 {
        let front = entries.drop_last();
        assert forall|a: int, b: int|
            0 <= a < front.len() && 0 <= b < front.len() && a != b implies (#[trigger] front[a]).0@
            != (#[trigger] front[b]).0@ by {
            assert(front[a] == entries[a]);
            assert(front[b] == entries[b]);
        }
        lemma_map_len(front);
        assert forall|j: int| 0 <= j < front.len() implies (#[trigger] front[j]).0@
            != entries.last().0@ by {
            assert(front[j] == entries[j]);
        }
        lemma_map_absent(front, entries.last().0@);
    }
}

} // verus!
