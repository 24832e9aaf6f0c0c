//! A small map keyed by text. Entries are kept in a vector in the order in
//! which their keys first arrived; no key occurs twice.

use crate::text::{compare_text, TextOrder};
use vstd::prelude::*;

verus! {

/// The map that a sequence of entries stands for; of two entries with one
/// key the later one counts.
pub open spec fn entries_map<V>(entries: Seq<(String, V)>) -> Map<Seq<char>, V>
    decreases entries.len(),
{
    if entries.len() == 0 {
        Map::empty()
    } else {
        entries_map(entries.drop_last()).insert(entries.last().0@, entries.last().1)
    }
}

/// No two entries share a key.
pub open spec fn distinct_keys<V>(entries: Seq<(String, V)>) -> bool {
    forall|i: int, j: int|
        0 <= i < entries.len() && 0 <= j < entries.len() && i != j ==> entries[i].0@
            != entries[j].0@
}

/// The map's keys are the keys of the entries, finitely many.
pub proof fn lemma_entries_map_dom<V>(entries: Seq<(String, V)>)
    ensures
        entries_map(entries).dom().finite(),
        forall|key: Seq<char>|
            entries_map(entries).contains_key(key) <==> exists|i: int|
                0 <= i < entries.len() && #[trigger] entries[i].0@ == key,
    decreases entries.len(),
{
    if entries.len() > 0 {
        let front = entries.drop_last();
        lemma_entries_map_dom(front);
        assert forall|key: Seq<char>|
            entries_map(entries).contains_key(key) <==> exists|i: int|
                0 <= i < entries.len() && #[trigger] entries[i].0@ == key by {
            if entries_map(entries).contains_key(key) && key != entries.last().0@ {
                let i = choose|i: int| 0 <= i < front.len() && #[trigger] front[i].0@ == key;
                assert(entries[i].0@ == key);
            }
            if exists|i: int| 0 <= i < entries.len() && #[trigger] entries[i].0@ == key {
                let i = choose|i: int| 0 <= i < entries.len() && #[trigger] entries[i].0@ == key;
                if i < front.len() {
                    assert(front[i].0@ == key);
                }
            }
        }
    }
}

/// Entries that share no key still share none when the last is left out.
pub proof fn lemma_distinct_keys_front<V>(entries: Seq<(String, V)>)
    requires
        distinct_keys(entries),
        entries.len() > 0,
    ensures
        distinct_keys(entries.drop_last()),
{
    let front = entries.drop_last();
    assert forall|i: int, j: int|
        0 <= i < front.len() && 0 <= j < front.len() && i != j implies front[i].0@
        != front[j].0@ by {
        assert(front[i] == entries[i] && front[j] == entries[j]);
    }
}

/// Where no two entries share a key, each entry's key maps to its value.
pub proof fn lemma_entries_map_at<V>(entries: Seq<(String, V)>, k: int)
    requires
        distinct_keys(entries),
        0 <= k < entries.len(),
    ensures
        entries_map(entries).contains_key(entries[k].0@),
        entries_map(entries)[entries[k].0@] == entries[k].1,
    decreases entries.len(),
{
    if k < entries.len() - 1 {
        lemma_distinct_keys_front(entries);
        lemma_entries_map_at(entries.drop_last(), k);
    }
}

/// Replacing an entry by one with the same key changes the map as an
/// insertion does.
pub proof fn lemma_entries_map_update<V>(entries: Seq<(String, V)>, k: int, entry: (String, V))
    requires
        distinct_keys(entries),
        0 <= k < entries.len(),
        entry.0@ == entries[k].0@,
    ensures
        distinct_keys(entries.update(k, entry)),
        entries_map(entries.update(k, entry)) == entries_map(entries).insert(entry.0@, entry.1),
    decreases entries.len(),
{
    let changed = entries.update(k, entry);
    let front = entries.drop_last();
    assert forall|i: int, j: int|
        0 <= i < changed.len() && 0 <= j < changed.len() && i != j implies changed[i].0@
        != changed[j].0@ by {
        assert(changed[i].0@ == entries[i].0@ && changed[j].0@ == entries[j].0@);
    }
    if k == entries.len() - 1 {
        assert(changed.drop_last() =~= front);
    } else {
        lemma_distinct_keys_front(entries);
        lemma_entries_map_update(front, k, entry);
        assert(changed.drop_last() =~= front.update(k, entry));
    }
}

/// Taking an entry out takes its key out of the map.
pub proof fn lemma_entries_map_remove<V>(entries: Seq<(String, V)>, k: int)
    requires
        distinct_keys(entries),
        0 <= k < entries.len(),
    ensures
        distinct_keys(entries.remove(k)),
        entries_map(entries.remove(k)) == entries_map(entries).remove(entries[k].0@),
    decreases entries.len(),
{
    let rest = entries.remove(k);
    let front = entries.drop_last();
    assert forall|i: int, j: int|
        0 <= i < rest.len() && 0 <= j < rest.len() && i != j implies rest[i].0@
        != rest[j].0@ by {
        let oi = if i < k { i } else { i + 1 };
        let oj = if j < k { j } else { j + 1 };
        assert(rest[i] == entries[oi] && rest[j] == entries[oj]);
    }
    if k == entries.len() - 1 {
        lemma_entries_map_dom(front);
        if entries_map(front).contains_key(entries[k].0@) {
            let i = choose|i: int| 0 <= i < front.len() && #[trigger] front[i].0@ == entries[k].0@;
            assert(front[i] == entries[i]);
        }
    } else {
        lemma_distinct_keys_front(entries);
        lemma_entries_map_remove(front, k);
        assert(rest.drop_last() =~= front.remove(k));
    }
}

/// A map from text to `V`.
pub struct TextMap<V> {
    entries: Vec<(String, V)>,
}

impl<V> TextMap<V> {
    /// What the map holds.
    pub closed spec fn model(&self) -> Map<Seq<char>, V> {
        entries_map(self.entries@)
    }

    /// The keys in the order in which they first arrived.
    pub closed spec fn keys(&self) -> Seq<Seq<char>> {
        self.entries@.map_values(|e: (String, V)| e.0@)
    }

    /// No key is held twice.
    pub closed spec fn wf(&self) -> bool {
        distinct_keys(self.entries@)
    }

    /// In a well-formed map the keys are pairwise different and are exactly
    /// the domain of the model.
    pub proof fn lemma_keys(&self)
        requires
            self.wf(),
        ensures
            self.keys().no_duplicates(),
            self.model().dom().finite(),
            forall|key: Seq<char>| self.keys().contains(key) <==> self.model().contains_key(key),
    {
        lemma_entries_map_dom(self.entries@);
        let keys = self.keys();
        assert forall|key: Seq<char>| keys.contains(key) <==> self.model().contains_key(key) by {
            if keys.contains(key) {
                let i = choose|i: int| 0 <= i < keys.len() && keys[i] == key;
                assert(self.entries@[i].0@ == key);
            }
            if self.model().contains_key(key) {
                let i = choose|i: int|
                    0 <= i < self.entries@.len() && #[trigger] self.entries@[i].0@ == key;
                assert(keys[i] == key);
            }
        }
    }

    /// A map that holds nothing.
    pub fn new() -> (m: Self)
        ensures
            m.wf(),
            m.model() == Map::<Seq<char>, V>::empty(),
            m.keys() == Seq::<Seq<char>>::empty(),
    {
        TextMap { entries: Vec::new() }
    }

    /// Number of entries.
    pub fn len(&self) -> (n: usize)
        ensures
            n == self.keys().len(),
    {
        self.entries.len()
    }

    /// Where `key` is held, if it is.
    fn position(&self, key: &str) -> (r: Option<usize>)
        ensures
            match r {
                Some(k) => k < self.entries@.len() && self.entries@[k as int].0@ == key@,
                None => forall|i: int|
                    0 <= i < self.entries@.len() ==> #[trigger] self.entries@[i].0@ != key@,
            },
    {
        let mut i: usize = 0;
        while i < self.entries.len()
            invariant
                i <= self.entries@.len(),
                forall|j: int| 0 <= j < i ==> #[trigger] self.entries@[j].0@ != key@,
            decreases self.entries@.len() - i,
        {
            if compare_text(self.entries[i].0.as_str(), key) == TextOrder::Same {
                return Some(i);
            }
            i = i + 1;
        }
        None
    }

    /// Whether `key` is held.
    pub fn contains_key(&self, key: &str) -> (r: bool)
        ensures
            r == self.model().contains_key(key@),
    {
        proof {
            lemma_entries_map_dom(self.entries@);
        }
        self.position(key).is_some()
    }

    /// The value held under `key`.
    pub fn get(&self, key: &str) -> (r: Option<&V>)
        requires
            self.wf(),
        ensures
            match r {
                Some(value) => self.model().contains_key(key@) && *value == self.model()[key@],
                None => !self.model().contains_key(key@),
            },
    {
        proof {
            lemma_entries_map_dom(self.entries@);
        }
        match self.position(key) {
            Some(k) => {
                proof {
                    lemma_entries_map_at(self.entries@, k as int);
                }
                Some(&self.entries[k].1)
            },
            None => None,
        }
    }

    /// Holds `value` under `key` from now on. Returns whether the key is new.
    pub fn insert(&mut self, key: String, value: V) -> (fresh: bool)
        requires
            old(self).wf(),
        ensures
            final(self).wf(),
            final(self).model() == old(self).model().insert(key@, value),
            fresh == !old(self).model().contains_key(key@),
            final(self).keys() == if fresh {
                old(self).keys().push(key@)
            } else {
                old(self).keys()
            },
    {
        proof {
            lemma_entries_map_dom(self.entries@);
        }
        let ghost before = self.entries@;
        match self.position(key.as_str()) {
            Some(k) => {
                proof {
                    lemma_entries_map_update(before, k as int, (key, value));
                }
                self.entries.set(k, (key, value));
                false
            },
            None => {
                self.entries.push((key, value));
                assert(self.entries@.drop_last() =~= before);
                true
            },
        }
    }

    /// Lets go of `key`. Returns what was held under it.
    pub fn remove(&mut self, key: &str) -> (r: Option<V>)
        requires
            old(self).wf(),
        ensures
            final(self).wf(),
            final(self).model() == old(self).model().remove(key@),
            match r {
                Some(value) => old(self).model().contains_key(key@)
                    && value == old(self).model()[key@],
                None => !old(self).model().contains_key(key@),
            },
            match r {
                Some(_) => exists|k: int|
                    0 <= k < old(self).keys().len() && old(self).keys()[k] == key@
                        && final(self).keys() == old(self).keys().remove(k),
                None => final(self).keys() == old(self).keys(),
            },
    {
        proof {
            lemma_entries_map_dom(self.entries@);
        }
        let ghost before = self.entries@;
        match self.position(key) {
            Some(k) => {
                proof {
                    lemma_entries_map_at(before, k as int);
                    lemma_entries_map_remove(before, k as int);
                }
                let entry = self.entries.remove(k);
                assert(self.keys() =~= old(self).keys().remove(k as int));
                Some(entry.1)
            },
            None => None,
        }
    }
}

} // verus!
