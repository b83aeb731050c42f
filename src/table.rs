use vstd::prelude::*;

use crate::text::same_text;

verus! {

/// The map that `entries` describe: the value of each key is the one of its
/// latest entry.
pub open spec fn entries_map<V: View>(entries: Seq<(String, V)>) -> Map<Seq<char>, V::V>
    decreases entries.len(),
{
    if entries.len() == 0 {
        Map::empty()
    } else {
        entries_map(entries.drop_last()).insert(entries.last().0@, entries.last().1@)
    }
}

/// The entries whose key is not `key`, in their order.
pub open spec fn without_key<V>(entries: Seq<(String, V)>, key: Seq<char>) -> Seq<(String, V)>
    decreases entries.len(),
{
    if entries.len() == 0 {
        entries
    } else if entries.last().0@ == key {
        without_key(entries.drop_last(), key)
    } else {
        without_key(entries.drop_last(), key).push(entries.last())
    }
}

proof fn lemma_keys<V: View>(entries: Seq<(String, V)>, key: Seq<char>)
    ensures
        entries_map(entries).contains_key(key) <==> exists|i: int|
            0 <= i < entries.len() && #[trigger] entries[i].0@ == key,
    decreases entries.len(),
{
    if entries.len() > 0 {
        let init = entries.drop_last();
        lemma_keys(init, key);
        if exists|i: int| 0 <= i < init.len() && #[trigger] init[i].0@ == key {
            let i = choose|i: int| 0 <= i < init.len() && #[trigger] init[i].0@ == key;
            assert(entries[i].0@ == key);
        }
        if exists|i: int| 0 <= i < entries.len() && #[trigger] entries[i].0@ == key {
            let i = choose|i: int| 0 <= i < entries.len() && #[trigger] entries[i].0@ == key;
            if i < entries.len() - 1 {
                assert(init[i].0@ == key);
            }
        }
    }
}

proof fn lemma_latest<V: View>(entries: Seq<(String, V)>, i: int)
    requires
        0 <= i < entries.len(),
        forall|j: int| i < j < entries.len() ==> #[trigger] entries[j].0@ != entries[i].0@,
    ensures
        entries_map(entries).contains_key(entries[i].0@),
        entries_map(entries)[entries[i].0@] == entries[i].1@,
    decreases entries.len(),
{
    let init = entries.drop_last();
    if i < entries.len() - 1 {
        assert(init[i] == entries[i]);
        assert forall|j: int| i < j < init.len() implies #[trigger] init[j].0@ != init[i].0@ by {
            assert(init[j] == entries[j]);
        }
        lemma_latest(init, i);
        assert(entries[entries.len() - 1].0@ != entries[i].0@);
    }
}

proof fn lemma_without_key<V: View>(entries: Seq<(String, V)>, key: Seq<char>)
    ensures
        entries_map(without_key(entries, key)) == entries_map(entries).remove(key),
    decreases entries.len(),
{
    if entries.len() == 0 {
        assert(entries_map(entries) =~= entries_map(entries).remove(key));
    } else {
        let init = entries.drop_last();
        let last = entries.last();
        lemma_without_key(init, key);
        if last.0@ == key {
            assert(entries_map(init).remove(key) =~= entries_map(init).insert(key, last.1@).remove(
                key,
            ));
        } else {
            let w = without_key(init, key);
            assert(w.push(last).drop_last() =~= w);
            assert(entries_map(init).remove(key).insert(last.0@, last.1@) =~= entries_map(
                init,
            ).insert(last.0@, last.1@).remove(key));
        }
    }
}

proof fn lemma_without_removed<V>(entries: Seq<(String, V)>, i: int, key: Seq<char>)
    requires
        0 <= i < entries.len(),
        entries[i].0@ == key,
    ensures
        without_key(entries.remove(i), key) == without_key(entries, key),
    decreases entries.len(),
{
    let init = entries.drop_last();
    if i == entries.len() - 1 {
        assert(entries.remove(i) =~= init);
    } else {
        let shorter = entries.remove(i);
        assert(shorter.drop_last() =~= init.remove(i));
        assert(shorter.last() == entries.last());
        assert(init[i] == entries[i]);
        lemma_without_removed(init, i, key);
    }
}

proof fn lemma_without_absent<V>(entries: Seq<(String, V)>, key: Seq<char>)
    requires
        forall|j: int| 0 <= j < entries.len() ==> #[trigger] entries[j].0@ != key,
    ensures
        without_key(entries, key) == entries,
    decreases entries.len(),
{
    if entries.len() > 0 {
        let init = entries.drop_last();
        assert forall|j: int| 0 <= j < init.len() implies #[trigger] init[j].0@ != key by {
            assert(init[j] == entries[j]);
        }
        lemma_without_absent(init, key);
        assert(entries.last() == entries[entries.len() - 1]);
        assert(init.push(entries.last()) =~= entries);
    }
}

/// The index of the last entry with key `key`, or -1 if there is none.
pub open spec fn last_index<V>(entries: Seq<(String, V)>, key: Seq<char>) -> int
    decreases entries.len(),
{
    if entries.len() == 0 {
        -1
    } else if entries.last().0@ == key {
        entries.len() - 1
    } else {
        last_index(entries.drop_last(), key)
    }
}

proof fn lemma_last_index<V>(entries: Seq<(String, V)>, key: Seq<char>, i: int)
    requires
        0 <= i < entries.len(),
        entries[i].0@ == key,
    ensures
        i <= last_index(entries, key) < entries.len(),
        entries[last_index(entries, key)].0@ == key,
        forall|k: int|
            last_index(entries, key) < k < entries.len() ==> #[trigger] entries[k].0@ != key,
    decreases entries.len(),
{
    let init = entries.drop_last();
    if entries.last().0@ != key {
        assert(init[i] == entries[i]);
        lemma_last_index(init, key, i);
        let j = last_index(init, key);
        assert(entries[j] == init[j]);
        assert forall|k: int| j < k < entries.len() implies #[trigger] entries[k].0@ != key by {
            if k < entries.len() - 1 {
                assert(entries[k] == init[k]);
            }
        }
    }
}

/// Values keyed by strings.
pub struct Table<V> {
    entries: Vec<(String, V)>,
}

impl<V: View> Table<V> {
    /// The value of each key.
    pub closed spec fn map(&self) -> Map<Seq<char>, V::V> {
        entries_map(self.entries@)
    }

    /// The key of the entry at index `i`.
    pub closed spec fn key_at(&self, i: int) -> Seq<char> {
        self.entries@[i].0@
    }

    /// The number of entries.
    pub closed spec fn size(&self) -> nat {
        self.entries@.len()
    }

    /// An empty table.
    pub fn new() -> (r: Self)
        ensures
            r.map() == Map::<Seq<char>, V::V>::empty(),
    {
        Table { entries: Vec::new() }
    }

    /// The number of entries.
    pub fn len(&self) -> (r: usize)
        ensures
            r == self.size(),
    {
        self.entries.len()
    }

    /// The key of the entry at index `i`; the map holds it.
    pub fn key(&self, i: usize) -> (r: &String)
        requires
            i < self.size(),
        ensures
            r@ == self.key_at(i as int),
            self.map().contains_key(r@),
    {
        proof {
            lemma_keys(self.entries@, self.entries@[i as int].0@);
        }
        &self.entries[i].0
    }

    /// Every key of the map has an entry.
    pub proof fn lemma_has_entry(&self, key: Seq<char>)
        requires
            self.map().contains_key(key),
        ensures
            exists|i: int| 0 <= i < self.size() && #[trigger] self.key_at(i) == key,
    {
        lemma_keys(self.entries@, key);
        let i = choose|i: int| 0 <= i < self.entries@.len() && #[trigger] self.entries@[i].0@ == key;
        assert(self.key_at(i) == key);
    }

    /// The entry at index `i` is the last one with its key.
    pub open spec fn latest(&self, i: int) -> bool {
        forall|k: int| i < k < self.size() ==> #[trigger] self.key_at(k) != self.key_at(i)
    }

    /// Every key of the map has a last entry.
    pub proof fn lemma_has_latest_entry(&self, key: Seq<char>)
        requires
            self.map().contains_key(key),
        ensures
            exists|i: int| 0 <= i < self.size() && #[trigger] self.key_at(i) == key && self.latest(i),
    {
        lemma_keys(self.entries@, key);
        let i = choose|i: int| 0 <= i < self.entries@.len() && #[trigger] self.entries@[i].0@ == key;
        lemma_last_index(self.entries@, key, i);
        let j = last_index(self.entries@, key);
        assert(self.key_at(j) == key);
        assert(self.latest(j));
    }

    /// Whether the entry at index `i` is the last one with its key.
    pub fn is_latest(&self, i: usize) -> (r: bool)
        requires
            i < self.size(),
        ensures
            r == self.latest(i as int),
    {
        let n = self.entries.len();
        let mut k: usize = i + 1;
        while k < n
            invariant
                n == self.entries@.len(),
                i < k <= n,
                forall|m: int| i < m < k ==> #[trigger] self.key_at(m) != self.key_at(i as int),
            decreases n - k,
        {
            if same_text(self.entries[k].0.as_str(), self.entries[i].0.as_str()) {
                assert(self.key_at(k as int) == self.key_at(i as int));
                return false;
            }
            k = k + 1;
        }
        true
    }

    /// The value of `key`, if it has one.
    pub fn get(&self, key: &str) -> (r: Option<&V>)
        ensures
            r matches Some(v) ==> self.map().contains_key(key@) && self.map()[key@] == v@,
            r is None ==> !self.map().contains_key(key@),
    {
        let mut i: usize = self.entries.len();
        while i > 0
            invariant
                i <= self.entries@.len(),
                forall|j: int| i <= j < self.entries@.len() ==> #[trigger] self.entries@[j].0@ != key@,
            decreases i,
        {
            if same_text(self.entries[i - 1].0.as_str(), key) {
                proof {
                    lemma_latest(self.entries@, i - 1);
                }
                return Some(&self.entries[i - 1].1);
            }
            i = i - 1;
        }
        proof {
            lemma_keys(self.entries@, key@);
        }
        None
    }

    /// Removes the value of `key`, if it has one.
    pub fn remove(&mut self, key: &str)
        ensures
            final(self).map() == old(self).map().remove(key@),
    {
        let ghost all = self.entries@;
        let mut i: usize = 0;
        while i < self.entries.len()
            invariant
                i <= self.entries@.len(),
                without_key(self.entries@, key@) == without_key(all, key@),
                forall|j: int| 0 <= j < i ==> #[trigger] self.entries@[j].0@ != key@,
            decreases self.entries@.len() - i,
        {
            if same_text(self.entries[i].0.as_str(), key) {
                proof {
                    lemma_without_removed(self.entries@, i as int, key@);
                }
                self.entries.remove(i);
            } else {
                i = i + 1;
            }
        }
        proof {
            lemma_without_absent(self.entries@, key@);
            lemma_without_key(all, key@);
        }
    }

    /// Sets the value of `key` to `value`.
    pub fn insert(&mut self, key: &str, value: V)
        ensures
            final(self).map() == old(self).map().insert(key@, value@),
    {
        self.remove(key);
        let ghost before = self.entries@;
        self.entries.push((key.to_owned(), value));
        assert(self.entries@.drop_last() =~= before);
        assert(self.map() =~= old(self).map().insert(key@, value@));
    }
}

} // verus!
