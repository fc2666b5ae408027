//! A small insertion-ordered map from names to values.
//!
//! The table is keyed by the characters of a name. vstd models a
//! `HashMap<String, V>` as a map keyed by the `String` itself, of which an
//! equal string is not known to be the same key, so that a lookup after an
//! insertion cannot be proved to find anything. Frames, fields and method
//! tables are small; a vector searched from its newest entry serves them.

use vstd::prelude::*;

verus! {

/// A map keyed by strings. The newest entry for a key is the one that counts.
pub struct Table<V> {
    pub entries: Vec<(String, V)>,
}

/// The map that a sequence of entries stands for: later entries win.
pub open spec fn map_of<V>(entries: Seq<(String, V)>) -> Map<Seq<char>, V>
    decreases entries.len(),
{
    if entries.len() == 0 {
        Map::empty()
    } else {
        map_of(entries.drop_last()).insert(entries.last().0@, entries.last().1)
    }
}

/// No entry from index `from` on has the key `key`.
pub open spec fn absent_from<V>(entries: Seq<(String, V)>, from: int, key: Seq<char>) -> bool {
    forall|j: int| from <= j < entries.len() ==> (#[trigger] entries[j]).0@ != key
}

/// Entries behind the last occurrence of a key do not matter for that key.
pub proof fn lemma_lookup_prefix<V>(entries: Seq<(String, V)>, n: int, key: Seq<char>)
    requires
        0 <= n <= entries.len(),
        absent_from(entries, n, key),
    ensures
        map_of(entries).contains_key(key) == map_of(entries.take(n)).contains_key(key),
        map_of(entries).contains_key(key) ==> map_of(entries)[key] == map_of(entries.take(n))[key],
    decreases entries.len(),
{
    if n == entries.len() {
        assert(entries.take(n) =~= entries);
    } else {
        let shorter = entries.drop_last();
        assert(entries.last() == entries[entries.len() - 1]);
        assert(absent_from(shorter, n, key)) by {
            assert forall|j: int| n <= j < shorter.len() implies (#[trigger] shorter[j]).0@
                != key by {
                assert(shorter[j] == entries[j]);
            }
        }
        lemma_lookup_prefix(shorter, n, key);
        assert(shorter.take(n) =~= entries.take(n));
    }
}

/// Replacing the value at the last occurrence of a key is an insertion.
pub proof fn lemma_update_last<V>(entries: Seq<(String, V)>, i: int, key: String, value: V)
    requires
        0 <= i < entries.len(),
        entries[i].0@ == key@,
        absent_from(entries, i + 1, key@),
    ensures
        map_of(entries.update(i, (key, value))) == map_of(entries).insert(key@, value),
    decreases entries.len(),
{
    let updated = entries.update(i, (key, value));
    if i == entries.len() - 1 {
        assert(updated.drop_last() =~= entries.drop_last());
        assert(map_of(updated) =~= map_of(entries).insert(key@, value));
    } else {
        let shorter = entries.drop_last();
        assert(absent_from(shorter, i + 1, key@)) by {
            assert forall|j: int| i + 1 <= j < shorter.len() implies (#[trigger] shorter[j]).0@
                != key@ by {
                assert(shorter[j] == entries[j]);
            }
        }
        lemma_update_last(shorter, i, key, value);
        assert(updated.drop_last() =~= shorter.update(i, (key, value)));
        assert(updated.last() == entries.last());
        assert(entries.last() == entries[entries.len() - 1]);
        assert(entries.last().0@ != key@);
        assert(map_of(updated) =~= map_of(entries).insert(key@, value));
    }
}

impl<V> View for Table<V> {
    type V = Map<Seq<char>, V>;

    open spec fn view(&self) -> Map<Seq<char>, V> {
        map_of(self.entries@)
    }
}

impl<V> Table<V> {
    /// An empty table.
    pub fn new() -> (table: Self)
        ensures
            table@ == Map::<Seq<char>, V>::empty(),
            table.entries@.len() == 0,
    {
        Table { entries: Vec::new() }
    }

    /// The index of the entry that counts for `key`, if there is one.
    pub fn position(&self, key: &String) -> (found: Option<usize>)
        ensures
            found is Some <==> self@.contains_key(key@),
            found matches Some(i) ==> {
                &&& i < self.entries@.len()
                &&& self.entries@[i as int].0@ == key@
                &&& self.entries@[i as int].1 == self@[key@]
                &&& absent_from(self.entries@, i + 1, key@)
            },
    {
        let mut i: usize = self.entries.len();
        while i > 0
            invariant
                i <= self.entries@.len(),
                absent_from(self.entries@, i as int, key@),
            decreases i,
        {
            if self.entries[i - 1].0 == *key {
                proof {
                    lemma_lookup_prefix(self.entries@, i as int, key@);
                    let upto = self.entries@.take(i as int);
                    assert(upto.last() == self.entries@[i - 1]);
                    assert(map_of(upto).contains_key(key@));
                    assert(map_of(upto)[key@] == self.entries@[i - 1].1);
                }
                return Some(i - 1);
            }
            i -= 1;
        }
        proof {
            lemma_lookup_prefix(self.entries@, 0, key@);
            assert(self.entries@.take(0).len() == 0);
        }
        None
    }

    /// The value bound to `key`, if there is one.
    pub fn get(&self, key: &String) -> (found: Option<&V>)
        ensures
            found is Some <==> self@.contains_key(key@),
            found matches Some(value) ==> *value == self@[key@],
    {
        match self.position(key) {
            Some(i) => Some(&self.entries[i].1),
            None => None,
        }
    }

    /// Whether `key` is bound.
    pub fn contains_key(&self, key: &String) -> (found: bool)
        ensures
            found == self@.contains_key(key@),
    {
        self.position(key).is_some()
    }

    /// Binds `key` to `value`, replacing what it was bound to.
    pub fn insert(&mut self, key: String, value: V)
        ensures
            final(self)@ == old(self)@.insert(key@, value),
    {
        match self.position(&key) {
            Some(i) => {
                proof {
                    lemma_update_last(self.entries@, i as int, key, value);
                }
                self.entries.set(i, (key, value));
            },
            None => {
                proof {
                    assert(self.entries@.push((key, value)).drop_last() =~= self.entries@);
                }
                self.entries.push((key, value));
            },
        }
    }
}

} // verus!
