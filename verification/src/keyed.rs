//! Values keyed by text, each key held at most once.

use vstd::prelude::*;

use crate::element::lookup_entry;

verus! {

/// No two entries share a key.
pub open spec fn keys_distinct<V>(entries: Seq<(String, V)>) -> bool {
    forall|i: int, j: int| 0 <= i < j < entries.len() ==> entries[i].0@ != entries[j].0@
}

/// The entries after inserting `value` under `key`: the entry with that
/// key takes the new value where there is one, and a new entry is appended
/// otherwise.
pub open spec fn spec_insert<V>(entries: Seq<(String, V)>, key: String, value: V) -> Seq<
    (String, V),
> {
    if exists|i: int| crate::element::is_first_key(entries, key@, i) {
        entries.update(
            choose|i: int| crate::element::is_first_key(entries, key@, i),
            (key, value),
        )
    } else {
        entries.push((key, value))
    }
}

/// With no key twice, looking up the key of an entry gives that entry's
/// value.
pub proof fn lemma_lookup_entry_key<V>(entries: Seq<(String, V)>, i: int)
    requires
        keys_distinct(entries),
        0 <= i < entries.len(),
    ensures
        crate::element::lookup(entries, entries[i].0@) == Some(entries[i].1),
{
    let key = entries[i].0@;
    assert(crate::element::is_first_key(entries, key, i));
    let k = choose|k: int| crate::element::is_first_key(entries, key, k);
    assert(k == i) by {
        if k != i {
            if k < i {
                assert(entries[k].0@ != entries[i].0@);
            } else {
                assert(entries[i].0@ != entries[k].0@);
            }
        }
    }
}

/// What is inserted is read back: after inserting `value` under `key`,
/// looking up `key` gives `value`.
pub proof fn lemma_insert_then_lookup<V>(entries: Seq<(String, V)>, key: String, value: V)
    requires
        keys_distinct(entries),
    ensures
        crate::element::lookup(spec_insert(entries, key, value), key@) == Some(value),
{
    let after = spec_insert(entries, key, value);
    let j = if exists|i: int| crate::element::is_first_key(entries, key@, i) {
        choose|i: int| crate::element::is_first_key(entries, key@, i)
    } else {
        entries.len() as int
    };
    assert(after[j] == (key, value));
    assert(crate::element::is_first_key(after, key@, j)) by {
        assert forall|m: int| 0 <= m < j implies after[m].0@ != key@ by {
            assert(after[m] == entries[m]);
            if exists|i: int| crate::element::is_first_key(entries, key@, i) {
            } else {
                if entries[m].0@ == key@ {
                    assert(forall|n: int| 0 <= n < m ==> entries[n].0@ != entries[m].0@);
                    assert(crate::element::is_first_key(entries, key@, m));
                }
            }
        }
    }
    let k = choose|k: int| crate::element::is_first_key(after, key@, k);
    assert(k == j) by {
        if k < j {
            assert(after[k].0@ != key@);
        } else if k > j {
            assert(after[j].0@ != key@);
        }
    }
}

/// Values keyed by text, in the order their keys were first inserted; no
/// key occurs twice.
#[derive(Debug)]
pub struct KeyedList<V> {
    entries: Vec<(String, V)>,
}

impl<V> View for KeyedList<V> {
    type V = Seq<(String, V)>;

    closed spec fn view(&self) -> Seq<(String, V)> {
        self.entries@
    }
}

impl<V> KeyedList<V> {
    #[verifier::type_invariant]
    spec fn inv(self) -> bool {
        keys_distinct(self.entries@)
    }

    /// An empty collection.
    pub fn new() -> (r: Self)
        ensures
            r@ == Seq::<(String, V)>::empty(),
    {
        KeyedList { entries: Vec::new() }
    }

    /// The number of entries; no two of them share a key.
    pub fn len(&self) -> (r: usize)
        ensures
            r == self@.len(),
            keys_distinct(self@),
    {
        proof {
            use_type_invariant(self);
        }
        self.entries.len()
    }

    /// The entry at position `i`.
    pub fn entry(&self, i: usize) -> (r: &(String, V))
        requires
            i < self@.len(),
        ensures
            *r == self@[i as int],
    {
        &self.entries[i]
    }

    /// All entries, in order.
    pub fn entries(&self) -> (r: &Vec<(String, V)>)
        ensures
            r@ == self@,
            keys_distinct(self@),
    {
        proof {
            use_type_invariant(self);
        }
        &self.entries
    }

    /// The value held under `key`, if any.
    pub fn get(&self, key: &String) -> (r: Option<&V>)
        ensures
            match r {
                Some(v) => crate::element::lookup(self@, key@) == Some(*v),
                None => crate::element::lookup(self@, key@).is_none(),
            },
    {
        lookup_entry(&self.entries, key)
    }

    /// Holds `value` under `key`, replacing the value held there before.
    pub fn insert(&mut self, key: String, value: V)
        ensures
            final(self)@ == spec_insert(old(self)@, key, value),
            keys_distinct(final(self)@),
    {
        proof {
            use_type_invariant(&*self);
        }
        let ghost old_entries = self.entries@;
        let mut i: usize = 0;
        while i < self.entries.len() && self.entries[i].0 != key
            invariant
                self.entries@ == old_entries,
                i <= old_entries.len(),
                forall|j: int| 0 <= j < i ==> old_entries[j].0@ != key@,
            decreases old_entries.len() - i,
        {
            i += 1;
        }
        if i < self.entries.len() {
            proof {
                assert(crate::element::is_first_key(old_entries, key@, i as int));
                let k = choose|k: int| crate::element::is_first_key(old_entries, key@, k);
                assert(k == i as int) by {
                    if k < i {
                        assert(old_entries[k].0@ != key@);
                    } else if k > i {
                        assert(old_entries[i as int].0@ != key@);
                    }
                }
            }
            let ghost new_entries = old_entries.update(i as int, (key, value));
            proof {
                assert(keys_distinct(new_entries)) by {
                    assert forall|a: int, b: int| 0 <= a < b < new_entries.len() implies new_entries[a].0@
                        != new_entries[b].0@ by {
                        if a == i {
                            assert(old_entries[b].0@ != old_entries[i as int].0@);
                        } else if b == i {
                            assert(old_entries[a].0@ != old_entries[i as int].0@);
                        }
                    }
                }
            }
            let mut entries: Vec<(String, V)> = Vec::new();
            std::mem::swap(&mut entries, &mut self.entries);
            entries.set(i, (key, value));
            self.entries = entries;
        } else {
            proof {
                assert forall|k: int| !crate::element::is_first_key(old_entries, key@, k) by {
                    if 0 <= k < old_entries.len() {
                        assert(old_entries[k].0@ != key@);
                    }
                }
            }
            let mut entries: Vec<(String, V)> = Vec::new();
            std::mem::swap(&mut entries, &mut self.entries);
            entries.push((key, value));
            self.entries = entries;
        }
    }
}

impl<V: Clone> Clone for KeyedList<V> {
    /// A copy with the same keys in the same order, each value cloned.
    fn clone(&self) -> (r: Self)
        ensures
            r@.len() == self@.len(),
            forall|i: int| 0 <= i < r@.len() ==> #[trigger] r@[i].0 == self@[i].0,
    {
        proof {
            use_type_invariant(self);
        }
        let mut out: Vec<(String, V)> = Vec::new();
        let n = self.entries.len();
        for i in 0..n
            invariant
                n == self.entries@.len(),
                keys_distinct(self.entries@),
                out@.len() == i,
                forall|k: int| 0 <= k < i ==> #[trigger] out@[k].0 == self.entries@[k].0,
        {
            let (key, value) = &self.entries[i];
            out.push((key.clone(), value.clone()));
        }
        KeyedList { entries: out }
    }
}

impl<V> Default for KeyedList<V> {
    /// An empty collection.
    fn default() -> (r: Self)
        ensures
            r@ == Seq::<(String, V)>::empty(),
    {
        KeyedList::new()
    }
}

} // verus!
