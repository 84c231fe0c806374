//! A list of values by key, for keys that are texts or pairs.

use vstd::prelude::*;

verus! {

/// A key of a list.
pub trait Key: View + Sized {
    /// Whether two keys are the same.
    fn same(&self, other: &Self) -> (same: bool)
        ensures
            same == (self@ == other@),
    ;
}

impl Key for (u64, u32) {
    fn same(&self, other: &Self) -> (same: bool) {
        self.0 == other.0 && self.1 == other.1
    }
}

impl Key for String {
    fn same(&self, other: &Self) -> (same: bool) {
        *self.as_str() == *other.as_str()
    }
}

/// The values of a list of entries by key: the first of each.
pub open spec fn values_of<K: View, V>(entries: Seq<(K, V)>) -> Map<K::V, V>
    decreases entries.len(),
{
    if entries.len() == 0 {
        Map::empty()
    } else {
        let before = values_of(entries.drop_last());
        let (key, value) = entries.last();
        if before.dom().contains(key@) {
            before
        } else {
            before.insert(key@, value)
        }
    }
}

/// Values by key.
#[derive(Debug)]
pub struct Listing<K, V> {
    entries: Vec<(K, V)>,
}

impl<K: Key, V> View for Listing<K, V> {
    type V = Map<K::V, V>;

    closed spec fn view(&self) -> Map<K::V, V> {
        values_of(self.entries@)
    }
}

proof fn absent_from_every_entry<K: Key, V>(entries: Seq<(K, V)>, key: K::V)
    ensures
        values_of(entries).dom().contains(key) <==> exists|i: int|
            0 <= i < entries.len() && (#[trigger] entries[i]).0@ == key,
    decreases entries.len(),
{
    if entries.len() > 0 {
        let before = entries.drop_last();
        absent_from_every_entry(before, key);
        if values_of(entries).dom().contains(key) {
            if entries.last().0@ == key {
                assert(entries[entries.len() - 1].0@ == key);
            } else {
                let i = choose|i: int| 0 <= i < before.len() && (#[trigger] before[i]).0@ == key;
                assert(entries[i].0@ == key);
            }
        }
        if exists|i: int| 0 <= i < entries.len() && (#[trigger] entries[i]).0@ == key {
            let i = choose|i: int| 0 <= i < entries.len() && (#[trigger] entries[i]).0@ == key;
            if i < before.len() {
                assert(before[i].0@ == key);
            } else {
                assert(entries.last().0@ == key);
            }
        }
    }
}

/// The first entry under a key holds the value of that key, and replacing it
/// replaces that value and no other.
proof fn the_first_entry_counts<K: Key, V>(entries: Seq<(K, V)>, at: int, key: K, value: V)
    requires
        0 <= at < entries.len(),
        entries[at].0@ == key@,
        forall|i: int| 0 <= i < at ==> (#[trigger] entries[i]).0@ != key@,
    ensures
        values_of(entries).dom().contains(key@),
        values_of(entries)[key@] == entries[at].1,
        values_of(entries.update(at, (key, value))) == values_of(entries).insert(key@, value),
    decreases entries.len(),
{
    let before = entries.drop_last();
    let changed = entries.update(at, (key, value));
    absent_from_every_entry(before, key@);
    if at < before.len() {
        assert(before[at] == entries[at]);
        assert forall|i: int| 0 <= i < at implies (#[trigger] before[i]).0@ != key@ by {
            assert(before[i] == entries[i]);
        }
        the_first_entry_counts(before, at, key, value);
        assert(changed.drop_last() =~= before.update(at, (key, value)));
        assert(changed.last() == entries.last());
        assert(values_of(changed) =~= values_of(entries).insert(key@, value));
    } else {
        assert(changed.drop_last() =~= before);
        assert forall|i: int| 0 <= i < before.len() implies (#[trigger] before[i]).0@ != key@ by {
            assert(before[i] == entries[i]);
        }
        assert(values_of(changed) =~= values_of(entries).insert(key@, value));
    }
}

/// Entries but those under a key.
pub open spec fn entries_but<K: Key, V>(entries: Seq<(K, V)>, key: K::V) -> Seq<(K, V)>
    decreases entries.len(),
{
    if entries.len() == 0 {
        Seq::empty()
    } else if entries.last().0@ == key {
        entries_but(entries.drop_last(), key)
    } else {
        entries_but(entries.drop_last(), key).push(entries.last())
    }
}

proof fn taking_out_a_key<K: Key, V>(entries: Seq<(K, V)>, key: K::V)
    ensures
        values_of(entries_but(entries, key)) == values_of(entries).remove(key),
    decreases entries.len(),
{
    if entries.len() == 0 {
        assert(values_of(entries) =~= values_of(entries).remove(key));
    } else {
        let before = entries.drop_last();
        taking_out_a_key(before, key);
        let rest = entries_but(before, key);
        if entries.last().0@ != key {
            assert(rest.push(entries.last()).drop_last() =~= rest);
            assert(rest.push(entries.last()).last() == entries.last());
        }
        assert(values_of(entries_but(entries, key)) =~= values_of(entries).remove(key));
    }
}

impl<K: Key, V> Listing<K, V> {
    /// A list with nothing in it.
    pub fn new() -> (list: Self)
        ensures
            list@ == Map::<K::V, V>::empty(),
    {
        Listing { entries: Vec::new() }
    }

    fn position(&self, key: &K) -> (at: Option<usize>)
        ensures
            match at {
                Some(at) => {
                    &&& at < self.entries@.len()
                    &&& self.entries@[at as int].0@ == key@
                    &&& forall|i: int| 0 <= i < at ==> (#[trigger] self.entries@[i]).0@ != key@
                },
                None => !self@.dom().contains(key@),
            },
    {
        let mut at: usize = 0;
        while at < self.entries.len()
            invariant
                at <= self.entries@.len(),
                forall|i: int| 0 <= i < at ==> (#[trigger] self.entries@[i]).0@ != key@,
            decreases self.entries@.len() - at,
        {
            if self.entries[at].0.same(key) {
                return Some(at);
            }
            at = at + 1;
        }
        proof {
            absent_from_every_entry(self.entries@, key@);
        }
        None
    }

    /// The value under a key.
    pub fn get(&self, key: &K) -> (value: Option<&V>)
        ensures
            value is Some <==> self@.dom().contains(key@),
            value matches Some(value) ==> *value == self@[key@],
    {
        match self.position(key) {
            Some(at) => {
                proof {
                    the_first_entry_counts(
                        self.entries@,
                        at as int,
                        self.entries@[at as int].0,
                        self.entries@[at as int].1,
                    );
                }
                Some(&self.entries[at].1)
            },
            None => None,
        }
    }

    /// Put a value under a key, in place of the one there was.
    pub fn insert(&mut self, key: K, value: V)
        ensures
            final(self)@ == old(self)@.insert(key@, value),
    {
        match self.position(&key) {
            Some(at) => {
                proof {
                    the_first_entry_counts(self.entries@, at as int, key, value);
                }
                self.entries.set(at, (key, value));
            },
            None => {
                self.entries.push((key, value));
                proof {
                    assert(self.entries@.drop_last() =~= old(self).entries@);
                }
            },
        }
    }

    /// Take a key out, with its value.
    pub fn remove(&mut self, key: &K) -> (taken: Option<V>)
        ensures
            final(self)@ == old(self)@.remove(key@),
            taken is Some <==> old(self)@.dom().contains(key@),
            taken matches Some(taken) ==> taken == old(self)@[key@],
    {
        let ghost whole = self.entries@;
        let mut left: Vec<(K, V)> = Vec::new();
        std::mem::swap(&mut left, &mut self.entries);
        let mut rest: Vec<(K, V)> = Vec::new();
        let mut taken: Option<V> = None;
        let ghost mut done: int = 0;
        proof {
            assert(whole.take(0) =~= Seq::empty());
            assert(left@ =~= whole.skip(0));
        }
        while left.len() > 0
            invariant
                0 <= done <= whole.len(),
                left@ == whole.skip(done),
                rest@ == entries_but(whole.take(done), key@),
                taken is Some <==> values_of(whole.take(done)).dom().contains(key@),
                taken matches Some(taken) ==> taken == values_of(whole.take(done))[key@],
            decreases left@.len(),
        {
            let (name, value) = left.remove(0);
            proof {
                assert(whole.take(done + 1).drop_last() =~= whole.take(done));
                assert(whole.take(done + 1).last() == (name, value));
                assert(left@ =~= whole.skip(done + 1));
                done = done + 1;
            }
            if name.same(key) {
                if taken.is_none() {
                    taken = Some(value);
                }
            } else {
                rest.push((name, value));
            }
        }
        self.entries = rest;
        proof {
            assert(whole.take(done) =~= whole);
            taking_out_a_key(whole, key@);
        }
        taken
    }
}

} // verus!
