//! A table of values by number, which keeps its keys in the order they came.

use std::collections::HashMap;
use vstd::prelude::*;
use vstd::std_specs::hash::obeys_key_model;

verus! {

/// A number a table has its values by.
pub trait Number: Copy + Eq + std::hash::Hash {
    /// A number hashes as a key does.
    proof fn hashes()
        ensures
            obeys_key_model::<Self>(),
    ;

    /// Whether two numbers are the same.
    fn same(&self, other: &Self) -> (same: bool)
        ensures
            same == (*self == *other),
    ;
}

impl Number for u64 {
    proof fn hashes() {
        broadcast use vstd::std_specs::hash::group_hash_axioms;

    }

    fn same(&self, other: &Self) -> (same: bool) {
        *self == *other
    }
}

impl Number for i64 {
    proof fn hashes() {
        broadcast use vstd::std_specs::hash::group_hash_axioms;

    }

    fn same(&self, other: &Self) -> (same: bool) {
        *self == *other
    }
}

impl Number for u32 {
    proof fn hashes() {
        broadcast use vstd::std_specs::hash::group_hash_axioms;

    }

    fn same(&self, other: &Self) -> (same: bool) {
        *self == *other
    }
}

/// A list with each of its members where it first stands.
pub open spec fn firsts<T>(list: Seq<T>) -> Seq<T>
    decreases list.len(),
{
    if list.len() == 0 {
        list
    } else {
        let before = firsts(list.drop_last());
        if before.contains(list.last()) {
            before
        } else {
            before.push(list.last())
        }
    }
}

/// Keys but one.
pub open spec fn keys_but<T>(keys: Seq<T>, key: T) -> Seq<T> {
    keys.filter(|k: T| k != key)
}

proof fn each_member_first_stands_somewhere<T>(list: Seq<T>)
    ensures
        firsts(list).no_duplicates(),
        forall|one: T| #[trigger] firsts(list).contains(one) <==> list.contains(one),
    decreases list.len(),
{
    if list.len() > 0 {
        let before = list.drop_last();
        let last = list.last();
        each_member_first_stands_somewhere(before);
        assert forall|one: T| #[trigger] firsts(list).contains(one) <==> list.contains(one) by {
            assert(list.contains(one) <==> before.contains(one) || one == last) by {
                assert(list =~= before.push(last));
                broadcast use vstd::seq_lib::group_seq_properties;

            }
            assert(firsts(before).push(last).contains(one) <==> firsts(before).contains(one) || one
                == last) by {
                broadcast use vstd::seq_lib::group_seq_properties;

            }
        }
    }
}

proof fn a_list_without_repeats_is_its_firsts<T>(list: Seq<T>)
    requires
        list.no_duplicates(),
    ensures
        firsts(list) == list,
    decreases list.len(),
{
    if list.len() > 0 {
        let before = list.drop_last();
        assert(before.no_duplicates()) by {
            assert forall|i: int, j: int|
                0 <= i < before.len() && 0 <= j < before.len() && i != j implies before[i]
                != before[j] by {
                assert(before[i] == list[i] && before[j] == list[j]);
            }
        }
        a_list_without_repeats_is_its_firsts(before);
        assert(!before.contains(list.last())) by {
            if before.contains(list.last()) {
                let i = choose|i: int| 0 <= i < before.len() && before[i] == list.last();
                assert(list[i] == list[list.len() - 1]);
            }
        }
        assert(list =~= before.push(list.last()));
    }
}

/// Values by number.
#[derive(Debug)]
pub struct Table<K: Number, V> {
    values: HashMap<K, V>,
    order: Vec<K>,
}

impl<K: Number, V> View for Table<K, V> {
    type V = Map<K, V>;

    closed spec fn view(&self) -> Map<K, V> {
        self.values@.restrict(self.order@.to_set())
    }
}

impl<K: Number, V> Table<K, V> {
    /// Each key there is a value for is listed, and listed once.
    #[verifier::type_invariant]
    spec fn listed_once(&self) -> bool {
        &&& self.order@.no_duplicates()
        &&& forall|key: K|
            self.order@.contains(key) <==> #[trigger] self.values@.dom().contains(key)
    }

    /// The keys, in the order they came.
    pub closed spec fn keys(&self) -> Seq<K> {
        firsts(self.order@.filter(|key: K| self.values@.dom().contains(key)))
    }

    proof fn as_it_stands(&self)
        requires
            self.listed_once(),
        ensures
            self@ == self.values@,
            self.keys() == self.order@,
    {
        let held = |key: K| self.values@.dom().contains(key);
        assert(self.values@.restrict(self.order@.to_set()) =~= self.values@) by {
            assert forall|key: K| self.values@.dom().contains(key) implies #[trigger]
                self.order@.to_set().contains(key) by {
                assert(self.order@.contains(key));
            }
        }
        assert forall|i: int| 0 <= i < self.order@.len() implies held(self.order@[i]) by {
            assert(self.order@.contains(self.order@[i]));
        }
        all_are_kept(self.order@, held);
        a_list_without_repeats_is_its_firsts(self.order@);
    }

    /// The keys are those there is a value for, each once.
    pub proof fn keys_have_values(&self)
        ensures
            self.keys().no_duplicates(),
            forall|key: K| self.keys().contains(key) <==> #[trigger] self@.dom().contains(key),
    {
        let held = |key: K| self.values@.dom().contains(key);
        let kept = self.order@.filter(held);
        each_member_first_stands_somewhere(kept);
        assert forall|key: K| self.keys().contains(key) <==> #[trigger] self@.dom().contains(
            key,
        ) by {
            broadcast use vstd::seq_lib::group_filter_ensures;

            assert(self.keys().contains(key) <==> kept.contains(key));
            if kept.contains(key) {
                self.order@.lemma_filter_contains_rev(held, key);
                let i = choose|i: int| 0 <= i < kept.len() && kept[i] == key;
                assert(held(kept[i]));
                assert(self.order@.to_set().contains(key));
            }
            if self@.dom().contains(key) {
                assert(self.order@.to_set().contains(key));
                let i = choose|i: int| 0 <= i < self.order@.len() && self.order@[i] == key;
                assert(held(self.order@[i]));
                assert(kept.contains(self.order@[i]));
            }
        }
    }

    /// A table with nothing in it.
    pub fn new() -> (table: Self)
        ensures
            table@ == Map::<K, V>::empty(),
            table.keys() == Seq::<K>::empty(),
    {
        let table: Table<K, V> = Table { values: HashMap::new(), order: Vec::new() };
        proof {
            table.as_it_stands();
        }
        table
    }

    /// Whether there is a value under a key.
    pub fn contains_key(&self, key: &K) -> (held: bool)
        ensures
            held == self@.dom().contains(*key),
    {
        broadcast use vstd::std_specs::hash::group_hash_axioms;

        proof {
            use_type_invariant(self);
            self.as_it_stands();
            K::hashes();
        }
        self.values.contains_key(key)
    }

    /// The value under a key.
    pub fn get(&self, key: &K) -> (value: Option<&V>)
        ensures
            value is Some <==> self@.dom().contains(*key),
            value matches Some(value) ==> *value == self@[*key],
    {
        broadcast use vstd::std_specs::hash::group_hash_axioms;

        proof {
            use_type_invariant(self);
            self.as_it_stands();
            K::hashes();
        }
        self.values.get(key)
    }

    fn take_apart(&mut self) -> (parts: (HashMap<K, V>, Vec<K>))
        ensures
            parts.1@.no_duplicates(),
            forall|key: K|
                parts.1@.contains(key) <==> #[trigger] parts.0@.dom().contains(key),
            parts.0@ == old(self)@,
            parts.1@ == old(self).keys(),
    {
        let mut whole: Table<K, V> = Table::new();
        std::mem::swap(&mut whole, self);
        proof {
            use_type_invariant(&whole);
            whole.as_it_stands();
        }
        let Table { values, order } = whole;
        (values, order)
    }

    /// Put a value under a key, in place of the one there was.
    pub fn insert(&mut self, key: K, value: V)
        ensures
            final(self)@ == old(self)@.insert(key, value),
            final(self).keys() == (if old(self)@.dom().contains(key) {
                old(self).keys()
            } else {
                old(self).keys().push(key)
            }),
    {
        broadcast use vstd::std_specs::hash::group_hash_axioms;

        proof {
            K::hashes();
        }
        let (mut values, mut order) = self.take_apart();
        let ghost before = order@;
        if values.insert(key, value).is_none() {
            order.push(key);
            proof {
                assert forall|k: K| order@.contains(k) <==> #[trigger] values@.dom().contains(
                    k,
                ) by {
                    assert(before.push(key).contains(k) <==> before.contains(k) || k == key) by {
                        broadcast use vstd::seq_lib::group_seq_properties;

                    }
                }
            }
        }
        *self = Table { values, order };
        proof {
            self.as_it_stands();
        }
    }

    /// Take a key out, with its value.
    pub fn remove(&mut self, key: &K) -> (taken: Option<V>)
        ensures
            final(self)@ == old(self)@.remove(*key),
            final(self).keys() == keys_but(old(self).keys(), *key),
            taken is Some <==> old(self)@.dom().contains(*key),
            taken matches Some(taken) ==> taken == old(self)@[*key],
    {
        broadcast use vstd::std_specs::hash::group_hash_axioms;

        proof {
            K::hashes();
        }
        let (mut values, order) = self.take_apart();
        let ghost all = values@;
        let taken: Option<V> = values.remove(key);
        let rest: Vec<K> = if taken.is_some() {
            keep_but(&order, key)
        } else {
            order
        };
        proof {
            assert(values@ =~= all.remove(*key));
            keeping_but_one(order@, *key);
        }
        *self = Table { values, order: rest };
        proof {
            self.as_it_stands();
        }
        taken
    }

    /// The keys, in the order they came.
    pub fn key_list(&self) -> (list: Vec<K>)
        ensures
            list@ == self.keys(),
    {
        proof {
            use_type_invariant(self);
            self.as_it_stands();
        }
        let mut list: Vec<K> = Vec::new();
        let mut at: usize = 0;
        while at < self.order.len()
            invariant
                at <= self.order@.len(),
                list@ == self.order@.take(at as int),
            decreases self.order@.len() - at,
        {
            list.push(self.order[at]);
            at = at + 1;
            proof {
                assert(list@ =~= self.order@.take(at as int));
            }
        }
        proof {
            assert(self.order@.take(at as int) =~= self.order@);
        }
        list
    }
}

fn keep_but<K: Number>(list: &Vec<K>, key: &K) -> (kept: Vec<K>)
    ensures
        kept@ == keys_but(list@, *key),
{
    let mut kept: Vec<K> = Vec::new();
    let mut at: usize = 0;
    proof {
        reveal(Seq::filter);
        assert(list@.take(0) =~= Seq::empty());
    }
    while at < list.len()
        invariant
            at <= list@.len(),
            kept@ == keys_but(list@.take(at as int), *key),
        decreases list@.len() - at,
    {
        proof {
            reveal(Seq::filter);
            assert(list@.take(at + 1).drop_last() =~= list@.take(at as int));
            assert(list@.take(at + 1).last() == list@[at as int]);
        }
        if !list[at].same(key) {
            kept.push(list[at]);
        }
        at = at + 1;
    }
    proof {
        assert(list@.take(at as int) =~= list@);
    }
    kept
}

proof fn keeping_but_one<T>(list: Seq<T>, key: T)
    requires
        list.no_duplicates(),
    ensures
        keys_but(list, key).no_duplicates(),
        forall|one: T|
            #[trigger] keys_but(list, key).contains(one) <==> list.contains(one) && one != key,
        !list.contains(key) ==> keys_but(list, key) == list,
    decreases list.len(),
{
    reveal(Seq::filter);
    let kept = keys_but(list, key);
    if list.len() > 0 {
        let before = list.drop_last();
        let last = list.last();
        assert(list =~= before.push(last));
        assert forall|i: int, j: int|
            0 <= i < before.len() && 0 <= j < before.len() && i != j implies before[i]
            != before[j] by {
            assert(before[i] == list[i] && before[j] == list[j]);
        }
        keeping_but_one(before, key);
        assert(!before.contains(last)) by {
            if before.contains(last) {
                let i = choose|i: int| 0 <= i < before.len() && before[i] == last;
                assert(list[i] == list[list.len() - 1]);
            }
        }
        assert forall|one: T| #[trigger] kept.contains(one) <==> list.contains(one) && one
            != key by {
            broadcast use vstd::seq_lib::group_seq_properties;

            assert(list.contains(one) <==> before.contains(one) || one == last);
            assert(keys_but(before, key).push(last).contains(one) <==> keys_but(
                before,
                key,
            ).contains(one) || one == last);
        }
        assert(kept.no_duplicates()) by {
            let earlier = keys_but(before, key);
            assert(!earlier.contains(last));
            assert forall|i: int, j: int|
                0 <= i < kept.len() && 0 <= j < kept.len() && i != j implies kept[i] != kept[j] by {
                if last != key {
                    assert(i < earlier.len() ==> earlier.contains(earlier[i]));
                    assert(j < earlier.len() ==> earlier.contains(earlier[j]));
                }
            }
        }
        if !list.contains(key) {
            assert(list[list.len() - 1] != key);
            assert(!before.contains(key)) by {
                if before.contains(key) {
                    let i = choose|i: int| 0 <= i < before.len() && before[i] == key;
                    assert(list[i] == key);
                }
            }
        }
    }
}

proof fn all_are_kept<T>(list: Seq<T>, kept: spec_fn(T) -> bool)
    requires
        forall|i: int| 0 <= i < list.len() ==> kept(#[trigger] list[i]),
    ensures
        list.filter(kept) == list,
    decreases list.len(),
{
    reveal(Seq::filter);
    if list.len() > 0 {
        let before = list.drop_last();
        assert forall|i: int| 0 <= i < before.len() implies kept(#[trigger] before[i]) by {
            assert(before[i] == list[i]);
        }
        all_are_kept(before, kept);
        assert(kept(list[list.len() - 1]));
        assert(list =~= before.push(list.last()));
    }
}

} // verus!
