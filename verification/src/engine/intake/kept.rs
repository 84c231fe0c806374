//! Orders built and not sent, waiting for one that transmits.

use crate::types::orders::OrderRequest;
use vstd::prelude::*;

verus! {

/// An order built and not sent. Kept in the order they were placed, which is
/// the order they go out in.
#[derive(Debug, PartialEq)]
pub struct Kept {
    pub order_id: u64,
    /// The order it hangs from, or nought.
    pub parent_id: i64,
    pub command: OrderRequest,
}

/// Whether what is kept would place the order, rather than revise one the
/// venue is already working.
pub open spec fn is_placement(kept: Kept) -> bool {
    kept.command.places()
}

impl Kept {
    /// Whether what is kept would place the order. Forgetting a placement is
    /// the whole of a withdrawal; forgetting a revision leaves the order it
    /// revises live.
    pub fn places_the_order(&self) -> (places: bool)
        ensures
            places == is_placement(*self),
    {
        self.command.places_the_order()
    }
}

/// Where an order is first kept under a number.
pub open spec fn kept_at(kept: Seq<Kept>, order_id: u64) -> Option<int>
    decreases kept.len(),
{
    if kept.len() == 0 {
        None
    } else {
        match kept_at(kept.drop_last(), order_id) {
            Some(at) => Some(at),
            None => if kept.last().order_id == order_id {
                Some(kept.len() - 1)
            } else {
                None
            },
        }
    }
}

/// Whether each number is kept under once.
pub open spec fn kept_once(kept: Seq<Kept>) -> bool {
    forall|i: int, j: int|
        0 <= i < j < kept.len() ==> (#[trigger] kept[i]).order_id != (#[trigger] kept[j]).order_id
}

/// Whether what is kept under a number would place the order.
pub open spec fn placement_kept(kept: Seq<Kept>, order_id: u64) -> bool {
    exists|i: int|
        0 <= i < kept.len() && (#[trigger] kept[i]).order_id == order_id && is_placement(kept[i])
}

/// The orders kept with one more: in the place its number already has, and
/// last otherwise.
pub open spec fn with_kept(kept: Seq<Kept>, one: Kept) -> Seq<Kept> {
    match kept_at(kept, one.order_id) {
        Some(at) => kept.update(at, one),
        None => kept.push(one),
    }
}

/// The orders kept without the first under a number.
pub open spec fn without_kept(kept: Seq<Kept>, order_id: u64) -> Seq<Kept> {
    match kept_at(kept, order_id) {
        Some(at) => kept.remove(at),
        None => kept,
    }
}

/// Whether an order shares a family with one that transmits: it hangs from the
/// same parent, or from that order.
pub open spec fn in_the_family(one: Kept, order_id: u64, parent_id: i64) -> bool {
    one.order_id != order_id && ((parent_id != 0 && one.parent_id == parent_id) || one.parent_id
        == order_id as i64)
}

/// The family an order that transmits releases, in the order it goes: its
/// parent where that is kept, then what shares the parent or hangs from the
/// order itself.
pub open spec fn family(kept: Seq<Kept>, order_id: u64, parent_id: i64) -> Seq<Kept> {
    let (going, rest) = if parent_id > 0 {
        match kept_at(kept, parent_id as u64) {
            Some(at) => (seq![kept[at]], kept.remove(at)),
            None => (Seq::empty(), kept),
        }
    } else {
        (Seq::empty(), kept)
    };
    going + rest.filter(|one: Kept| in_the_family(one, order_id, parent_id))
}

/// What stays kept once a family is released.
pub open spec fn outside_the_family(kept: Seq<Kept>, order_id: u64, parent_id: i64) -> Seq<Kept> {
    let rest = if parent_id > 0 {
        without_kept(kept, parent_id as u64)
    } else {
        kept
    };
    rest.filter(|one: Kept| !in_the_family(one, order_id, parent_id))
}

/// An order is first kept where nothing before it has its number.
pub proof fn first_kept(kept: Seq<Kept>, order_id: u64)
    ensures
        match kept_at(kept, order_id) {
            Some(at) => {
                &&& 0 <= at < kept.len()
                &&& kept[at].order_id == order_id
                &&& forall|i: int| 0 <= i < at ==> (#[trigger] kept[i]).order_id != order_id
            },
            None => forall|i: int|
                0 <= i < kept.len() ==> (#[trigger] kept[i]).order_id != order_id,
        },
    decreases kept.len(),
{
    if kept.len() > 0 {
        let before = kept.drop_last();
        first_kept(before, order_id);
        match kept_at(before, order_id) {
            Some(at) => {
                assert(kept[at] == before[at]);
                assert forall|i: int| 0 <= i < at implies (#[trigger] kept[i]).order_id
                    != order_id by {
                    assert(kept[i] == before[i]);
                }
            },
            None => {
                assert forall|i: int| 0 <= i < kept.len() - 1 implies (#[trigger] kept[i]).order_id
                    != order_id by {
                    assert(kept[i] == before[i]);
                }
            },
        }
    }
}

proof fn the_first_is_the_one(kept: Seq<Kept>, order_id: u64, at: int)
    requires
        0 <= at < kept.len(),
        kept[at].order_id == order_id,
        forall|i: int| 0 <= i < at ==> (#[trigger] kept[i]).order_id != order_id,
    ensures
        kept_at(kept, order_id) == Some(at),
{
    first_kept(kept, order_id);
    match kept_at(kept, order_id) {
        Some(found) => {
            if found < at {
                assert(kept[found].order_id == order_id);
            } else if at < found {
                assert(kept[at].order_id == order_id);
            }
        },
        None => {
            assert(kept[at].order_id == order_id);
        },
    }
}

/// Where an order is first kept under a number.
pub fn position(kept: &Vec<Kept>, order_id: u64) -> (at: Option<usize>)
    ensures
        match at {
            Some(at) => kept_at(kept@, order_id) == Some(at as int) && at < kept@.len(),
            None => kept_at(kept@, order_id) is None,
        },
{
    let mut at: usize = 0;
    while at < kept.len()
        invariant
            at <= kept@.len(),
            forall|i: int| 0 <= i < at ==> (#[trigger] kept@[i]).order_id != order_id,
        decreases kept@.len() - at,
    {
        if kept[at].order_id == order_id {
            proof {
                the_first_is_the_one(kept@, order_id, at as int);
            }
            return Some(at);
        }
        at = at + 1;
    }
    proof {
        first_kept(kept@, order_id);
    }
    None
}

/// Whether what is kept under a number would place the order.
pub fn keeps_a_placement(kept: &Vec<Kept>, order_id: u64) -> (keeps: bool)
    ensures
        keeps == placement_kept(kept@, order_id),
{
    let mut at: usize = 0;
    while at < kept.len()
        invariant
            at <= kept@.len(),
            forall|i: int|
                0 <= i < at ==> !((#[trigger] kept@[i]).order_id == order_id && is_placement(
                    kept@[i],
                )),
        decreases kept@.len() - at,
    {
        if kept[at].order_id == order_id && kept[at].places_the_order() {
            return true;
        }
        at = at + 1;
    }
    false
}

/// Keep an order back until one that transmits releases it.
pub fn keep(kept: &mut Vec<Kept>, order_id: u64, parent_id: i64, command: OrderRequest)
    ensures
        final(kept)@ == with_kept(old(kept)@, (Kept { order_id, parent_id, command })),
{
    match position(kept, order_id) {
        Some(at) => {
            kept.set(at, Kept { order_id, parent_id, command });
        },
        None => {
            kept.push(Kept { order_id, parent_id, command });
        },
    }
}

/// Take out what is kept under a number.
pub fn release(kept: &mut Vec<Kept>, order_id: u64) -> (released: Option<Kept>)
    ensures
        final(kept)@ == without_kept(old(kept)@, order_id),
        match (released, kept_at(old(kept)@, order_id)) {
            (Some(released), Some(at)) => released == old(kept)@[at],
            (None, None) => true,
            _ => false,
        },
{
    match position(kept, order_id) {
        Some(at) => Some(kept.remove(at)),
        None => None,
    }
}

/// The family an order that transmits releases, taken out of what is kept.
pub fn family_of(kept: &mut Vec<Kept>, order_id: u64, parent_id: i64) -> (going: Vec<Kept>)
    ensures
        going@ == family(old(kept)@, order_id, parent_id),
        final(kept)@ == outside_the_family(old(kept)@, order_id, parent_id),
{
    let mut going: Vec<Kept> = Vec::new();
    if parent_id > 0 {
        match release(kept, parent_id as u64) {
            Some(parent) => {
                going.push(parent);
            },
            None => {},
        }
    }
    let ghost ahead = going@;
    let ghost rest = kept@;
    let ghost inside = |one: Kept| in_the_family(one, order_id, parent_id);
    let ghost outside = |one: Kept| !in_the_family(one, order_id, parent_id);
    proof {
        assert(ahead =~= (if parent_id > 0 {
            match kept_at(old(kept)@, parent_id as u64) {
                Some(at) => seq![old(kept)@[at]],
                None => Seq::empty(),
            }
        } else {
            Seq::empty()
        }));
    }
    let mut left: Vec<Kept> = Vec::new();
    std::mem::swap(&mut left, kept);
    let mut staying: Vec<Kept> = Vec::new();
    let ghost mut done: int = 0;
    proof {
        reveal(Seq::filter);
        assert(rest.take(0) =~= Seq::empty());
        assert(left@ =~= rest.skip(0));
        assert(going@ =~= ahead + rest.take(0).filter(inside));
        assert(staying@ =~= rest.take(0).filter(outside));
    }
    while left.len() > 0
        invariant
            0 <= done <= rest.len(),
            left@ == rest.skip(done),
            inside == (|one: Kept| in_the_family(one, order_id, parent_id)),
            outside == (|one: Kept| !in_the_family(one, order_id, parent_id)),
            going@ == ahead + rest.take(done).filter(inside),
            staying@ == rest.take(done).filter(outside),
        decreases left@.len(),
    {
        let one: Kept = left.remove(0);
        proof {
            reveal(Seq::filter);
            assert(rest.take(done + 1).drop_last() =~= rest.take(done));
            assert(rest.take(done + 1).last() == one);
            assert(left@ =~= rest.skip(done + 1));
        }
        let ghost going_before = going@;
        let ghost staying_before = staying@;
        if one.order_id != order_id && ((parent_id != 0 && one.parent_id == parent_id)
            || one.parent_id == order_id as i64) {
            going.push(one);
        } else {
            staying.push(one);
        }
        proof {
            assert(inside(one) == in_the_family(one, order_id, parent_id));
            assert(outside(one) == !in_the_family(one, order_id, parent_id));
            done = done + 1;
            assert(going@ =~= ahead + rest.take(done).filter(inside));
            assert(staying@ =~= rest.take(done).filter(outside));
        }
    }
    *kept = staying;
    proof {
        assert(rest.take(done) =~= rest);
    }
    going
}

/// What is kept under a number is what a release under it takes out.
pub proof fn what_is_kept_is_released(kept: Seq<Kept>, one: Kept)
    ensures
        kept_at(with_kept(kept, one), one.order_id) matches Some(at) && with_kept(kept, one)[at]
            == one,
{
    first_kept(kept, one.order_id);
    let after = with_kept(kept, one);
    match kept_at(kept, one.order_id) {
        Some(at) => {
            assert forall|i: int| 0 <= i < at implies (#[trigger] after[i]).order_id
                != one.order_id by {
                assert(after[i] == kept[i]);
            }
            the_first_is_the_one(after, one.order_id, at);
        },
        None => {
            assert forall|i: int| 0 <= i < kept.len() implies (#[trigger] after[i]).order_id
                != one.order_id by {
                assert(after[i] == kept[i]);
            }
            the_first_is_the_one(after, one.order_id, kept.len() as int);
        },
    }
}

/// Keeping an order keeps each number once.
pub proof fn each_number_is_kept_once(kept: Seq<Kept>, one: Kept)
    requires
        kept_once(kept),
    ensures
        kept_once(with_kept(kept, one)),
{
    first_kept(kept, one.order_id);
    let after = with_kept(kept, one);
    assert forall|i: int, j: int| 0 <= i < j < after.len() implies (#[trigger] after[i]).order_id
        != (#[trigger] after[j]).order_id by {
        if i < kept.len() && j < kept.len() {
            assert(kept[i].order_id != kept[j].order_id);
        } else if i < kept.len() {
            assert(after[i] == kept[i]);
        }
    }
}

proof fn a_list_is_what_is_in_and_what_is_out(rest: Seq<Kept>, inside: spec_fn(Kept) -> bool)
    ensures
        rest.filter(inside).to_multiset().add(
            rest.filter(|one: Kept| !inside(one)).to_multiset(),
        ) == rest.to_multiset(),
    decreases rest.len(),
{
    broadcast use vstd::seq_lib::group_to_multiset_ensures;

    reveal(Seq::filter);
    let outside = |one: Kept| !inside(one);
    if rest.len() == 0 {
        assert(rest =~= Seq::empty());
        assert(rest.filter(inside) =~= Seq::empty());
        assert(rest.filter(outside) =~= Seq::empty());
        assert(rest.filter(inside).to_multiset().add(rest.filter(outside).to_multiset())
            =~= rest.to_multiset());
    } else {
        let before = rest.drop_last();
        a_list_is_what_is_in_and_what_is_out(before, inside);
        assert(before.push(rest.last()) =~= rest);
        assert(rest.to_multiset() =~= before.to_multiset().insert(rest.last()));
        assert(rest.filter(inside).to_multiset().add(rest.filter(outside).to_multiset())
            =~= rest.to_multiset());
    }
}

/// Releasing a family loses no order and makes none: what goes and what stays
/// are together what was kept.
pub proof fn a_release_keeps_every_order(kept: Seq<Kept>, order_id: u64, parent_id: i64)
    ensures
        family(kept, order_id, parent_id).to_multiset().add(
            outside_the_family(kept, order_id, parent_id).to_multiset(),
        ) == kept.to_multiset(),
{
    broadcast use vstd::seq_lib::group_to_multiset_ensures;

    let inside = |one: Kept| in_the_family(one, order_id, parent_id);
    let outside = |one: Kept| !in_the_family(one, order_id, parent_id);
    let parent = if parent_id > 0 {
        kept_at(kept, parent_id as u64)
    } else {
        None
    };
    match parent {
        Some(at) => {
            first_kept(kept, parent_id as u64);
            let rest = kept.remove(at);
            a_list_is_what_is_in_and_what_is_out(rest, inside);
            assert(rest.filter(|one: Kept| !inside(one)) =~= rest.filter(outside)) by {
                assert((|one: Kept| !inside(one)) =~= outside);
            }
            assert(family(kept, order_id, parent_id) =~= seq![kept[at]] + rest.filter(inside));
            vstd::seq_lib::lemma_multiset_commutative(seq![kept[at]], rest.filter(inside));
            let one = seq![kept[at]];
            assert(one =~= Seq::<Kept>::empty().push(kept[at]));
            assert(Seq::<Kept>::empty().to_multiset() =~= vstd::multiset::Multiset::empty());
            assert(one.to_multiset() =~= vstd::multiset::Multiset::empty().insert(kept[at]));
            assert(family(kept, order_id, parent_id).to_multiset() =~= rest.filter(
                inside,
            ).to_multiset().insert(kept[at]));
            assert(outside_the_family(kept, order_id, parent_id) =~= rest.filter(outside));
            assert(kept.to_multiset().remove(kept[at]) =~= rest.to_multiset());
            assert(kept.contains(kept[at]));
            assert(kept.to_multiset().count(kept[at]) > 0);
            assert(rest.to_multiset().insert(kept[at]) =~= kept.to_multiset());
            assert(family(kept, order_id, parent_id).to_multiset().add(
                outside_the_family(kept, order_id, parent_id).to_multiset(),
            ) =~= kept.to_multiset());
        },
        None => {
            a_list_is_what_is_in_and_what_is_out(kept, inside);
            assert(kept.filter(|one: Kept| !inside(one)) =~= kept.filter(outside)) by {
                assert((|one: Kept| !inside(one)) =~= outside);
            }
            assert(family(kept, order_id, parent_id) =~= kept.filter(inside));
            assert(outside_the_family(kept, order_id, parent_id) == kept.filter(outside));
        },
    }
}

/// What stays kept once a family is released shares no family with the order
/// that transmitted.
pub proof fn nothing_of_the_family_stays(kept: Seq<Kept>, order_id: u64, parent_id: i64)
    ensures
        forall|i: int|
            0 <= i < outside_the_family(kept, order_id, parent_id).len() ==> !in_the_family(
                #[trigger] outside_the_family(kept, order_id, parent_id)[i],
                order_id,
                parent_id,
            ),
{
    let rest = if parent_id > 0 {
        without_kept(kept, parent_id as u64)
    } else {
        kept
    };
    broadcast use vstd::seq_lib::group_filter_ensures;

}

} // verus!
