//! Forgetting what was kept and never sent.

use crate::engine::intake::kept::{
    first_kept, is_placement, keeps_a_placement, kept_at, placement_kept, release, without_kept,
    Kept,
};
use crate::engine::intake::state::{add_all, Intake, IntakeView};
use crate::engine::intake::withdraw::{all_but, take_out, Which};
use crate::engine::known::{said, say, Notice, Said};
use vstd::prelude::*;

verus! {

/// Whether what is kept places an order that hangs from another.
pub open spec fn kept_under(one: Kept, parent: u64) -> bool {
    one.parent_id == parent as i64 && is_placement(one)
}

/// The placements kept that hang from an order, in the order they were kept.
pub open spec fn kept_children(kept: Seq<Kept>, parent: u64) -> Seq<Kept> {
    kept.filter(|one: Kept| kept_under(one, parent))
}

/// What is kept but for the placements that hang from an order.
pub open spec fn kept_others(kept: Seq<Kept>, parent: u64) -> Seq<Kept> {
    kept.filter(|one: Kept| !kept_under(one, parent))
}

/// The numbers of what is kept.
pub open spec fn numbers_of(kept: Seq<Kept>) -> Seq<u64> {
    kept.map_values(|one: Kept| one.order_id)
}

/// What is kept is what hangs from an order and what does not.
pub proof fn children_and_others(kept: Seq<Kept>, parent: u64)
    ensures
        kept_children(kept, parent).len() + kept_others(kept, parent).len() == kept.len(),
    decreases kept.len(),
{
    reveal(Seq::filter);
    if kept.len() > 0 {
        children_and_others(kept.drop_last(), parent);
    }
}

/// The orders forgotten with those of a list, in the order they are forgotten:
/// the last of the list first, and what hangs from it before the rest.
pub open spec fn forgotten_with(kept: Seq<Kept>, list: Seq<u64>) -> Seq<u64>
    decreases kept.len(), list.len(),
{
    if list.len() == 0 {
        Seq::empty()
    } else {
        proof {
            children_and_others(kept, list.last());
        }
        let children = kept_children(kept, list.last());
        if children.len() == 0 {
            seq![list.last()] + forgotten_with(kept, list.drop_last())
        } else {
            seq![list.last()] + forgotten_with(
                kept_others(kept, list.last()),
                list.drop_last() + numbers_of(children),
            )
        }
    }
}

/// What stays kept once the orders of a list are forgotten with what hangs
/// from them.
pub open spec fn kept_without(kept: Seq<Kept>, list: Seq<u64>) -> Seq<Kept>
    decreases kept.len(), list.len(),
{
    if list.len() == 0 {
        kept
    } else {
        proof {
            children_and_others(kept, list.last());
        }
        let children = kept_children(kept, list.last());
        if children.len() == 0 {
            kept_without(kept, list.drop_last())
        } else {
            kept_without(
                kept_others(kept, list.last()),
                list.drop_last() + numbers_of(children),
            )
        }
    }
}

/// What is said of an order forgotten.
pub open spec fn forgetting_said(before: Seq<Said>, ids: Seq<u64>) -> Seq<Said>
    decreases ids.len(),
{
    if ids.len() == 0 {
        before
    } else {
        forgetting_said(before, ids.drop_last()).push(Said::NumberForgotten(ids.last())).push(
            Said::Forgotten(ids.last()),
        )
    }
}

impl IntakeView {
    /// Without each of a list of orders that were never sent.
    pub open spec fn forgetting_all(self, ids: Seq<u64>) -> IntakeView
        decreases ids.len(),
    {
        if ids.len() == 0 {
            self
        } else {
            self.forgetting_all(ids.drop_last()).forgetting(ids.last())
        }
    }

    /// What intake holds once what is kept under a number is withdrawn.
    pub open spec fn without_kept_placement(self, order_id: u64) -> IntakeView {
        let rest = without_kept(self.kept, order_id);
        if kept_at(self.kept, order_id) is None {
            self
        } else if !placement_kept(self.kept, order_id) {
            IntakeView { kept: rest, ..self }
        } else {
            (IntakeView {
                kept: kept_without(rest, seq![order_id]),
                ..self
            }).forgetting_all(forgotten_with(rest, seq![order_id]))
        }
    }

    /// What is said where what is kept under a number is withdrawn.
    pub open spec fn said_without_kept(self, before: Seq<Said>, order_id: u64) -> Seq<Said> {
        let rest = without_kept(self.kept, order_id);
        if kept_at(self.kept, order_id) is None {
            before
        } else if !placement_kept(self.kept, order_id) {
            before.push(Said::RevisionForgotten(order_id))
        } else {
            forgetting_said(before, forgotten_with(rest, seq![order_id]))
        }
    }
}

fn take_children(kept: &mut Vec<Kept>, parent: u64) -> (children: Vec<u64>)
    ensures
        children@ == numbers_of(kept_children(old(kept)@, parent)),
        final(kept)@ == kept_others(old(kept)@, parent),
{
    let ghost whole = kept@;
    let mut left: Vec<Kept> = Vec::new();
    std::mem::swap(&mut left, kept);
    let mut children: Vec<u64> = Vec::new();
    let ghost mut done: int = 0;
    proof {
        reveal(Seq::filter);
        assert(whole.take(0) =~= Seq::empty());
        assert(left@ =~= whole.skip(0));
        assert(children@ =~= numbers_of(kept_children(whole.take(0), parent)));
    }
    while left.len() > 0
        invariant
            0 <= done <= whole.len(),
            left@ == whole.skip(done),
            children@ == numbers_of(kept_children(whole.take(done), parent)),
            kept@ == kept_others(whole.take(done), parent),
        decreases left@.len(),
    {
        let one: Kept = left.remove(0);
        let ghost before = kept_children(whole.take(done), parent);
        proof {
            reveal(Seq::filter);
            assert(whole.take(done + 1).drop_last() =~= whole.take(done));
            assert(whole.take(done + 1).last() == one);
            assert(left@ =~= whole.skip(done + 1));
            done = done + 1;
        }
        if one.parent_id == parent as i64 && one.places_the_order() {
            children.push(one.order_id);
            proof {
                assert(kept_children(whole.take(done), parent) == before.push(one));
                assert(children@ =~= numbers_of(before.push(one)));
            }
        } else {
            kept.push(one);
        }
    }
    proof {
        assert(whole.take(done) =~= whole);
    }
    children
}

proof fn one_more_forgotten(before: Seq<Said>, first: Seq<u64>, id: u64)
    ensures
        forgetting_said(before, first.push(id)) == forgetting_said(before, first).push(
            Said::NumberForgotten(id),
        ).push(Said::Forgotten(id)),
{
    assert(first.push(id).drop_last() =~= first);
}

proof fn one_more_taken(view: IntakeView, first: Seq<u64>, id: u64)
    ensures
        view.forgetting_all(first.push(id)) == view.forgetting_all(first).forgetting(id),
{
    assert(first.push(id).drop_last() =~= first);
}

/// Forgetting orders and dropping what is kept do not touch each other.
proof fn what_is_kept_stands_apart(view: IntakeView, ids: Seq<u64>, kept: Seq<Kept>)
    ensures
        (IntakeView { kept, ..view }).forgetting_all(ids) == (IntakeView {
            kept,
            ..view.forgetting_all(ids)
        }),
        view.forgetting_all(ids).kept == view.kept,
    decreases ids.len(),
{
    if ids.len() > 0 {
        what_is_kept_stands_apart(view, ids.drop_last(), kept);
    }
}

fn forget_family(intake: &mut Intake, notices: &mut Vec<Notice>, order_id: u64)
    ensures
        final(intake)@ == (IntakeView {
            kept: kept_without(old(intake)@.kept, seq![order_id]),
            ..old(intake)@
        }).forgetting_all(forgotten_with(old(intake)@.kept, seq![order_id])),
        said(final(notices)@) == forgetting_said(
            said(old(notices)@),
            forgotten_with(old(intake)@.kept, seq![order_id]),
        ),
{
    let ghost first = intake@;
    let ghost all = forgotten_with(first.kept, seq![order_id]);
    let ghost mut done: Seq<u64> = Seq::empty();
    let mut parents: Vec<u64> = Vec::new();
    parents.push(order_id);
    proof {
        assert(parents@ =~= seq![order_id]);
        assert(done + all =~= all);
    }
    while parents.len() > 0
        invariant
            all == forgotten_with(first.kept, seq![order_id]),
            all == done + forgotten_with(intake@.kept, parents@),
            kept_without(first.kept, seq![order_id]) == kept_without(intake@.kept, parents@),
            intake@ == (IntakeView { kept: intake@.kept, ..first.forgetting_all(done) }),
            said(notices@) == forgetting_said(said(old(notices)@), done),
        decreases intake@.kept.len(), parents@.len(),
    {
        let ghost kept = intake@.kept;
        let ghost list = parents@;
        let parent: u64 = parents.pop().unwrap();
        proof {
            assert(list.last() == parent);
            assert(parents@ =~= list.drop_last());
            children_and_others(kept, parent);
            one_more_forgotten(said(old(notices)@), done, parent);
            one_more_taken(first, done, parent);
            what_is_kept_stands_apart(first, done, kept);
            what_is_kept_stands_apart(first, done.push(parent), kept);
        }
        intake.forget_waiting_attachment(notices, parent);
        say(notices, Notice::Forgotten(parent));
        let children: Vec<u64> = take_children(&mut intake.kept, parent);
        proof {
            if children@.len() == 0 {
                assert(kept_children(kept, parent).len() == 0);
                others_are_all(kept, parent);
                assert(list.drop_last() + children@ =~= list.drop_last());
            }
        }
        add_all(&mut parents, &children);
        proof {
            let rest = forgotten_with(intake@.kept, parents@);
            assert(forgotten_with(kept, list) == seq![parent] + rest);
            assert(done + (seq![parent] + rest) =~= done.push(parent) + rest);
            done = done.push(parent);
        }
    }
    proof {
        assert(done =~= all);
        what_is_kept_stands_apart(first, done, intake@.kept);
    }
}

proof fn others_are_all(kept: Seq<Kept>, parent: u64)
    requires
        kept_children(kept, parent).len() == 0,
    ensures
        kept_others(kept, parent) == kept,
    decreases kept.len(),
{
    reveal(Seq::filter);
    if kept.len() > 0 {
        others_are_all(kept.drop_last(), parent);
        assert(kept.drop_last().push(kept.last()) =~= kept);
    } else {
        assert(kept =~= Seq::empty());
    }
}

/// Forget a placement that was kept and never sent, with what hangs from it,
/// and say whether the order is now gone entirely. A revision kept under the
/// number goes too, and the order it revises stays live.
pub fn withdraw_kept_placement(
    intake: &mut Intake,
    notices: &mut Vec<Notice>,
    order_id: u64,
) -> (gone: bool)
    ensures
        gone == placement_kept(old(intake)@.kept, order_id),
        final(intake)@ == old(intake)@.without_kept_placement(order_id),
        said(final(notices)@) == old(intake)@.said_without_kept(said(old(notices)@), order_id),
{
    let placement: bool = keeps_a_placement(&intake.kept, order_id);
    proof {
        first_kept(intake@.kept, order_id);
    }
    match release(&mut intake.kept, order_id) {
        None => false,
        Some(_) => {
            if !placement {
                say(notices, Notice::RevisionForgotten(order_id));
                return false;
            }
            forget_family(intake, notices, order_id);
            true
        },
    }
}

/// The orders of a list that are placements kept, in the order they were kept.
pub open spec fn placements_of(kept: Seq<Kept>) -> Seq<u64> {
    numbers_of(kept.filter(|one: Kept| is_placement(one)))
}

/// What is said where everything kept is withdrawn.
pub open spec fn each_withdrawn(before: Seq<Said>, kept: Seq<Kept>) -> Seq<Said>
    decreases kept.len(),
{
    if kept.len() == 0 {
        before
    } else {
        let earlier = each_withdrawn(before, kept.drop_last());
        let one = kept.last();
        if is_placement(one) {
            earlier.push(Said::NumberForgotten(one.order_id)).push(Said::Forgotten(one.order_id))
        } else {
            earlier.push(Said::RevisionForgotten(one.order_id))
        }
    }
}

impl IntakeView {
    /// What intake holds once everything it holds and has not sent is
    /// withdrawn.
    pub open spec fn holding_nothing(self) -> IntakeView {
        (IntakeView {
            kept: Seq::empty(),
            waiting: all_but(self.waiting, Which::Placements),
            ..self
        }).forgetting_all(placements_of(self.kept))
    }
}

proof fn what_waits_stands_apart(view: IntakeView, ids: Seq<u64>, other: IntakeView)
    requires
        other == (IntakeView { kept: other.kept, waiting: other.waiting, ..view }),
    ensures
        other.forgetting_all(ids) == (IntakeView {
            kept: other.kept,
            waiting: other.waiting,
            ..view.forgetting_all(ids)
        }),
    decreases ids.len(),
{
    if ids.len() > 0 {
        what_waits_stands_apart(view, ids.drop_last(), other);
    }
}

/// Withdraw everything the engine holds and has not sent: the orders kept for
/// a later transmit, and the placements waiting for their contract's name. A
/// kept revision goes and the order it revises stays.
pub fn withdraw_everything_held(intake: &mut Intake, notices: &mut Vec<Notice>)
    ensures
        final(intake)@ == old(intake)@.holding_nothing(),
        said(final(notices)@) == each_withdrawn(said(old(notices)@), old(intake)@.kept),
{
    let ghost first = intake@;
    let ghost whole = first.kept;
    let mut left: Vec<Kept> = Vec::new();
    std::mem::swap(&mut left, &mut intake.kept);
    let ghost mut done: int = 0;
    proof {
        reveal(Seq::filter);
        assert(whole.take(0) =~= Seq::empty());
        assert(left@ =~= whole.skip(0));
        assert(placements_of(whole.take(0)) =~= Seq::empty());
    }
    while left.len() > 0
        invariant
            0 <= done <= whole.len(),
            left@ == whole.skip(done),
            intake@ == (IntakeView {
                kept: Seq::empty(),
                ..first.forgetting_all(placements_of(whole.take(done)))
            }),
            said(notices@) == each_withdrawn(said(old(notices)@), whole.take(done)),
        decreases left@.len(),
    {
        let one: Kept = left.remove(0);
        let ghost before = whole.take(done).filter(|one: Kept| is_placement(one));
        proof {
            reveal(Seq::filter);
            assert(whole.take(done + 1).drop_last() =~= whole.take(done));
            assert(whole.take(done + 1).last() == one);
            assert(left@ =~= whole.skip(done + 1));
            if is_placement(one) {
                assert(numbers_of(before.push(one)) =~= numbers_of(before).push(one.order_id));
                one_more_taken(first, numbers_of(before), one.order_id);
            }
            done = done + 1;
        }
        if one.places_the_order() {
            intake.forget_waiting_attachment(notices, one.order_id);
            say(notices, Notice::Forgotten(one.order_id));
        } else {
            say(notices, Notice::RevisionForgotten(one.order_id));
        }
    }
    let _ = take_out(&mut intake.waiting, Which::Placements);
    proof {
        assert(whole.take(done) =~= whole);
        what_is_kept_stands_apart(first, placements_of(whole), Seq::empty());
        waiting_is_untouched(first, placements_of(whole));
        what_waits_stands_apart(
            first,
            placements_of(whole),
            IntakeView {
                kept: Seq::empty(),
                waiting: all_but(first.waiting, Which::Placements),
                ..first
            },
        );
    }
}

proof fn waiting_is_untouched(view: IntakeView, ids: Seq<u64>)
    ensures
        view.forgetting_all(ids).waiting == view.waiting,
    decreases ids.len(),
{
    if ids.len() > 0 {
        waiting_is_untouched(view, ids.drop_last());
    }
}

/// Nothing kept hangs from an order that is forgotten: what would place an
/// order under it went with it.
pub proof fn nothing_kept_hangs_from_what_is_forgotten(kept: Seq<Kept>, list: Seq<u64>)
    ensures
        forall|i: int, j: int|
            0 <= i < kept_without(kept, list).len() && 0 <= j < forgotten_with(kept, list).len()
                ==> !kept_under(
                #[trigger] kept_without(kept, list)[i],
                #[trigger] forgotten_with(kept, list)[j],
            ),
    decreases kept.len(), list.len(),
{
    if list.len() > 0 {
        let parent = list.last();
        children_and_others(kept, parent);
        let children = kept_children(kept, parent);
        let (rest, next) = if children.len() == 0 {
            others_are_all(kept, parent);
            (kept, list.drop_last())
        } else {
            (kept_others(kept, parent), list.drop_last() + numbers_of(children))
        };
        nothing_kept_hangs_from_what_is_forgotten(rest, next);
        stays_were_there(rest, next);
        let left = kept_without(kept, list);
        let gone = forgotten_with(kept, list);
        assert(left == kept_without(rest, next));
        assert(gone == seq![parent] + forgotten_with(rest, next));
        assert forall|i: int, j: int| 0 <= i < left.len() && 0 <= j < gone.len() implies !kept_under(
            #[trigger] left[i],
            #[trigger] gone[j],
        ) by {
            if j == 0 {
                assert(rest.contains(left[i]));
                let other = |one: Kept| !kept_under(one, parent);
                assert(rest == kept.filter(other));
                kept.lemma_filter_contains_rev(other, left[i]);
                let k = choose|k: int| 0 <= k < rest.len() && rest[k] == left[i];
                kept.lemma_filter_pred(other, k);
            } else {
                assert(gone[j] == forgotten_with(rest, next)[j - 1]);
            }
        }
    }
}

proof fn stays_were_there(kept: Seq<Kept>, list: Seq<u64>)
    ensures
        forall|i: int|
            0 <= i < kept_without(kept, list).len() ==> kept.contains(
                #[trigger] kept_without(kept, list)[i],
            ),
    decreases kept.len(), list.len(),
{
    let left = kept_without(kept, list);
    if list.len() == 0 {
        assert forall|i: int| 0 <= i < left.len() implies kept.contains(#[trigger] left[i]) by {
            assert(kept[i] == left[i]);
        }
    } else {
        let parent = list.last();
        children_and_others(kept, parent);
        let children = kept_children(kept, parent);
        if children.len() == 0 {
            stays_were_there(kept, list.drop_last());
            assert(left == kept_without(kept, list.drop_last()));
        } else {
            let rest = kept_others(kept, parent);
            stays_were_there(rest, list.drop_last() + numbers_of(children));
            assert(left == kept_without(rest, list.drop_last() + numbers_of(children)));
            assert forall|i: int| 0 <= i < left.len() implies kept.contains(#[trigger] left[i]) by {
                assert(rest.contains(left[i]));
                let other = |one: Kept| !kept_under(one, parent);
                kept.lemma_filter_contains_rev(other, left[i]);
            }
        }
    }
}

} // verus!
