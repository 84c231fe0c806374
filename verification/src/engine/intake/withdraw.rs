//! Withdrawing what was never sent.

use crate::engine::book::Book;
use crate::engine::commands::{ControlCommand, Pending};
use crate::engine::intake::state::{add_all, Intake, IntakeView};
use vstd::prelude::*;

verus! {

/// Some of the waiting commands.
#[derive(Clone, Copy, Debug, PartialEq, Eq, Structural)]
pub enum Which {
    /// Those that place or restate the order under a number.
    Placing(u64),
    /// Those that place orders.
    Placements,
    /// The exercises that watch for their option's standing in the money.
    Watching,
}

/// Whether a waiting command is one of some.
pub open spec fn picked(which: Which, pending: Pending) -> bool {
    match which {
        Which::Placing(id) => pending.cmd matches ControlCommand::Place(p) && p.order_id == id,
        Which::Placements => pending.cmd is Place || pending.cmd is Bracket,
        Which::Watching => pending.cmd is Exercise && pending.watch is Some,
    }
}

/// Those of a list that are picked.
pub open spec fn all_picked(waiting: Seq<Pending>, which: Which) -> Seq<Pending> {
    waiting.filter(|pending: Pending| picked(which, pending))
}

/// Those of a list that are not picked.
pub open spec fn all_but(waiting: Seq<Pending>, which: Which) -> Seq<Pending> {
    waiting.filter(|pending: Pending| !picked(which, pending))
}

fn picks(which: Which, pending: &Pending) -> (r: bool)
    ensures
        r == picked(which, *pending),
{
    match which {
        Which::Placing(id) => match &pending.cmd {
            ControlCommand::Place(p) => p.order_id == id,
            _ => false,
        },
        Which::Placements => matches!(
            pending.cmd,
            ControlCommand::Place(_) | ControlCommand::Bracket(_)
        ),
        Which::Watching => matches!(pending.cmd, ControlCommand::Exercise(_))
            && pending.watch.is_some(),
    }
}

/// Take some of the waiting commands out, each list in the order they were
/// admitted.
pub fn take_out(waiting: &mut Vec<Pending>, which: Which) -> (out: Vec<Pending>)
    ensures
        out@ == all_picked(old(waiting)@, which),
        final(waiting)@ == all_but(old(waiting)@, which),
{
    let ghost whole = waiting@;
    let mut left: Vec<Pending> = Vec::new();
    std::mem::swap(&mut left, waiting);
    let mut out: Vec<Pending> = Vec::new();
    let ghost mut done: int = 0;
    proof {
        reveal(Seq::filter);
        assert(whole.take(0) =~= Seq::empty());
        assert(left@ =~= whole.skip(0));
    }
    while left.len() > 0
        invariant
            0 <= done <= whole.len(),
            left@ == whole.skip(done),
            out@ == all_picked(whole.take(done), which),
            waiting@ == all_but(whole.take(done), which),
        decreases left@.len(),
    {
        let one: Pending = left.remove(0);
        proof {
            reveal(Seq::filter);
            assert(whole.take(done + 1).drop_last() =~= whole.take(done));
            assert(whole.take(done + 1).last() == one);
            assert(left@ =~= whole.skip(done + 1));
            done = done + 1;
        }
        if picks(which, &one) {
            out.push(one);
        } else {
            waiting.push(one);
        }
    }
    proof {
        assert(whole.take(done) =~= whole);
    }
    out
}

/// Whether a command places an order that hangs from one.
pub open spec fn waits_on(pending: Pending, parent: u64) -> bool {
    pending.cmd matches ControlCommand::Place(p) && p.order.parent_id == parent as i64
}

/// Whether some waiting command places or restates an order.
pub open spec fn placement_waits(waiting: Seq<Pending>, order_id: u64) -> bool {
    exists|i: int|
        0 <= i < waiting.len() && picked(Which::Placing(order_id), #[trigger] waiting[i])
}

/// Whether a command waiting places an order that hangs from another.
pub open spec fn child_waits(waiting: Seq<Pending>, order_id: u64, parent: u64) -> bool {
    exists|i: int|
        0 <= i < waiting.len() && picked(Which::Placing(order_id), #[trigger] waiting[i])
            && waits_on(waiting[i], parent)
}

/// Whether an order goes with another that is withdrawn: it is that order, or
/// a command waiting places it and hangs from one that goes, so many links
/// away.
pub open spec fn goes_with(waiting: Seq<Pending>, root: u64, order_id: u64, links: nat) -> bool
    decreases links,
{
    if links == 0 {
        order_id == root
    } else {
        exists|parent: u64| #[trigger]
            child_waits(waiting, order_id, parent) && goes_with(
                waiting,
                root,
                parent,
                (links - 1) as nat,
            )
    }
}

/// Whether an order goes with another that is withdrawn.
pub open spec fn withdrawn_with(waiting: Seq<Pending>, root: u64, order_id: u64) -> bool {
    exists|links: nat| #[trigger] goes_with(waiting, root, order_id, links)
}

/// Whether a command goes with an order that is withdrawn.
pub open spec fn command_goes(waiting: Seq<Pending>, root: u64, pending: Pending) -> bool {
    pending.cmd matches ControlCommand::Place(p) && withdrawn_with(waiting, root, p.order_id)
}

/// What waits once an order still waiting is withdrawn, with the changes
/// behind it and what hangs from it.
pub open spec fn without_waiting(waiting: Seq<Pending>, root: u64) -> Seq<Pending> {
    waiting.filter(|pending: Pending| !command_goes(waiting, root, pending))
}

fn waits_under(waiting: &Vec<Pending>, order_id: u64) -> (r: bool)
    ensures
        r == placement_waits(waiting@, order_id),
{
    let mut at: usize = 0;
    while at < waiting.len()
        invariant
            at <= waiting@.len(),
            forall|i: int|
                0 <= i < at ==> !picked(Which::Placing(order_id), #[trigger] waiting@[i]),
        decreases waiting@.len() - at,
    {
        if picks(Which::Placing(order_id), &waiting[at]) {
            return true;
        }
        at = at + 1;
    }
    false
}

/// The orders placed by waiting commands that hang from one.
fn children_waiting(waiting: &Vec<Pending>, parent: u64) -> (children: Vec<u64>)
    ensures
        forall|id: u64| children@.contains(id) <==> #[trigger] child_waits(waiting@, id, parent),
{
    let mut children: Vec<u64> = Vec::new();
    let mut at: usize = 0;
    while at < waiting.len()
        invariant
            at <= waiting@.len(),
            forall|id: u64|
                children@.contains(id) <==> #[trigger] child_waits(
                    waiting@.take(at as int),
                    id,
                    parent,
                ),
        decreases waiting@.len() - at,
    {
        let ghost before = children@;
        let ghost seen = waiting@.take(at as int);
        let ghost next = waiting@.take(at + 1);
        match &waiting[at].cmd {
            ControlCommand::Place(p) => {
                if p.order.parent_id == parent as i64 {
                    children.push(p.order_id);
                }
            },
            _ => {},
        }
        proof {
            assert forall|id: u64|
                children@.contains(id) <==> #[trigger] child_waits(next, id, parent) by {
                if child_waits(next, id, parent) {
                    let i = choose|i: int|
                        0 <= i < next.len() && picked(Which::Placing(id), #[trigger] next[i])
                            && waits_on(next[i], parent);
                    if i < at {
                        assert(seen[i] == next[i]);
                        assert(child_waits(seen, id, parent));
                        let j = choose|j: int| 0 <= j < before.len() && before[j] == id;
                        assert(children@[j] == id);
                    } else {
                        assert(children@[before.len() as int] == id);
                    }
                }
                if children@.contains(id) {
                    let j = choose|j: int| 0 <= j < children@.len() && children@[j] == id;
                    if j < before.len() {
                        assert(before[j] == id);
                        assert(child_waits(seen, id, parent));
                        let i = choose|i: int|
                            0 <= i < seen.len() && picked(Which::Placing(id), #[trigger] seen[i])
                                && waits_on(seen[i], parent);
                        assert(next[i] == seen[i]);
                    } else {
                        assert(next[at as int] == waiting@[at as int]);
                    }
                }
            }
        }
        at = at + 1;
    }
    proof {
        assert(waiting@.take(at as int) =~= waiting@);
    }
    children
}

/// What is left of a list once the orders of a set are taken out.
spec fn left_of(waiting: Seq<Pending>, gone: Set<u64>) -> Seq<Pending> {
    waiting.filter(|pending: Pending| !in_set(gone, pending))
}

spec fn in_set(gone: Set<u64>, pending: Pending) -> bool {
    pending.cmd matches ControlCommand::Place(p) && gone.contains(p.order_id)
}

proof fn taking_one_more(waiting: Seq<Pending>, gone: Set<u64>, order_id: u64)
    ensures
        all_but(left_of(waiting, gone), Which::Placing(order_id)) == left_of(
            waiting,
            gone.insert(order_id),
        ),
    decreases waiting.len(),
{
    reveal(Seq::filter);
    if waiting.len() > 0 {
        let before = waiting.drop_last();
        taking_one_more(before, gone, order_id);
        let one = waiting.last();
        let kept = left_of(before, gone);
        if !in_set(gone, one) {
            assert(left_of(waiting, gone) == kept.push(one));
            assert(kept.push(one).drop_last() =~= kept);
        }
    }
}

proof fn fewer_are_left(waiting: Seq<Pending>, order_id: u64)
    requires
        placement_waits(waiting, order_id),
    ensures
        all_but(waiting, Which::Placing(order_id)).len() < waiting.len(),
    decreases waiting.len(),
{
    reveal(Seq::filter);
    let before = waiting.drop_last();
    let i = choose|i: int|
        0 <= i < waiting.len() && picked(Which::Placing(order_id), #[trigger] waiting[i]);
    if i < before.len() {
        assert(before[i] == waiting[i]);
        fewer_are_left(before, order_id);
    } else {
        before.lemma_filter_len(|pending: Pending| !picked(Which::Placing(order_id), pending));
    }
}

proof fn left_is_not_in_the_set(waiting: Seq<Pending>, gone: Set<u64>, j: int)
    requires
        0 <= j < waiting.len(),
        !in_set(gone, waiting[j]),
    ensures
        left_of(waiting, gone).contains(waiting[j]),
{
    let stays = |pending: Pending| !in_set(gone, pending);
    assert(stays(waiting[j]));
    waiting.lemma_filter_contains(stays, j);
}

proof fn what_is_left_was_there(waiting: Seq<Pending>, gone: Set<u64>, j: int)
    requires
        0 <= j < left_of(waiting, gone).len(),
    ensures
        waiting.contains(left_of(waiting, gone)[j]),
        !in_set(gone, left_of(waiting, gone)[j]),
{
    let stays = |pending: Pending| !in_set(gone, pending);
    waiting.lemma_filter_pred(stays, j);
    waiting.lemma_filter_contains_rev(stays, left_of(waiting, gone)[j]);
}

/// A set that holds an order and everything that waits on one it holds holds
/// everything that goes with that order.
proof fn a_closed_set_holds_all(
    waiting: Seq<Pending>,
    gone: Set<u64>,
    root: u64,
    order_id: u64,
    links: nat,
)
    requires
        gone.contains(root),
        forall|parent: u64, id: u64|
            gone.contains(parent) && #[trigger] child_waits(waiting, id, parent) ==> gone.contains(
                id,
            ),
        goes_with(waiting, root, order_id, links),
    ensures
        gone.contains(order_id),
    decreases links,
{
    if links > 0 {
        let parent = choose|parent: u64| #[trigger]
            child_waits(waiting, order_id, parent) && goes_with(
                waiting,
                root,
                parent,
                (links - 1) as nat,
            );
        a_closed_set_holds_all(waiting, gone, root, parent, (links - 1) as nat);
        assert(child_waits(waiting, order_id, parent));
    }
}

impl IntakeView {
    /// What intake holds once a placement still waiting is withdrawn. A change
    /// waiting to restate an order the venue is working goes, and the order
    /// stays.
    pub open spec fn without_waiting_placement(self, book: Book, order_id: u64) -> IntakeView {
        if self.works(book, order_id) {
            IntakeView { waiting: all_but(self.waiting, Which::Placing(order_id)), ..self }
        } else if placement_waits(self.waiting, order_id) {
            IntakeView { waiting: without_waiting(self.waiting, order_id), ..self }
        } else {
            self
        }
    }
}

/// Withdraw a placement still waiting, for its contract's name or behind an
/// earlier command, with the changes behind it and what hangs from it, and say
/// whether there was one.
pub fn withdraw_waiting_placement(intake: &mut Intake, book: &Book, order_id: u64) -> (gone: bool)
    ensures
        gone == (!old(intake)@.works(*book, order_id) && placement_waits(
            old(intake)@.waiting,
            order_id,
        )),
        final(intake)@ == old(intake)@.without_waiting_placement(*book, order_id),
{
    if intake.working(book, order_id) {
        let _ = take_out(&mut intake.waiting, Which::Placing(order_id));
        return false;
    }
    if !waits_under(&intake.waiting, order_id) {
        return false;
    }
    withdraw_family(&mut intake.waiting, order_id);
    true
}

proof fn nothing_goes(waiting: Seq<Pending>)
    ensures
        left_of(waiting, Set::empty()) == waiting,
    decreases waiting.len(),
{
    reveal(Seq::filter);
    if waiting.len() > 0 {
        nothing_goes(waiting.drop_last());
        assert(waiting.drop_last().push(waiting.last()) =~= waiting);
    } else {
        assert(waiting =~= Seq::empty());
    }
}

proof fn a_child_left_was_there(waiting: Seq<Pending>, gone: Set<u64>, id: u64, parent: u64)
    requires
        child_waits(left_of(waiting, gone), id, parent),
    ensures
        child_waits(waiting, id, parent),
{
    let left = left_of(waiting, gone);
    let j = choose|j: int|
        0 <= j < left.len() && picked(Which::Placing(id), #[trigger] left[j]) && waits_on(
            left[j],
            parent,
        );
    what_is_left_was_there(waiting, gone, j);
    let i = choose|i: int| 0 <= i < waiting.len() && waiting[i] == left[j];
    assert(picked(Which::Placing(id), waiting[i]));
}

proof fn a_child_not_gone_is_left(waiting: Seq<Pending>, gone: Set<u64>, id: u64, parent: u64)
    requires
        child_waits(waiting, id, parent),
        !gone.contains(id),
    ensures
        child_waits(left_of(waiting, gone), id, parent),
{
    let i = choose|i: int|
        0 <= i < waiting.len() && picked(Which::Placing(id), #[trigger] waiting[i]) && waits_on(
            waiting[i],
            parent,
        );
    left_is_not_in_the_set(waiting, gone, i);
    let left = left_of(waiting, gone);
    let j = choose|j: int| 0 <= j < left.len() && left[j] == waiting[i];
    assert(picked(Which::Placing(id), left[j]));
}

proof fn a_child_goes_with_its_parent(waiting: Seq<Pending>, root: u64, id: u64, parent: u64)
    requires
        withdrawn_with(waiting, root, parent),
        child_waits(waiting, id, parent),
    ensures
        withdrawn_with(waiting, root, id),
{
    let links = choose|links: nat| #[trigger] goes_with(waiting, root, parent, links);
    assert(goes_with(waiting, root, id, links + 1));
}

proof fn still_listed(before: Seq<u64>, children: Seq<u64>, id: u64)
    requires
        before.len() > 0,
        before.contains(id),
        id != before.last(),
    ensures
        (before.drop_last() + children).contains(id),
{
    let j = choose|j: int| 0 <= j < before.len() && before[j] == id;
    assert((before.drop_last() + children)[j] == id);
}

proof fn gone_if_not_left(waiting: Seq<Pending>, gone: Set<u64>, root: u64, id: u64)
    requires
        placement_waits(waiting, root),
        withdrawn_with(waiting, root, id),
        !placement_waits(left_of(waiting, gone), id),
    ensures
        gone.contains(id),
{
    let links = choose|links: nat| #[trigger] goes_with(waiting, root, id, links);
    if links > 0 {
        let parent = choose|parent: u64| #[trigger]
            child_waits(waiting, id, parent) && goes_with(
                waiting,
                root,
                parent,
                (links - 1) as nat,
            );
        assert(child_waits(waiting, id, parent));
    }
    assert(placement_waits(waiting, id));
    let i = choose|i: int|
        0 <= i < waiting.len() && picked(Which::Placing(id), #[trigger] waiting[i]);
    if !gone.contains(id) {
        left_is_not_in_the_set(waiting, gone, i);
        let left = left_of(waiting, gone);
        let j = choose|j: int| 0 <= j < left.len() && left[j] == waiting[i];
        assert(picked(Which::Placing(id), left[j]));
    }
}

fn withdraw_family(waiting: &mut Vec<Pending>, order_id: u64)
    requires
        placement_waits(old(waiting)@, order_id),
    ensures
        final(waiting)@ == without_waiting(old(waiting)@, order_id),
{
    let ghost whole = waiting@;
    let ghost mut gone: Set<u64> = Set::empty();
    let mut stack: Vec<u64> = Vec::new();
    stack.push(order_id);
    proof {
        nothing_goes(whole);
        assert(goes_with(whole, order_id, order_id, 0));
        assert(stack@[0] == order_id);
        assert(stack@.contains(order_id));
    }
    while stack.len() > 0
        invariant
            placement_waits(whole, order_id),
            waiting@ == left_of(whole, gone),
            gone.contains(order_id) || stack@.contains(order_id),
            forall|id: u64| #[trigger]
                gone.contains(id) ==> withdrawn_with(whole, order_id, id),
            forall|i: int|
                0 <= i < stack@.len() ==> withdrawn_with(whole, order_id, #[trigger] stack@[i]),
            forall|parent: u64, id: u64|
                gone.contains(parent) && #[trigger] child_waits(whole, id, parent) ==> (
                gone.contains(id) || stack@.contains(id)),
        decreases waiting@.len(), stack@.len(),
    {
        let ghost before = stack@;
        let parent: u64 = stack.pop().unwrap();
        proof {
            assert(before[before.len() - 1] == parent);
            assert(withdrawn_with(whole, order_id, parent));
            assert(stack@ =~= before.drop_last());
        }
        if waits_under(waiting, parent) {
            let children: Vec<u64> = children_waiting(waiting, parent);
            let ghost held = waiting@;
            proof {
                fewer_are_left(held, parent);
                taking_one_more(whole, gone, parent);
            }
            let _ = take_out(waiting, Which::Placing(parent));
            add_all(&mut stack, &children);
            proof {
                let bigger = gone.insert(parent);
                let lower = before.drop_last();
                assert forall|i: int| 0 <= i < stack@.len() implies withdrawn_with(
                    whole,
                    order_id,
                    #[trigger] stack@[i],
                ) by {
                    if i < lower.len() {
                        assert(stack@[i] == before[i]);
                    } else {
                        let id = stack@[i];
                        assert(children@[i - lower.len()] == id);
                        assert(children@.contains(id));
                        assert(child_waits(held, id, parent));
                        a_child_left_was_there(whole, gone, id, parent);
                        a_child_goes_with_its_parent(whole, order_id, id, parent);
                    }
                }
                assert forall|p: u64, id: u64|
                    bigger.contains(p) && #[trigger] child_waits(whole, id, p) implies (
                bigger.contains(id) || stack@.contains(id)) by {
                    if id != parent && !gone.contains(id) {
                        if gone.contains(p) {
                            still_listed(before, children@, id);
                        } else {
                            a_child_not_gone_is_left(whole, gone, id, parent);
                            assert(children@.contains(id));
                            let j = choose|j: int|
                                0 <= j < children@.len() && children@[j] == id;
                            assert(stack@[lower.len() + j] == id);
                        }
                    }
                }
                if !gone.contains(order_id) && order_id != parent {
                    still_listed(before, children@, order_id);
                }
                gone = bigger;
            }
        } else {
            proof {
                gone_if_not_left(whole, gone, order_id, parent);
                assert forall|p: u64, id: u64|
                    gone.contains(p) && #[trigger] child_waits(whole, id, p) implies (
                gone.contains(id) || stack@.contains(id)) by {
                    if !gone.contains(id) {
                        still_listed(before, Seq::empty(), id);
                        assert(before.drop_last() + Seq::<u64>::empty() =~= stack@);
                    }
                }
                if !gone.contains(order_id) {
                    still_listed(before, Seq::empty(), order_id);
                    assert(before.drop_last() + Seq::<u64>::empty() =~= stack@);
                }
                assert forall|i: int| 0 <= i < stack@.len() implies withdrawn_with(
                    whole,
                    order_id,
                    #[trigger] stack@[i],
                ) by {
                    assert(stack@[i] == before[i]);
                }
            }
        }
    }
    proof {
        assert forall|pending: Pending| in_set(gone, pending) == command_goes(
            whole,
            order_id,
            pending,
        ) by {
            match pending.cmd {
                ControlCommand::Place(p) => {
                    if withdrawn_with(whole, order_id, p.order_id) {
                        let links = choose|links: nat| #[trigger]
                            goes_with(whole, order_id, p.order_id, links);
                        a_closed_set_holds_all(whole, gone, order_id, p.order_id, links);
                    }
                },
                _ => {},
            }
        }
        assert((|pending: Pending| !in_set(gone, pending)) =~= (|pending: Pending|
            !command_goes(whole, order_id, pending)));
    }
}

} // verus!
