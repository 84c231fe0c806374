//! Admitting order commands, and working through those that wait.
//!
//! A command that waits holds up only what depends on it: a later command for
//! the same order, or a child of a parent still waiting. What is released keeps
//! the order it was admitted in.

use crate::engine::book::{holds, Book};
use crate::engine::commands::{about_orders, ControlCommand, Pending};
use crate::engine::intake::cancels::{say_the_time_did_not_travel, time_said};
use crate::engine::intake::forget::{
    each_withdrawn, forgotten_with, kept_without, placements_of, withdraw_everything_held,
    withdraw_kept_placement,
};
use crate::engine::intake::kept::{is_placement, placement_kept, without_kept, Kept};
use crate::engine::intake::state::{
    add_all, all_admitted, numbers_waiting, Intake, IntakeView, PlacedHere,
};
use crate::engine::intake::withdraw::{
    all_but, command_goes, picked, placement_waits, withdraw_waiting_placement, Which,
};
use crate::engine::known::{said, Notice, Said};
use crate::table::Table;
use vstd::prelude::*;

verus! {

/// Whether a command depends on one of some numbers.
pub open spec fn is_behind(cmd: ControlCommand, ids: Seq<u64>) -> bool {
    exists|i: int| 0 <= i < cmd.needs().len() && ids.contains(#[trigger] cmd.needs()[i])
}

/// Whether a command depends on one of some numbers.
pub fn behind(cmd: &ControlCommand, ids: &Vec<u64>) -> (r: bool)
    requires
        cmd.numbered(),
    ensures
        r == is_behind(*cmd, ids@),
{
    let needs: Vec<u64> = cmd.depends_on();
    let mut at: usize = 0;
    while at < needs.len()
        invariant
            at <= needs@.len(),
            needs@ == cmd.needs(),
            forall|i: int| 0 <= i < at ==> !ids@.contains(#[trigger] cmd.needs()[i]),
        decreases needs@.len() - at,
    {
        if holds(ids, needs[at]) {
            return true;
        }
        at = at + 1;
    }
    false
}

impl IntakeView {
    /// With one more command waiting, last.
    pub open spec fn with_waiting(self, pending: Pending) -> IntakeView {
        IntakeView {
            waiting: self.waiting.push(pending),
            waiting_ids: self.waiting_ids + pending.cmd.own_numbers(),
            ..self
        }
    }

    /// Whether a withdrawal of an order ends where the order never went: it
    /// still waited, or it was kept.
    pub open spec fn never_went(self, book: Book, order_id: u64) -> bool {
        (!self.works(book, order_id) && placement_waits(self.waiting, order_id)) || placement_kept(
            self.kept,
            order_id,
        )
    }

    /// What intake holds once a withdrawal of an order has taken out what was
    /// not sent.
    pub open spec fn after_withdrawal(self, book: Book, order_id: u64) -> IntakeView {
        let left = self.without_waiting_placement(book, order_id);
        if !self.works(book, order_id) && placement_waits(self.waiting, order_id) {
            left.recounted()
        } else {
            left.without_kept_placement(order_id).recounted()
        }
    }

    /// What is said where a withdrawal of an order takes out what was not sent.
    pub open spec fn withdrawal_said_first(
        self,
        before: Seq<Said>,
        book: Book,
        order_id: u64,
    ) -> Seq<Said> {
        let left = self.without_waiting_placement(book, order_id);
        if !self.works(book, order_id) && placement_waits(self.waiting, order_id) {
            before
        } else {
            left.said_without_kept(before, order_id)
        }
    }
}

/// What became of an order command just admitted.
#[derive(Debug, PartialEq)]
pub enum Taking {
    /// It withdrew what was never sent, and is done.
    Withdrawn,
    /// It waits behind what it depends on.
    Behind,
    /// It is to be taken now.
    Take(Pending),
}

/// The command as it is taken: a withdrawal is of the number its order goes out
/// under.
pub open spec fn as_taken(cmd: ControlCommand, book: Book) -> ControlCommand {
    match cmd {
        ControlCommand::CancelOrder { order_id, stated } => ControlCommand::CancelOrder {
            order_id: book.wire_number(order_id),
            stated,
        },
        _ => cmd,
    }
}

/// What intake holds once a command's withdrawals are made, before the command
/// itself is taken.
pub open spec fn before_taking(
    view: IntakeView,
    book: Book,
    cmd: ControlCommand,
    waited_attached: bool,
) -> IntakeView {
    match cmd {
        ControlCommand::CancelOrder { order_id, .. } => if waited_attached {
            view
        } else {
            view.after_withdrawal(book, book.wire_number(order_id))
        },
        ControlCommand::GlobalCancel { .. } => view.holding_nothing().recounted(),
        _ => view,
    }
}

/// Whether a command is done once its withdrawals are made.
pub open spec fn done_by_withdrawing(
    view: IntakeView,
    book: Book,
    cmd: ControlCommand,
    waited_attached: bool,
) -> bool {
    cmd matches ControlCommand::CancelOrder { order_id, .. } && (waited_attached
        || view.never_went(book, book.wire_number(order_id)))
}

/// What is said where a command's withdrawals are made.
pub open spec fn said_before_taking(
    before: Seq<Said>,
    view: IntakeView,
    book: Book,
    cmd: ControlCommand,
    waited_attached: bool,
) -> Seq<Said> {
    match cmd {
        ControlCommand::CancelOrder { order_id, stated } => {
            let wire = book.wire_number(order_id);
            if waited_attached {
                before
            } else {
                let first = view.withdrawal_said_first(before, book, wire);
                if view.never_went(book, wire) {
                    time_said(first, wire, stated)
                } else {
                    first
                }
            }
        },
        ControlCommand::GlobalCancel { .. } => each_withdrawn(before, view.kept),
        _ => before,
    }
}

proof fn some_are_still_admitted(waiting: Seq<Pending>, keeps: spec_fn(Pending) -> bool)
    requires
        all_admitted(waiting),
    ensures
        all_admitted(waiting.filter(keeps)),
{
    let left = waiting.filter(keeps);
    assert forall|i: int| 0 <= i < left.len() implies (#[trigger] left[i]).cmd.numbered()
        && about_orders(left[i].cmd) by {
        waiting.lemma_filter_contains_rev(keeps, left[i]);
        let j = choose|j: int| 0 <= j < waiting.len() && waiting[j] == left[i];
        assert(waiting[j].cmd.numbered());
    }
}

proof fn withdrawing_leaves_admitted(view: IntakeView, book: Book, order_id: u64)
    requires
        all_admitted(view.waiting),
    ensures
        all_admitted(view.without_waiting_placement(book, order_id).waiting),
{
    some_are_still_admitted(
        view.waiting,
        |pending: Pending| !picked(Which::Placing(order_id), pending),
    );
    some_are_still_admitted(
        view.waiting,
        |pending: Pending| !command_goes(view.waiting, order_id, pending),
    );
}

proof fn forgetting_leaves_what_waits(view: IntakeView, ids: Seq<u64>)
    ensures
        view.forgetting_all(ids).waiting == view.waiting,
    decreases ids.len(),
{
    if ids.len() > 0 {
        forgetting_leaves_what_waits(view, ids.drop_last());
    }
}

proof fn withdrawing_kept_leaves_what_waits(view: IntakeView, order_id: u64)
    ensures
        view.without_kept_placement(order_id).waiting == view.waiting,
        view.holding_nothing().waiting == all_but(view.waiting, Which::Placements),
{
    let rest = without_kept(view.kept, order_id);
    forgetting_leaves_what_waits(
        IntakeView {
            kept: kept_without(rest, seq![order_id]),
            ..view
        },
        forgotten_with(rest, seq![order_id]),
    );
    forgetting_leaves_what_waits(
        IntakeView {
            kept: Seq::empty(),
            waiting: all_but(view.waiting, Which::Placements),
            ..view
        },
        placements_of(view.kept),
    );
}

fn withdraw_first(
    intake: &mut Intake,
    book: &Book,
    notices: &mut Vec<Notice>,
    order_id: u64,
) -> (gone: bool)
    requires
        all_admitted(old(intake)@.waiting),
    ensures
        gone == old(intake)@.never_went(*book, order_id),
        final(intake)@ == old(intake)@.after_withdrawal(*book, order_id),
        said(final(notices)@) == old(intake)@.withdrawal_said_first(
            said(old(notices)@),
            *book,
            order_id,
        ),
        all_admitted(final(intake)@.waiting),
{
    proof {
        withdrawing_leaves_admitted(intake@, *book, order_id);
        withdrawing_kept_leaves_what_waits(
            intake@.without_waiting_placement(*book, order_id),
            order_id,
        );
    }
    let gone: bool = if withdraw_waiting_placement(intake, book, order_id) {
        true
    } else {
        withdraw_kept_placement(intake, notices, order_id)
    };
    intake.recount_waiting();
    gone
}

/// Put a command last among those that wait.
pub fn hold_back(intake: &mut Intake, pending: Pending)
    requires
        pending.cmd.numbered(),
        about_orders(pending.cmd),
        all_admitted(old(intake)@.waiting),
    ensures
        final(intake)@ == old(intake)@.with_waiting(pending),
        all_admitted(final(intake)@.waiting),
{
    let own: Vec<u64> = pending.cmd.own();
    add_all(&mut intake.waiting_ids, &own);
    intake.waiting.push(pending);
}

/// Take an order command a caller admitted: make the withdrawals it asks for of
/// what was never sent, and hold it back where it depends on a command that
/// waits. `waited_attached` says whether the order it withdraws waited for what
/// is attached to it and was withdrawn there.
pub fn take_order_command(
    intake: &mut Intake,
    book: &Book,
    notices: &mut Vec<Notice>,
    cmd: ControlCommand,
    deadline: u64,
    waited_attached: bool,
) -> (taking: Taking)
    requires
        about_orders(cmd),
        cmd.numbered(),
        all_admitted(old(intake)@.waiting),
    ensures
        all_admitted(final(intake)@.waiting),
        said(final(notices)@) == said_before_taking(
            said(old(notices)@),
            old(intake)@,
            *book,
            cmd,
            waited_attached,
        ),
        ({
            let ready = before_taking(old(intake)@, *book, cmd, waited_attached);
            let pending = Pending {
                cmd: as_taken(cmd, *book),
                lookup: None,
                watch: None,
                wire_id: None,
                deadline,
            };
            if done_by_withdrawing(old(intake)@, *book, cmd, waited_attached) {
                taking is Withdrawn && final(intake)@ == ready
            } else if is_behind(pending.cmd, ready.waiting_ids) {
                taking is Behind && final(intake)@ == ready.with_waiting(pending)
            } else {
                taking == Taking::Take(pending) && final(intake)@ == ready
            }
        }),
{
    let cmd: ControlCommand = match cmd {
        ControlCommand::CancelOrder { order_id, stated } => {
            let wire: u64 = book.wire_order_id(order_id);
            if waited_attached {
                return Taking::Withdrawn;
            }
            if withdraw_first(intake, book, notices, wire) {
                say_the_time_did_not_travel(notices, wire, &stated);
                return Taking::Withdrawn;
            }
            ControlCommand::CancelOrder { order_id: wire, stated }
        },
        ControlCommand::GlobalCancel { stated } => {
            proof {
                withdrawing_kept_leaves_what_waits(intake@, 0);
                some_are_still_admitted(
                    intake@.waiting,
                    |pending: Pending| !picked(Which::Placements, pending),
                );
            }
            withdraw_everything_held(intake, notices);
            intake.recount_waiting();
            ControlCommand::GlobalCancel { stated }
        },
        other => other,
    };
    let waits: bool = behind(&cmd, &intake.waiting_ids);
    let pending: Pending = Pending::new(cmd, deadline);
    if waits {
        hold_back(intake, pending);
        return Taking::Behind;
    }
    Taking::Take(pending)
}

/// What is kept once the venue has finished with some orders: a revision then
/// has nothing to revise, and a placement stays, because the venue has never
/// been given it.
pub open spec fn still_kept(kept: Seq<Kept>, finished: Seq<u64>) -> Seq<Kept> {
    kept.filter(|one: Kept| is_placement(one) || !finished.contains(one.order_id))
}

/// What is placed once the venue has finished with some orders.
pub open spec fn still_placed(
    placed: Map<u64, PlacedHere>,
    finished: Seq<u64>,
) -> Map<u64, PlacedHere> {
    placed.remove_keys(finished.to_set())
}

impl IntakeView {
    /// What intake holds at the start of a lap.
    pub open spec fn at_the_start(self, book: Book, changed: bool) -> IntakeView {
        IntakeView {
            placed: if changed {
                still_placed(self.placed, book.finished@)
            } else {
                self.placed
            },
            kept: if changed {
                still_kept(self.kept, book.finished@)
            } else {
                self.kept
            },
            waiting_ids: Seq::empty(),
            ..self
        }
    }
}

fn forget_finished(placed: &mut Table<u64, PlacedHere>, finished: &Vec<u64>)
    ensures
        final(placed)@ == still_placed(old(placed)@, finished@),
{
    let mut at: usize = 0;
    proof {
        assert(still_placed(placed@, finished@.take(0)) =~= placed@);
    }
    while at < finished.len()
        invariant
            at <= finished@.len(),
            placed@ == still_placed(old(placed)@, finished@.take(at as int)),
        decreases finished@.len() - at,
    {
        let _ = placed.remove(&finished[at]);
        proof {
            let before = finished@.take(at as int);
            assert(finished@.take(at + 1) =~= before.push(finished@[at as int]));
            before.lemma_push_to_set_commute(finished@[at as int]);
            assert(placed@ =~= still_placed(old(placed)@, finished@.take(at + 1)));
        }
        at = at + 1;
    }
    proof {
        assert(finished@.take(at as int) =~= finished@);
    }
}

fn forget_revisions(kept: &mut Vec<Kept>, finished: &Vec<u64>)
    ensures
        final(kept)@ == still_kept(old(kept)@, finished@),
{
    let ghost whole = kept@;
    let mut left: Vec<Kept> = Vec::new();
    std::mem::swap(&mut left, kept);
    let ghost mut done: int = 0;
    proof {
        reveal(Seq::filter);
        assert(whole.take(0) =~= Seq::empty());
        assert(left@ =~= whole.skip(0));
    }
    while left.len() > 0
        invariant
            0 <= done <= whole.len(),
            left@ == whole.skip(done),
            kept@ == still_kept(whole.take(done), finished@),
        decreases left@.len(),
    {
        let one: Kept = left.remove(0);
        proof {
            reveal(Seq::filter);
            assert(whole.take(done + 1).drop_last() =~= whole.take(done));
            assert(whole.take(done + 1).last() == one);
            assert(left@ =~= whole.skip(done + 1));
            done = done + 1;
        }
        if one.places_the_order() || !holds(finished, one.order_id) {
            kept.push(one);
        }
    }
    proof {
        assert(whole.take(done) =~= whole);
    }
}

/// Begin a lap over what waits, and say how many commands there are to see.
/// Terms go only when the venue has finished with an order. `changed` says
/// whether any number's standing changed since the last lap.
pub fn begin_lap(intake: &mut Intake, book: &Book, changed: bool) -> (count: usize)
    ensures
        final(intake)@ == old(intake)@.at_the_start(*book, changed),
        count == old(intake)@.waiting.len(),
{
    if changed {
        forget_finished(&mut intake.placed, &book.finished);
        forget_revisions(&mut intake.kept, &book.finished);
    }
    intake.waiting_ids = Vec::new();
    intake.waiting.len()
}

/// What becomes of the next command of a lap.
#[derive(Debug, PartialEq)]
pub enum LapStep {
    /// It waits on: the lap's allowance is used up, or it is behind.
    Held,
    /// It is to be taken now.
    Take(Pending),
}

/// See the next command of a lap: it goes last among those that wait where the
/// lap's allowance is used up or it depends on one that still waits, and is
/// taken out otherwise.
pub fn next_in_lap(intake: &mut Intake, left: usize) -> (step: LapStep)
    requires
        old(intake)@.waiting.len() > 0,
        all_admitted(old(intake)@.waiting),
    ensures
        all_admitted(final(intake)@.waiting),
        ({
            let first = old(intake)@.waiting[0];
            let rest = IntakeView { waiting: old(intake)@.waiting.drop_first(), ..old(intake)@ };
            if left == 0 || is_behind(first.cmd, old(intake)@.waiting_ids) {
                step is Held && final(intake)@ == rest.with_waiting(first)
            } else {
                step == LapStep::Take(first) && final(intake)@ == rest
            }
        }),
        step matches LapStep::Take(pending) ==> pending.cmd.numbered() && about_orders(pending.cmd),
{
    let pending: Pending = intake.waiting.remove(0);
    proof {
        assert(pending.cmd.numbered());
        assert(intake@.waiting =~= old(intake)@.waiting.drop_first());
        assert forall|i: int| 0 <= i < intake@.waiting.len() implies (
        #[trigger] intake@.waiting[i]).cmd.numbered() && about_orders(intake@.waiting[i].cmd) by {
            assert(intake@.waiting[i] == old(intake)@.waiting[i + 1]);
        }
    }
    if left == 0 || behind(&pending.cmd, &intake.waiting_ids) {
        hold_back(intake, pending);
        return LapStep::Held;
    }
    LapStep::Take(pending)
}

/// Settle a command that was taken: it goes last among those that wait where it
/// waits on, and counts against the lap's allowance otherwise.
pub fn settle(intake: &mut Intake, pending: Pending, waits: bool, left: &mut usize)
    requires
        pending.cmd.numbered(),
        about_orders(pending.cmd),
        all_admitted(old(intake)@.waiting),
        *old(left) > 0,
    ensures
        all_admitted(final(intake)@.waiting),
        final(intake)@ == (if waits {
            old(intake)@.with_waiting(pending)
        } else {
            old(intake)@
        }),
        *final(left) == (if waits {
            *old(left)
        } else {
            (*old(left) - 1) as usize
        }),
{
    if waits {
        hold_back(intake, pending);
    } else {
        *left = *left - 1;
    }
}

/// The lookups that waiting commands read.
pub open spec fn lookups_read(waiting: Seq<Pending>) -> Set<u32> {
    Set::new(
        |lookup: u32|
            exists|i: int|
                0 <= i < waiting.len() && (#[trigger] waiting[i]).lookup == Some(lookup),
    )
}

fn reads(waiting: &Vec<Pending>, lookup: u32) -> (r: bool)
    ensures
        r == lookups_read(waiting@).contains(lookup),
{
    let mut at: usize = 0;
    while at < waiting.len()
        invariant
            at <= waiting@.len(),
            forall|i: int| 0 <= i < at ==> (#[trigger] waiting@[i]).lookup != Some(lookup),
        decreases waiting@.len() - at,
    {
        match waiting[at].lookup {
            Some(read) => {
                if read == lookup {
                    return true;
                }
            },
            None => {},
        }
        at = at + 1;
    }
    false
}

/// End a lap: a failed lookup nothing waiting reads any more is forgotten.
pub fn end_lap(intake: &mut Intake)
    ensures
        final(intake)@ == (IntakeView {
            unnamed: old(intake)@.unnamed.restrict(lookups_read(old(intake)@.waiting)),
            ..old(intake)@
        }),
{
    let keys: Vec<u32> = intake.unnamed.key_list();
    let ghost held = intake@.unnamed;
    let ghost read = lookups_read(intake@.waiting);
    let mut at: usize = 0;
    proof {
        intake.unnamed.keys_have_values();
        assert(keys@ =~= intake.unnamed.keys());
    }
    while at < keys.len()
        invariant
            at <= keys@.len(),
            read == lookups_read(intake@.waiting),
            intake@ == (IntakeView { unnamed: intake@.unnamed, ..old(intake)@ }),
            forall|key: u32| keys@.contains(key) <==> #[trigger] held.dom().contains(key),
            forall|key: u32| #[trigger]
                intake@.unnamed.dom().contains(key) <==> held.dom().contains(key) && (read.contains(
                    key,
                ) || !keys@.take(at as int).contains(key)),
            forall|key: u32| #[trigger]
                intake@.unnamed.dom().contains(key) ==> intake@.unnamed[key] == held[key],
        decreases keys@.len() - at,
    {
        let key: u32 = keys[at];
        let ghost before = intake@.unnamed;
        if !reads(&intake.waiting, key) {
            let _ = intake.unnamed.remove(&key);
        }
        proof {
            let seen = keys@.take(at as int);
            assert(keys@.take(at + 1) =~= seen.push(key));
            assert forall|k: u32| seen.push(key).contains(k) <==> seen.contains(k) || k == key by {
                if seen.contains(k) {
                    let j = choose|j: int| 0 <= j < seen.len() && seen[j] == k;
                    assert(seen.push(key)[j] == k);
                }
                if k == key {
                    assert(seen.push(key)[seen.len() as int] == k);
                }
            }
            assert forall|k: u32| #[trigger] intake@.unnamed.dom().contains(k) <==> held.dom().contains(k)
                && (read.contains(k) || !keys@.take(at + 1).contains(k)) by {
                assert(before.dom().contains(k) <==> held.dom().contains(k) && (read.contains(k)
                    || !seen.contains(k)));
            }
        }
        at = at + 1;
    }
    proof {
        assert(keys@.take(at as int) =~= keys@);
        assert(intake@.unnamed =~= held.restrict(read));
    }
}

/// The queue of a lap after so many commands were seen: what is left to see,
/// then what waits on, in the order it was seen.
pub open spec fn queue_after(
    before: Seq<Pending>,
    outcomes: Seq<Option<Pending>>,
) -> Seq<Pending> {
    before.skip(outcomes.len() as int) + waiting_on(outcomes)
}

/// What waits on of the commands seen.
pub open spec fn waiting_on(outcomes: Seq<Option<Pending>>) -> Seq<Pending>
    decreases outcomes.len(),
{
    if outcomes.len() == 0 {
        Seq::empty()
    } else {
        match outcomes.last() {
            Some(pending) => waiting_on(outcomes.drop_last()).push(pending),
            None => waiting_on(outcomes.drop_last()),
        }
    }
}

/// A lap keeps the order of admission: seeing the first command of the queue
/// and putting it last where it waits on leaves, once every command was seen,
/// what waits on in the order it was admitted.
pub proof fn a_lap_keeps_the_order(
    before: Seq<Pending>,
    outcomes: Seq<Option<Pending>>,
    outcome: Option<Pending>,
)
    requires
        outcomes.len() < before.len(),
    ensures
        queue_after(before, outcomes).len() > 0,
        queue_after(before, outcomes)[0] == before[outcomes.len() as int],
        queue_after(before, outcomes.push(outcome)) == (match outcome {
            Some(pending) => queue_after(before, outcomes).drop_first().push(pending),
            None => queue_after(before, outcomes).drop_first(),
        }),
        outcomes.len() + 1 == before.len() ==> queue_after(before, outcomes.push(outcome))
            == waiting_on(outcomes.push(outcome)),
{
    assert(outcomes.push(outcome).drop_last() =~= outcomes);
    let queue = queue_after(before, outcomes);
    let rest = before.skip(outcomes.len() as int);
    assert(rest.drop_first() =~= before.skip(outcomes.len() as int + 1));
    assert(queue.drop_first() =~= rest.drop_first() + waiting_on(outcomes));
    match outcome {
        Some(pending) => {
            assert(queue.drop_first().push(pending) =~= rest.drop_first() + waiting_on(
                outcomes,
            ).push(pending));
        },
        None => {},
    }
    if outcomes.len() + 1 == before.len() {
        assert(before.skip(outcomes.len() as int + 1) =~= Seq::empty());
        assert(Seq::<Pending>::empty() + waiting_on(outcomes.push(outcome)) =~= waiting_on(
            outcomes.push(outcome),
        ));
    }
}

/// A command is behind every command that waits and acts on a number it needs.
pub proof fn a_later_command_for_an_order_waits(
    view: IntakeView,
    pending: Pending,
    later: ControlCommand,
    number: u64,
)
    requires
        pending.cmd.own_numbers().contains(number),
        later.needs().contains(number),
    ensures
        is_behind(later, view.with_waiting(pending).waiting_ids),
{
    let ids = view.with_waiting(pending).waiting_ids;
    let i = choose|i: int|
        0 <= i < pending.cmd.own_numbers().len() && pending.cmd.own_numbers()[i] == number;
    assert(ids[view.waiting_ids.len() + i] == number);
    assert(ids.contains(number));
    let j = choose|j: int| 0 <= j < later.needs().len() && later.needs()[j] == number;
    assert(ids.contains(later.needs()[j]));
}

/// The numbers counted are those of the commands that wait: holding one back
/// counts its own.
pub proof fn the_count_is_kept(view: IntakeView, pending: Pending)
    requires
        view.waiting_ids == numbers_waiting(view.waiting),
    ensures
        view.with_waiting(pending).waiting_ids == numbers_waiting(
            view.with_waiting(pending).waiting,
        ),
{
    assert(view.waiting.push(pending).drop_last() =~= view.waiting);
}

} // verus!
