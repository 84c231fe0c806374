//! What holds across the operations on orders.

use crate::engine::context::{Context, Placed};
use crate::engine::known::{Known, Said};
use crate::engine::order_builder::cancel::{
    attempt_of, revision_name, venue_name, withdrawal_counted,
};
use crate::engine::order_builder::drain::{drain_step, taken_back, Drain, DrainStep};
use crate::engine::order_builder::replace::{
    record_sent, replacement_outcome, replacement_recorded, same_but_records, terms_after,
    whole_shape, with_record, Named,
};
use crate::types::orders::{Order, OrderSpec};
use vstd::prelude::*;

verus! {

/// An instruction that is held back loses nothing: what goes back to wait and
/// what is still to be looked at are, in order, what they were before.
pub proof fn what_is_held_back_keeps_its_place(
    drain_before: Drain,
    drain_after: Drain,
    before: Context,
    after: Context,
    known: Known,
    session: Seq<char>,
    said_before: Seq<Said>,
    said_after: Seq<Said>,
    write_failed: bool,
    recovery_pending: bool,
    step: DrainStep,
    now: Seq<char>,
    now_ns: u64,
)
    requires
        drain_step(
            drain_before,
            drain_after,
            before,
            after,
            known,
            session,
            said_before,
            said_after,
            write_failed,
            recovery_pending,
            step,
            now,
            now_ns,
        ),
        step is HeldBack,
    ensures
        drain_after.unsent@ + drain_after.waiting@ == drain_before.unsent@ + drain_before.waiting@,
        after == before,
        said_after == said_before,
{
    match drain_before.rest {
        Some(_) => {},
        None => {
            if drain_before.waiting@.len() > 0 {
                assert(drain_after.unsent@ + drain_after.waiting@ =~= drain_before.unsent@
                    + drain_before.waiting@);
            }
        },
    }
}

/// Once a write has failed nothing new leaves: every instruction not begun
/// goes back to wait.
pub proof fn nothing_new_leaves_on_a_failed_transport(
    drain_before: Drain,
    drain_after: Drain,
    before: Context,
    after: Context,
    known: Known,
    session: Seq<char>,
    said_before: Seq<Said>,
    said_after: Seq<Said>,
    recovery_pending: bool,
    step: DrainStep,
    now: Seq<char>,
    now_ns: u64,
)
    requires
        drain_step(
            drain_before,
            drain_after,
            before,
            after,
            known,
            session,
            said_before,
            said_after,
            true,
            recovery_pending,
            step,
            now,
            now_ns,
        ),
        drain_before.rest is None,
    ensures
        step is HeldBack || step is Finished,
        after == before,
        said_after == said_before,
{
}

/// A replacement that failed to leave is taken back: the orders are what they
/// were before it, and so are the records where the order had one. Where it had
/// none there is nothing to put back, and what the replacement stated of it
/// stays.
pub proof fn a_failed_replacement_is_taken_back(
    before: Context,
    during: Context,
    after: Context,
    order_id: u64,
    orig: Order,
    named: Named,
    record: Option<Placed>,
    whole: bool,
)
    requires
        before.held(order_id) == Some(orig),
        orig.order_id == order_id,
        before.version(order_id) < u32::MAX,
        replacement_recorded(before, during, order_id, orig, named, record, whole),
        taken_back(during, after, order_id, orig),
    ensures
        after.orders@ == before.orders@,
        after.orders.keys() == before.orders.keys(),
        before.placed(order_id) is Some || record is None ==> after.submitted@
            == before.submitted@,
        before.placed(order_id) is None ==> after.submitted@ == with_record(
            before.submitted@,
            order_id,
            record_sent(record, named, terms_after(orig, named, whole_shape(record, whole)), whole),
        ),
        after.pre_replace@ == before.pre_replace@.remove(
            (order_id, (before.version(order_id) + 1) as u32),
        ),
{
    let key = (order_id, (before.version(order_id) + 1) as u32);
    assert(during.version(order_id) == key.1);
    assert(after.orders@ =~= before.orders@);
    if before.placed(order_id) is Some {
        assert(after.submitted@ =~= before.submitted@);
    }
    assert(after.pre_replace@ =~= before.pre_replace@.remove(key));
}

/// A replacement that is refused leaves the order, its names and its records as
/// they were.
pub proof fn a_refused_replacement_changes_nothing(
    before: Context,
    after: Context,
    known: Known,
    session: Seq<char>,
    said_before: Seq<Said>,
    said_after: Seq<Said>,
    order_id: u64,
    named: Named,
    statement: Option<OrderSpec>,
    now: Seq<char>,
    now_ns: u64,
)
    requires
        replacement_outcome(
            before,
            after,
            known,
            session,
            said_before,
            said_after,
            order_id,
            named,
            statement,
            None,
            now,
            now_ns,
        ),
    ensures
        same_but_records(before, after),
        after.submitted@ == before.submitted@,
{
}

/// A replacement chains the names of an order: it goes out under the next
/// revision's, and what follows it before the venue answers names that one.
pub proof fn a_replacement_is_named_by_what_follows_it(
    before: Context,
    after: Context,
    order_id: u64,
    orig: Order,
    named: Named,
    record: Option<Placed>,
    whole: bool,
)
    requires
        before.version(order_id) < u32::MAX,
        replacement_recorded(before, after, order_id, orig, named, record, whole),
    ensures
        after.version(order_id) == before.version(order_id) + 1,
        venue_name(after, order_id) == revision_name(order_id, after.version(order_id)),
{
}

/// The fill of an order survives its replacement.
pub proof fn a_replacement_keeps_the_fill(
    before: Context,
    after: Context,
    order_id: u64,
    orig: Order,
    named: Named,
    record: Option<Placed>,
    whole: bool,
)
    requires
        replacement_recorded(before, after, order_id, orig, named, record, whole),
    ensures
        after.orders@[order_id].filled == orig.filled,
        after.orders@[order_id].instrument == orig.instrument,
        after.orders@[order_id].side == orig.side,
{
}

/// A second withdrawal of an order counts on from the first, so the two go out
/// under different attempts.
pub proof fn withdrawals_count_on(
    before: Context,
    during: Context,
    order_id: u64,
)
    requires
        withdrawal_counted(before, during, order_id),
        attempt_of(before, order_id) < u64::MAX,
    ensures
        attempt_of(during, order_id) == attempt_of(before, order_id) + 1,
{
}

} // verus!
