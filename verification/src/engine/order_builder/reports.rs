//! What is said of an order as it is sent, changed or withdrawn.

use crate::engine::context::{with_status, Context};
use crate::engine::known::{said, say, Known, Notice, OrderInfo, Said};
use crate::types::orders::{
    CancelReject, InstrumentId, Order, OrderStatus, OrderUpdate,
};
use vstd::prelude::*;

verus! {

/// How much of an order is still to trade, which is never less than none.
pub open spec fn left_to_trade(order: Order) -> i64 {
    let left = order.qty - order.filled;
    if left < 0 {
        0
    } else if left > i64::MAX {
        i64::MAX
    } else {
        left as i64
    }
}

fn still_to_trade(order: &Order) -> (left: i64)
    ensures
        left == left_to_trade(*order),
{
    let left: i128 = order.qty as i128 - order.filled as i128;
    if left < 0 {
        0
    } else if left > i64::MAX as i128 {
        i64::MAX
    } else {
        left as i64
    }
}

/// The announcement that an order is being withdrawn.
pub open spec fn pending_cancel_update(order_id: u64, order: Order, now_ns: u64) -> OrderUpdate {
    OrderUpdate {
        order_id,
        instrument: order.instrument,
        status: OrderStatus::PendingCancel,
        filled_qty: order.filled,
        remaining_qty: left_to_trade(order),
        avg_price: 0,
        perm_id: 0,
        parent_id: 0,
        timestamp_ns: now_ns,
    }
}

/// Announce that an order is being withdrawn, as its withdrawal goes out: the
/// venue answers with the end of it alone. Nothing where the order is not
/// tracked, is finished with, or is being withdrawn already.
pub fn synthesize_pending_cancel(
    context: &mut Context,
    notices: &mut Vec<Notice>,
    order_id: u64,
    now_ns: u64,
)
    ensures
        match old(context).held(order_id) {
            Some(order) => if order.status.terminal() || order.status is PendingCancel {
                final(context).orders@ == old(context).orders@ && said(final(notices)@) == said(
                    old(notices)@,
                )
            } else {
                &&& final(context).orders@ == with_status(
                    old(context).orders@,
                    order_id,
                    OrderStatus::PendingCancel,
                )
                &&& said(final(notices)@) == said(old(notices)@).push(
                    Said::Update(pending_cancel_update(order_id, order, now_ns)),
                )
            },
            None => final(context).orders@ == old(context).orders@ && said(final(notices)@)
                == said(old(notices)@),
        },
        final(context).orders.keys() == old(context).orders.keys(),
        final(context).same_but_orders(*old(context)),
{
    if !context.update_order_status(order_id, OrderStatus::PendingCancel) {
        return;
    }
    match context.order(order_id) {
        Some(order) => {
            let update: OrderUpdate = OrderUpdate {
                order_id,
                instrument: order.instrument,
                status: OrderStatus::PendingCancel,
                filled_qty: order.filled,
                remaining_qty: still_to_trade(&order),
                avg_price: 0,
                perm_id: 0,
                parent_id: 0,
                timestamp_ns: now_ns,
            };
            say(notices, Notice::Update(update));
        },
        None => {},
    }
}

/// The announcement that what the venue holds of an order is not known, with
/// what the venue last said of it.
pub open spec fn uncertain_update(
    order_id: u64,
    order: Order,
    info: Option<OrderInfo>,
    now_ns: u64,
) -> OrderUpdate {
    OrderUpdate {
        order_id,
        instrument: order.instrument,
        status: OrderStatus::Uncertain,
        filled_qty: order.filled,
        remaining_qty: left_to_trade(order),
        avg_price: match info {
            Some(info) => info.avg_price,
            None => 0,
        },
        perm_id: match info {
            Some(info) => info.perm_id,
            None => 0,
        },
        parent_id: match info {
            Some(info) => info.parent_id,
            None => 0,
        },
        timestamp_ns: now_ns,
    }
}

/// What is said where an order's state is not known: where it stands, if it is
/// tracked, and nothing otherwise.
pub open spec fn said_uncertain(
    before: Seq<Said>,
    orders: Map<u64, Order>,
    known: Known,
    order_id: u64,
    now_ns: u64,
) -> Seq<Said> {
    if order_id != 0 && orders.dom().contains(order_id) {
        before.push(
            Said::Update(uncertain_update(order_id, orders[order_id], known.info(order_id), now_ns)),
        )
    } else {
        before
    }
}

/// The orders once one's state is not known.
pub open spec fn made_uncertain(orders: Map<u64, Order>, order_id: u64) -> Map<u64, Order> {
    if order_id == 0 {
        orders
    } else {
        with_status(orders, order_id, OrderStatus::Uncertain)
    }
}

/// Mark that what the venue holds of an order is not known, and announce it.
/// Number nought names no order.
pub fn report_uncertain(
    context: &mut Context,
    known: &Known,
    notices: &mut Vec<Notice>,
    order_id: u64,
    now_ns: u64,
)
    ensures
        final(context).orders@ == made_uncertain(old(context).orders@, order_id),
        final(context).orders.keys() == old(context).orders.keys(),
        final(context).same_but_orders(*old(context)),
        said(final(notices)@) == said_uncertain(
            said(old(notices)@),
            old(context).orders@,
            *known,
            order_id,
            now_ns,
        ),
{
    if order_id == 0 {
        return;
    }
    context.set_order_status_forced(order_id, OrderStatus::Uncertain);
    match context.order(order_id) {
        Some(order) => {
            let (avg_price, perm_id, parent_id) = match known.orders.get(&order_id) {
                Some(info) => (info.avg_price, info.perm_id, info.parent_id),
                None => (0, 0, 0),
            };
            let update: OrderUpdate = OrderUpdate {
                order_id,
                instrument: order.instrument,
                status: OrderStatus::Uncertain,
                filled_qty: order.filled,
                remaining_qty: still_to_trade(&order),
                avg_price,
                perm_id,
                parent_id,
                timestamp_ns: now_ns,
            };
            say(notices, Notice::Update(update));
        },
        None => {},
    }
}

/// The orders once the state of each of a list is not known.
pub open spec fn all_made_uncertain(orders: Map<u64, Order>, ids: Seq<u64>) -> Map<u64, Order>
    decreases ids.len(),
{
    if ids.len() == 0 {
        orders
    } else {
        made_uncertain(all_made_uncertain(orders, ids.drop_last()), ids.last())
    }
}

/// What is said where the state of each of a list is not known.
pub open spec fn all_said_uncertain(
    before: Seq<Said>,
    orders: Map<u64, Order>,
    known: Known,
    ids: Seq<u64>,
    now_ns: u64,
) -> Seq<Said>
    decreases ids.len(),
{
    if ids.len() == 0 {
        before
    } else {
        said_uncertain(
            all_said_uncertain(before, orders, known, ids.drop_last(), now_ns),
            all_made_uncertain(orders, ids.drop_last()),
            known,
            ids.last(),
            now_ns,
        )
    }
}

/// Mark that what the venue holds of each of a list of orders is not known,
/// and announce each.
pub fn report_all_uncertain(
    context: &mut Context,
    known: &Known,
    notices: &mut Vec<Notice>,
    ids: &Vec<u64>,
    now_ns: u64,
)
    ensures
        final(context).orders@ == all_made_uncertain(old(context).orders@, ids@),
        final(context).orders.keys() == old(context).orders.keys(),
        final(context).same_but_orders(*old(context)),
        said(final(notices)@) == all_said_uncertain(
            said(old(notices)@),
            old(context).orders@,
            *known,
            ids@,
            now_ns,
        ),
{
    let mut at: usize = 0;
    proof {
        assert(ids@.take(0) =~= Seq::empty());
    }
    while at < ids.len()
        invariant
            at <= ids@.len(),
            context.orders@ == all_made_uncertain(old(context).orders@, ids@.take(at as int)),
            context.orders.keys() == old(context).orders.keys(),
            context.same_but_orders(*old(context)),
            said(notices@) == all_said_uncertain(
                said(old(notices)@),
                old(context).orders@,
                *known,
                ids@.take(at as int),
                now_ns,
            ),
        decreases ids@.len() - at,
    {
        report_uncertain(context, known, notices, ids[at], now_ns);
        proof {
            assert(ids@.take(at + 1).drop_last() =~= ids@.take(at as int));
            assert(ids@.take(at + 1).last() == ids@[at as int]);
        }
        at = at + 1;
    }
    proof {
        assert(ids@.take(at as int) =~= ids@);
    }
}

/// What answers a change that did not go, and where its order stands.
pub open spec fn change_refused(
    order_id: u64,
    instrument: InstrumentId,
    stands_as: Option<OrderStatus>,
    now_ns: u64,
) -> CancelReject {
    CancelReject {
        order_id,
        instrument,
        reject_type: 2,
        reason_code: (-1) as i32,
        still_working: stands_as,
        answers_a_live_change: true,
        timestamp_ns: now_ns,
    }
}

/// Say that a change did not go, where a refusal of one is said.
pub fn the_change_did_not_go(
    notices: &mut Vec<Notice>,
    order_id: u64,
    instrument: InstrumentId,
    stands_as: Option<OrderStatus>,
    now_ns: u64,
)
    ensures
        said(final(notices)@) == said(old(notices)@).push(
            Said::CancelReject(change_refused(order_id, instrument, stands_as, now_ns)),
        ),
{
    say(
        notices,
        Notice::CancelReject(
            CancelReject {
                order_id,
                instrument,
                reject_type: 2,
                reason_code: -1,
                still_working: stands_as,
                answers_a_live_change: true,
                timestamp_ns: now_ns,
            },
        ),
    );
}

} // verus!
