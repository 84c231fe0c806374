//! What is reported of orders whose state changed here.

use crate::engine::known::OrderInfo;
use crate::engine::order_builder::reports::{
    all_made_uncertain, change_refused, pending_cancel_update, uncertain_update,
};
use crate::types::orders::{InstrumentId, Order, OrderStatus};
use vstd::prelude::*;

verus! {

/// A report of an order that is being withdrawn, and one of an order in doubt,
/// name the order and its contract, and count what it has filled and what is
/// left of it. What is filled and what is left make up the quantity, wherever
/// no more is filled than was asked.
pub proof fn a_report_counts_what_is_left(
    order_id: u64,
    order: Order,
    info: Option<OrderInfo>,
    now_ns: u64,
)
    requires
        0 <= order.filled,
    ensures
        ({
            let withdrawn = pending_cancel_update(order_id, order, now_ns);
            let doubted = uncertain_update(order_id, order, info, now_ns);
            &&& withdrawn.order_id == order_id && doubted.order_id == order_id
            &&& withdrawn.instrument == order.instrument && doubted.instrument == order.instrument
            &&& withdrawn.status is PendingCancel
            &&& doubted.status is Uncertain
            &&& withdrawn.filled_qty == order.filled && doubted.filled_qty == order.filled
            &&& order.filled <= order.qty ==> withdrawn.filled_qty + withdrawn.remaining_qty
                == order.qty && doubted.filled_qty + doubted.remaining_qty == order.qty
            &&& order.filled > order.qty ==> withdrawn.remaining_qty == 0
                && doubted.remaining_qty == 0
            &&& withdrawn.timestamp_ns == now_ns && doubted.timestamp_ns == now_ns
            &&& info matches Some(info) ==> doubted.avg_price == info.avg_price && doubted.perm_id
                == info.perm_id && doubted.parent_id == info.parent_id
            &&& info is None ==> doubted.avg_price == 0 && doubted.perm_id == 0
                && doubted.parent_id == 0
        }),
{
}

/// A change that did not go is refused to the order it was for, as a change to
/// an order that stands as it stood.
pub proof fn a_change_is_refused_to_its_order(
    order_id: u64,
    instrument: InstrumentId,
    stands_as: Option<OrderStatus>,
    now_ns: u64,
)
    ensures
        ({
            let told = change_refused(order_id, instrument, stands_as, now_ns);
            &&& told.order_id == order_id
            &&& told.instrument == instrument
            &&& told.still_working == stands_as
            &&& told.answers_a_live_change
            &&& told.timestamp_ns == now_ns
            &&& told.reject_type == 2
            &&& told.reason_code == -1
        }),
{
}

/// Orders left in doubt change in nothing but that, and no other order changes.
pub proof fn doubt_changes_nothing_else(orders: Map<u64, Order>, ids: Seq<u64>, id: u64)
    ensures
        ({
            let after = all_made_uncertain(orders, ids);
            &&& after.dom().contains(id) <==> orders.dom().contains(id)
            &&& orders.dom().contains(id) ==> {
                &&& after[id].qty == orders[id].qty
                &&& after[id].side == orders[id].side
                &&& after[id].price == orders[id].price
                &&& after[id].filled == orders[id].filled
                &&& after[id].instrument == orders[id].instrument
                &&& ids.contains(id) && id != 0 ==> after[id].status is Uncertain
                &&& !ids.contains(id) || id == 0 ==> after[id] == orders[id]
            }
        }),
    decreases ids.len(),
{
    if ids.len() > 0 {
        let less = ids.drop_last();
        doubt_changes_nothing_else(orders, less, id);
        if less.contains(id) {
            let i = choose|i: int| 0 <= i < less.len() && less[i] == id;
            assert(ids[i] == id);
        }
        if ids.contains(id) {
            let i = choose|i: int| 0 <= i < ids.len() && ids[i] == id;
            if i < less.len() {
                assert(less[i] == id);
            }
        }
        assert(ids[ids.len() - 1] == ids.last());
    }
}

} // verus!
