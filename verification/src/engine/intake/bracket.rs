//! An entry taken with its two exits.

use crate::engine::commands::Bracket;
use crate::engine::intake::refuse::{beyond_the_wire, beyond_the_wire_text};
use crate::engine::intake::state::{Intake, IntakeView, PlacedHere};
use crate::engine::known::{said, say, Notice, Said, TakenOrder};
use crate::text::{digits, uint_text};
use crate::types::contract::{Contract, OrderTerms};
use crate::types::kinds::Side;
use crate::types::orders::{
    InstrumentId, OrderOp, OrderRequest, ORD_LIMIT, ORD_STOP, TIF_DAY, TIF_GTC,
};
use std::sync::Arc;
use vstd::prelude::*;

verus! {

/// What an entry on a side does.
pub open spec fn entry_action(side: Side) -> Seq<char> {
    match side {
        Side::Buy => "BUY"@,
        Side::Sell => "SELL"@,
        Side::ShortSell => "SSHORT"@,
    }
}

/// What the exits of an entry on a side do.
pub open spec fn exit_action(side: Side) -> Seq<char> {
    match side {
        Side::Buy => "SELL"@,
        Side::Sell => "BUY"@,
        Side::ShortSell => "BUY"@,
    }
}

/// Whether an order is recorded as one leg of a bracket, as the wire states it:
/// the entry lives a day and stands alone; each exit is good till cancelled, in
/// the group, and reduces the other on a fill.
pub open spec fn is_leg(
    order: OrderTerms,
    order_id: u64,
    action: Seq<char>,
    stop: bool,
    qty: i64,
    price: i64,
    parent: u64,
) -> bool {
    let exit = parent != 0;
    &&& order.order_id == order_id
    &&& order.client_id == 0
    &&& order.action@ == action
    &&& order.order_type@ == (if stop {
        "STP"@
    } else {
        "LMT"@
    })
    &&& order.qty == qty
    &&& order.lmt_price == (if stop {
        0
    } else {
        price
    })
    &&& order.aux_price == (if stop {
        price
    } else {
        0
    })
    &&& order.tif@ == (if exit {
        "GTC"@
    } else {
        "DAY"@
    })
    &&& order.parent_id == parent
    &&& order.pt_order_id is None
    &&& order.sl_order_id is None
    &&& !order.attaches
    &&& order.oca_group@ == (if exit {
        digits(parent as nat)
    } else {
        Seq::empty()
    })
    &&& order.oca_type == (if exit {
        3i32
    } else {
        0
    })
    &&& order.transmit
    &&& !order.what_if
    &&& !order.outside_rth
    &&& order.conditions@.len() == 0
    &&& !order.conditions_include_overnight
    &&& !order.is_scale
    &&& order.scale_profit_offset is Unset
    &&& order.ord_type == (if stop {
        ORD_STOP
    } else {
        ORD_LIMIT
    })
    &&& order.tif_byte == (if exit {
        TIF_GTC
    } else {
        TIF_DAY
    })
    &&& order.replace_price == order.lmt_price
    &&& order.replace_trigger == order.aux_price
}

fn leg(
    order_id: u64,
    action: &str,
    stop: bool,
    qty: i64,
    price: i64,
    parent: u64,
) -> (order: OrderTerms)
    requires
        order_id <= i64::MAX,
        parent <= i64::MAX,
    ensures
        is_leg(order, order_id, action@, stop, qty, price, parent),
{
    let mut order: OrderTerms = OrderTerms::default();
    order.order_id = order_id as i64;
    order.action = action.to_owned();
    order.qty = qty;
    if stop {
        order.order_type = "STP".to_owned();
        order.aux_price = price;
        order.replace_trigger = price;
        order.ord_type = ORD_STOP;
    } else {
        order.order_type = "LMT".to_owned();
        order.lmt_price = price;
        order.replace_price = price;
        order.ord_type = ORD_LIMIT;
    }
    if parent != 0 {
        order.tif = "GTC".to_owned();
        order.tif_byte = TIF_GTC;
        order.oca_group = uint_text(parent);
        order.oca_type = 3;
    } else {
        order.tif = "DAY".to_owned();
        order.tif_byte = TIF_DAY;
        proof {
            assert(order.oca_group@ =~= Seq::empty());
        }
    }
    order.parent_id = parent as i64;
    order
}

/// Whether a bracket's contract is one the wire carries. What is said where it
/// is not is said under the entry's number.
pub fn check_bracket(notices: &mut Vec<Notice>, b: &Bracket) -> (goes: bool)
    ensures
        goes <==> 0 <= b.contract.con_id <= u32::MAX,
        said(final(notices)@) == (if goes {
            said(old(notices)@)
        } else {
            said(old(notices)@).push(
                Said::OrderRefused {
                    id: b.parent_id as i64,
                    op: OrderOp::Place,
                    code: 321,
                    text: beyond_the_wire_text(b.contract.con_id),
                },
            )
        }),
{
    match beyond_the_wire(b.contract.con_id) {
        Some(why) => {
            say(
                notices,
                Notice::OrderRefused {
                    id: b.parent_id as i64,
                    op: OrderOp::Place,
                    code: why.code,
                    text: why.message,
                },
            );
            false
        },
        None => true,
    }
}

/// What is said of an order taken here.
pub open spec fn taken_said(order_id: u64, placed: PlacedHere, restated: bool) -> Said {
    Said::Taken(
        TakenOrder {
            order_id,
            contract: placed.contract,
            order: placed.order,
            instrument: placed.instrument,
            restated,
        },
    )
}

fn record_leg(
    intake: &mut Intake,
    notices: &mut Vec<Notice>,
    order_id: u64,
    contract: &Arc<Contract>,
    order: OrderTerms,
    instrument: InstrumentId,
) -> (placed: Ghost<PlacedHere>)
    ensures
        placed@ == (PlacedHere { order: Arc::new(order), instrument, contract: *contract }),
        final(intake)@ == (IntakeView {
            placed: old(intake)@.placed.insert(order_id, placed@),
            ..old(intake)@
        }),
        said(final(notices)@) == said(old(notices)@).push(taken_said(order_id, placed@, false)),
{
    let shared: Arc<OrderTerms> = Arc::new(order);
    let ghost placed = PlacedHere { order: shared, instrument, contract: *contract };
    say(
        notices,
        Notice::Taken(
            TakenOrder {
                order_id,
                contract: contract.clone(),
                order: shared.clone(),
                instrument,
                restated: false,
            },
        ),
    );
    intake.placed.insert(
        order_id,
        PlacedHere { order: shared, instrument, contract: contract.clone() },
    );
    Ghost(placed)
}

/// Whether a bracket is recorded as its three legs, and nothing else changed.
pub open spec fn bracket_taken(
    before: IntakeView,
    after: IntakeView,
    said_before: Seq<Said>,
    said_after: Seq<Said>,
    b: Bracket,
    instrument: InstrumentId,
    legs: (OrderTerms, OrderTerms, OrderTerms),
) -> bool {
    let (entry, profit, stop) = legs;
    let tp_id = (b.parent_id + 1) as u64;
    let sl_id = (b.parent_id + 2) as u64;
    let contract = Arc::new(b.contract);
    let first = PlacedHere { order: Arc::new(entry), instrument, contract };
    let second = PlacedHere { order: Arc::new(profit), instrument, contract };
    let third = PlacedHere { order: Arc::new(stop), instrument, contract };
    let leaving = exit_action(b.side);
    &&& is_leg(entry, b.parent_id, entry_action(b.side), false, b.qty, b.entry, 0)
    &&& is_leg(profit, tp_id, leaving, false, b.qty, b.take_profit, b.parent_id)
    &&& is_leg(stop, sl_id, leaving, true, b.qty, b.stop_loss, b.parent_id)
    &&& after == (IntakeView {
        placed: before.placed.insert(b.parent_id, first).insert(tp_id, second).insert(
            sl_id,
            third,
        ),
        ..before
    })
    &&& said_after == said_before.push(taken_said(b.parent_id, first, false)).push(
        taken_said(tp_id, second, false),
    ).push(taken_said(sl_id, third, false))
}

/// Take a bracket, whose contract is registered: record its three legs, and
/// queue it for the venue.
pub fn take_bracket(
    intake: &mut Intake,
    pending: &mut Vec<OrderRequest>,
    notices: &mut Vec<Notice>,
    b: &Bracket,
    instrument: InstrumentId,
)
    requires
        b.parent_id <= i64::MAX - 2,
    ensures
        exists|legs: (OrderTerms, OrderTerms, OrderTerms)| #[trigger]
            bracket_taken(
                old(intake)@,
                final(intake)@,
                said(old(notices)@),
                said(final(notices)@),
                *b,
                instrument,
                legs,
            ),
        final(pending)@ == old(pending)@.push(
            OrderRequest::SubmitBracket {
                con_id: b.contract.con_id,
                parent_id: b.parent_id,
                tp_id: (b.parent_id + 1) as u64,
                sl_id: (b.parent_id + 2) as u64,
                instrument,
                side: b.side,
                qty: b.qty,
                entry_price: b.entry,
                take_profit: b.take_profit,
                stop_loss: b.stop_loss,
            },
        ),
{
    let tp_id: u64 = b.parent_id + 1;
    let sl_id: u64 = b.parent_id + 2;
    let (action, exit): (&str, &str) = match b.side {
        Side::Buy => ("BUY", "SELL"),
        Side::Sell => ("SELL", "BUY"),
        Side::ShortSell => ("SSHORT", "BUY"),
    };
    let contract: Arc<Contract> = Arc::new(b.contract.clone());
    let entry: OrderTerms = leg(b.parent_id, action, false, b.qty, b.entry, 0);
    let profit: OrderTerms = leg(tp_id, exit, false, b.qty, b.take_profit, b.parent_id);
    let stop: OrderTerms = leg(sl_id, exit, true, b.qty, b.stop_loss, b.parent_id);
    let ghost legs = (entry, profit, stop);
    let _ = record_leg(intake, notices, b.parent_id, &contract, entry, instrument);
    let _ = record_leg(intake, notices, tp_id, &contract, profit, instrument);
    let _ = record_leg(intake, notices, sl_id, &contract, stop, instrument);
    pending.push(
        OrderRequest::SubmitBracket {
            con_id: b.contract.con_id,
            parent_id: b.parent_id,
            tp_id,
            sl_id,
            instrument,
            side: b.side,
            qty: b.qty,
            entry_price: b.entry,
            take_profit: b.take_profit,
            stop_loss: b.stop_loss,
        },
    );
    proof {
        assert(bracket_taken(
            old(intake)@,
            intake@,
            said(old(notices)@),
            said(notices@),
            *b,
            instrument,
            legs,
        ));
    }
}

} // verus!
