//! An entry with two exits, as the venue is told of it.

use crate::engine::context::{Context, Placed};
use crate::engine::known::Known;
use crate::engine::order_builder::cancel::{revision_name, revision_text};
use crate::engine::order_builder::fields::{
    put, put_str, stated, Stated, TAG_MSG_TYPE, TAG_SENDING_TIME,
};
use crate::engine::order_builder::identity::{
    currency_for, currency_stated, identity_fields, push_contract_identity,
};
use crate::engine::order_builder::shape::{closing, fix_side, side_code};
use crate::engine::order_builder::submit::{record_destination, routed_on};
use crate::text::{digits, format_price, format_qty, joined, price_text, qty_text, uint_text};
use crate::types::attrs::OrderAttrs;
use crate::types::kinds::{OrderKind, Side};
use crate::types::orders::{
    byte_as_text, byte_text, InstrumentId, Order, OrderStatus, ORD_LIMIT, ORD_STOP, TIF_DAY,
    TIF_GTC,
};
use std::sync::Arc;
use vstd::prelude::*;

verus! {

/// An entry and its two exits.
#[derive(Clone, Copy, Debug, PartialEq, Eq, Structural)]
pub struct BracketOrder {
    pub parent_id: u64,
    pub tp_id: u64,
    pub sl_id: u64,
    pub instrument: InstrumentId,
    pub side: Side,
    pub qty: i64,
    pub entry_price: i64,
    pub take_profit: i64,
    pub stop_loss: i64,
}

/// One order of the three.
#[derive(Clone, Copy, Debug, PartialEq, Eq, Structural)]
pub enum Leg {
    Entry,
    TakeProfit,
    StopLoss,
}

impl BracketOrder {
    /// The number of a leg.
    pub open spec fn leg_id(self, leg: Leg) -> u64 {
        match leg {
            Leg::Entry => self.parent_id,
            Leg::TakeProfit => self.tp_id,
            Leg::StopLoss => self.sl_id,
        }
    }

    /// The price of a leg.
    pub open spec fn leg_price(self, leg: Leg) -> i64 {
        match leg {
            Leg::Entry => self.entry_price,
            Leg::TakeProfit => self.take_profit,
            Leg::StopLoss => self.stop_loss,
        }
    }

    /// The side of a leg: the exits close what the entry opens.
    pub open spec fn leg_side(self, leg: Leg) -> Side {
        if leg is Entry {
            self.side
        } else {
            closing(self.side)
        }
    }

    /// The shape of a leg: the exit at a loss is a stop, and the others limits.
    pub open spec fn leg_kind(self, leg: Leg) -> OrderKind {
        if leg is StopLoss {
            OrderKind::Stop { stop_price: self.stop_loss }
        } else {
            OrderKind::Limit { price: self.leg_price(leg) }
        }
    }

    /// The order a leg is tracked as. The entry lives a day, and the exits
    /// until they are cancelled.
    pub open spec fn leg_order(self, leg: Leg) -> Order {
        Order {
            order_id: self.leg_id(leg),
            instrument: self.instrument,
            side: self.leg_side(leg),
            price: self.leg_price(leg),
            qty: self.qty,
            filled: 0,
            status: OrderStatus::PendingSubmit,
            ord_type: if leg is StopLoss {
                ORD_STOP
            } else {
                ORD_LIMIT
            },
            tif: if leg is Entry {
                TIF_DAY
            } else {
                TIF_GTC
            },
            stop_price: if leg is StopLoss {
                self.stop_loss
            } else {
                0
            },
        }
    }

    /// The group the exits cancel with.
    pub open spec fn group(self) -> Seq<char> {
        "OCA_"@ + digits(self.parent_id as nat)
    }

    /// Whether what is recorded of a leg is how it was placed: the exits hang
    /// from the entry and cancel together, and nothing else is stated.
    pub open spec fn leg_recorded(self, leg: Leg, placed: Placed) -> bool {
        &&& placed.kind == self.leg_kind(leg)
        &&& if leg is Entry {
            placed.attrs.states_nothing()
        } else {
            &&& placed.attrs.states_links_alone()
            &&& placed.attrs.parent_id == self.parent_id
            &&& placed.attrs.oca_group_str@ == self.group()
            &&& placed.attrs.oca_type == 3
        }
    }
}

/// The message of a leg.
pub open spec fn bracket_fields(
    context: Context,
    known: Known,
    session: Seq<char>,
    bracket: BracketOrder,
    leg: Leg,
    now: Seq<char>,
) -> Stated {
    let order = bracket.leg_order(leg);
    let routing = context.routing(bracket.instrument);
    let f: Stated = seq![
        (TAG_MSG_TYPE, "D"@),
        (TAG_SENDING_TIME, now),
        (11u32, revision_name(order.order_id, 0)),
        (1u32, session),
        (55u32, context.symbol(bracket.instrument)),
        (54u32, side_code(order.side)),
        (38u32, qty_text(bracket.qty as int)),
        (40u32, byte_text(order.ord_type)),
        (
            if leg is StopLoss {
                99u32
            } else {
                44u32
            },
            price_text(order.price as int),
        ),
        (59u32, byte_text(order.tif)),
        (60u32, now),
        (167u32, routing.0),
        (100u32, routing.1),
        (6210u32, routing.1),
        (15u32, currency_stated(context, known, bracket.instrument)),
        (204u32, "0"@),
        (6122u32, "c"@),
    ];
    let f = if leg is Entry {
        f
    } else {
        f.push((6107, revision_name(bracket.parent_id, 0))).push((583, bracket.group())).push(
            (6209, "ReduceOnFillNonBlock"@),
        )
    };
    identity_fields(f, context, bracket.instrument, None)
}

fn leg_message(
    context: &Context,
    known: &Known,
    account_id: &str,
    bracket: &BracketOrder,
    leg: Leg,
    order: &Order,
    now: &str,
) -> (message: Vec<(u32, String)>)
    requires
        *order == bracket.leg_order(leg),
    ensures
        stated(message@) == bracket_fields(
            *context,
            *known,
            account_id@,
            *bracket,
            leg,
            now@,
        ),
{
    let (sec_type, destination) = context.order_routing(bracket.instrument);
    let mut fields: Vec<(u32, String)> = Vec::new();
    put_str(&mut fields, TAG_MSG_TYPE, "D");
    put_str(&mut fields, TAG_SENDING_TIME, now);
    put(&mut fields, 11, revision_text(order.order_id, 0));
    put_str(&mut fields, 1, account_id);
    put(&mut fields, 55, context.symbol_of(bracket.instrument));
    put_str(&mut fields, 54, fix_side(order.side));
    put(&mut fields, 38, format_qty(bracket.qty));
    put(&mut fields, 40, byte_as_text(order.ord_type));
    put(
        &mut fields,
        if matches!(leg, Leg::StopLoss) {
            99
        } else {
            44
        },
        format_price(order.price),
    );
    put(&mut fields, 59, byte_as_text(order.tif));
    put_str(&mut fields, 60, now);
    put(&mut fields, 167, sec_type);
    put(&mut fields, 100, destination.clone());
    put(&mut fields, 6210, destination);
    put(&mut fields, 15, currency_for(context, known, bracket.instrument));
    put_str(&mut fields, 204, "0");
    put_str(&mut fields, 6122, "c");
    if !matches!(leg, Leg::Entry) {
        put(&mut fields, 6107, revision_text(bracket.parent_id, 0));
        put(&mut fields, 583, joined("OCA_", uint_text(bracket.parent_id).as_str()));
        put_str(&mut fields, 6209, "ReduceOnFillNonBlock");
    }
    proof {
        let routing = context.routing(bracket.instrument);
        let f: Stated = seq![
            (TAG_MSG_TYPE, "D"@),
            (TAG_SENDING_TIME, now@),
            (11u32, revision_name(order.order_id, 0)),
            (1u32, account_id@),
            (55u32, context.symbol(bracket.instrument)),
            (54u32, side_code(order.side)),
            (38u32, qty_text(bracket.qty as int)),
            (40u32, byte_text(order.ord_type)),
            (
                if leg is StopLoss {
                    99u32
                } else {
                    44u32
                },
                price_text(order.price as int),
            ),
            (59u32, byte_text(order.tif)),
            (60u32, now@),
            (167u32, routing.0),
            (100u32, routing.1),
            (6210u32, routing.1),
            (15u32, currency_stated(*context, *known, bracket.instrument)),
            (204u32, "0"@),
            (6122u32, "c"@),
        ];
        let linked = if leg is Entry {
            f
        } else {
            f.push((6107, revision_name(bracket.parent_id, 0))).push((583, bracket.group())).push(
                (6209, "ReduceOnFillNonBlock"@),
            )
        };
        assert(stated(fields@) =~= linked);
    }
    push_contract_identity(&mut fields, context, bracket.instrument, None);
    fields
}

fn leg_attrs(bracket: &BracketOrder, leg: Leg) -> (attrs: OrderAttrs)
    ensures
        bracket.leg_recorded(
            leg,
            (Placed { kind: bracket.leg_kind(leg), attrs: Arc::new(attrs) }),
        ),
{
    let plain: OrderAttrs = OrderAttrs::default();
    if matches!(leg, Leg::Entry) {
        return plain;
    }
    OrderAttrs {
        parent_id: bracket.parent_id,
        oca_group_str: joined("OCA_", uint_text(bracket.parent_id).as_str()),
        oca_type: 3,
        ..plain
    }
}

/// Whether where the legs go is recorded: all three with the entry, and
/// nothing with the exits.
pub open spec fn legs_routed(
    after: Map<u64, (String, String)>,
    before: Map<u64, (String, String)>,
    bracket: BracketOrder,
    leg: Leg,
    routing: (Seq<char>, Seq<char>),
) -> bool {
    if leg is Entry {
        exists|one: Map<u64, (String, String)>, two: Map<u64, (String, String)>|
            {
                &&& routed_on(one, before, bracket.parent_id, routing)
                &&& routed_on(two, one, bracket.tp_id, routing)
                &&& #[trigger] routed_on(after, two, bracket.sl_id, routing)
                &&& #[trigger] one.dom().contains(bracket.parent_id)
            }
    } else {
        after == before
    }
}

/// What the engine holds of a leg once it goes out.
pub open spec fn leg_held(before: Context, after: Context, bracket: BracketOrder, leg: Leg) -> bool {
    let id = bracket.leg_id(leg);
    &&& after.orders@ == before.orders@.insert(id, bracket.leg_order(leg))
    &&& after.orders.keys() == (if before.orders@.dom().contains(id) {
        before.orders.keys()
    } else {
        before.orders.keys().push(id)
    })
    &&& after.submitted@.dom().contains(id)
    &&& bracket.leg_recorded(leg, after.submitted@[id])
    &&& after.submitted@.remove(id) == before.submitted@.remove(id)
    &&& legs_routed(
        after.order_destination@,
        before.order_destination@,
        bracket,
        leg,
        before.routing(bracket.instrument),
    )
    &&& after.modify_versions == before.modify_versions
    &&& after.last_clord == before.last_clord
    &&& after.pre_replace == before.pre_replace
    &&& after.cancel_attempts == before.cancel_attempts
    &&& after.slots_to_reconsider == before.slots_to_reconsider
    &&& after.pending_orders == before.pending_orders
    &&& after.slots == before.slots
}

/// Track a leg, record it as it was placed, and give the message that submits
/// it. Where the legs go is recorded with the entry.
pub fn send_bracket_leg(
    context: &mut Context,
    known: &Known,
    account_id: &str,
    bracket: &BracketOrder,
    leg: Leg,
    now: &str,
) -> (message: Vec<(u32, String)>)
    ensures
        stated(message@) == bracket_fields(
            *old(context),
            *known,
            account_id@,
            *bracket,
            leg,
            now@,
        ),
        leg_held(*old(context), *final(context), *bracket, leg),
{
    let (order_id, price) = match leg {
        Leg::Entry => (bracket.parent_id, bracket.entry_price),
        Leg::TakeProfit => (bracket.tp_id, bracket.take_profit),
        Leg::StopLoss => (bracket.sl_id, bracket.stop_loss),
    };
    let side: Side = match leg {
        Leg::Entry => bracket.side,
        _ => match bracket.side {
            Side::Buy => Side::Sell,
            Side::Sell => Side::Buy,
            Side::ShortSell => Side::Buy,
        },
    };
    let (ord_type, stop_price) = match leg {
        Leg::StopLoss => (ORD_STOP, bracket.stop_loss),
        _ => (ORD_LIMIT, 0),
    };
    let tif: u8 = match leg {
        Leg::Entry => TIF_DAY,
        _ => TIF_GTC,
    };
    let order: Order = Order::new(
        order_id,
        bracket.instrument,
        side,
        bracket.qty,
        price,
        ord_type,
        tif,
        stop_price,
    );
    let message: Vec<(u32, String)> = leg_message(
        context,
        known,
        account_id,
        bracket,
        leg,
        &order,
        now,
    );
    if matches!(leg, Leg::Entry) {
        let ghost before = context.order_destination@;
        record_destination(context, bracket.parent_id, bracket.instrument);
        let ghost one = context.order_destination@;
        record_destination(context, bracket.tp_id, bracket.instrument);
        let ghost two = context.order_destination@;
        record_destination(context, bracket.sl_id, bracket.instrument);
        proof {
            let routing = old(context).routing(bracket.instrument);
            assert(routed_on(one, before, bracket.parent_id, routing));
            assert(routed_on(two, one, bracket.tp_id, routing));
            assert(routed_on(context.order_destination@, two, bracket.sl_id, routing));
            assert(one.dom().contains(bracket.parent_id));
        }
    }
    context.insert_order(order);
    let attrs: OrderAttrs = leg_attrs(bracket, leg);
    let kind: OrderKind = match leg {
        Leg::StopLoss => OrderKind::Stop { stop_price: bracket.stop_loss },
        _ => OrderKind::Limit { price },
    };
    context.record_placement(order_id, Placed { kind, attrs: Arc::new(attrs) });
    proof {
        assert(context.submitted@.remove(order_id) =~= old(context).submitted@.remove(order_id));
    }
    message
}

} // verus!
