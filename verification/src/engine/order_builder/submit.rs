//! A new order, as the venue is told of it.

use crate::engine::context::{Context, Placed};
use crate::engine::known::Known;
use crate::engine::order_builder::attrs::{
    attr_fields, optional_text, push_order_attrs, two_part_mid,
};
use crate::engine::order_builder::cancel::{
    account_for, name_at_the_venue, order_account, revision_name, revision_text, venue_name,
};
use crate::engine::order_builder::fields::{
    also, drop_tag, put, put_flag, put_str, rename, renamed, stated, without, Stated,
    TAG_MSG_TYPE, TAG_SENDING_TIME,
};
use crate::engine::order_builder::identity::{
    currency_for, currency_stated, identity_fields, push_contract_identity,
};
use crate::engine::order_builder::shape::{
    exec_inst_for, fix_side, instruction_of, origin_code, origin_name, push_type_and_prices,
    shape_fields, shape_of, side_code, tracked_shape,
};
use crate::text::{decimal, digits, format_qty, int_text, qty_text, uint_text};
use crate::types::attrs::OrderAttrs;
use crate::types::kinds::{OrderKind, Side};
use crate::types::orders::{
    byte_as_text, byte_text, InstrumentId, Order, OrderStatus,
};
use std::sync::Arc;
use vstd::prelude::*;

verus! {

/// Whether the venue takes a trailing stop under a name of its own.
pub open spec fn takes_trails_as_t(known: Known) -> bool {
    known.turned_on("TRAILSENDT"@)
}

/// Whether the venue takes a trailing stop under a name of its own.
pub fn trail_as_t(known: &Known) -> (r: bool)
    ensures
        r == takes_trails_as_t(*known),
{
    known.enables("TRAILSENDT")
}

/// The name a child states its parent by: as a report of the child stated it,
/// or the name the venue holds the parent under.
pub open spec fn parent_name(context: Context, attrs: OrderAttrs) -> Option<Seq<char>> {
    let reported = match attrs.attached {
        Some(held) => held.parent@,
        None => Seq::empty(),
    };
    if reported.len() > 0 {
        Some(reported)
    } else if attrs.parent_id > 0 {
        Some(venue_name(context, attrs.parent_id))
    } else {
        None
    }
}

/// The name a child states its parent by.
pub fn parent_clord(context: &Context, attrs: &OrderAttrs) -> (name: Option<String>)
    ensures
        optional_text(name) == parent_name(*context, *attrs),
{
    match &attrs.attached {
        Some(held) => {
            if !held.parent.as_str().is_empty() {
                return Some(held.parent.clone());
            }
        },
        None => {},
    }
    if attrs.parent_id > 0 {
        Some(name_at_the_venue(context, attrs.parent_id))
    } else {
        None
    }
}

/// The contract an attached family resolved to.
pub open spec fn family_contract(attrs: OrderAttrs) -> Option<i64> {
    match attrs.attached {
        Some(held) => held.contract_id,
        None => None,
    }
}

/// The contract an attached family resolved to.
pub fn contract_of_the_family(attrs: &OrderAttrs) -> (con_id: Option<i64>)
    ensures
        con_id == family_contract(*attrs),
{
    match &attrs.attached {
        Some(held) => held.contract_id,
        None => None,
    }
}

/// The start of a new order's message: what it is, its name, its account, its
/// symbol, its side, its quantity and its shape.
pub open spec fn opening_fields(
    context: Context,
    known: Known,
    session: Seq<char>,
    order_id: u64,
    instrument: InstrumentId,
    side: Side,
    qty: i64,
    kind: OrderKind,
    tif: u8,
    attrs: OrderAttrs,
    now: Seq<char>,
) -> Stated {
    let f: Stated = seq![
        (TAG_MSG_TYPE, "D"@),
        (TAG_SENDING_TIME, now),
        (11u32, revision_name(order_id, context.version(order_id))),
        (1u32, order_account(attrs, session)),
        (55u32, context.symbol(instrument)),
        (54u32, side_code(side)),
        (38u32, qty_text(qty as int)),
    ];
    let f = shape_fields(f, kind, takes_trails_as_t(known));
    f.push((59, byte_text(tif))).push((60, now)).push((167, context.routing(instrument).0))
}

/// The contract, the program that placed the order, and where it goes. A
/// combination states the multiplier it resolved to, and not the contract's.
pub open spec fn routing_fields(
    f: Stated,
    context: Context,
    known: Known,
    instrument: InstrumentId,
    attrs: OrderAttrs,
) -> Stated {
    let f = identity_fields(f, context, instrument, family_contract(attrs));
    let f = match attrs.attached {
        Some(held) => {
            let f = if held.combo is Some {
                without(f, 231)
            } else {
                f
            };
            match held.api_identity {
                Some((order_id, client_id)) => f.push((6121, decimal(order_id as int))).push(
                    (6119, decimal(client_id as int)),
                ),
                None => f,
            }
        },
        None => f,
    };
    let destination = context.routing(instrument).1;
    f.push((6088, "Socket"@)).push((204, "0"@)).push((6122, origin_name(attrs.origin))).push(
        (6211, Seq::empty()),
    ).push((100, destination)).push((6210, destination)).push(
        (15, currency_stated(context, known, instrument)),
    )
}

/// Whether the venue may price the hedge of an order at the parent's trade: a
/// limit order with a beta or a pair hedge, unless its caller said not to.
pub open spec fn prices_its_hedge(attrs: OrderAttrs, kind: OrderKind, known: Known) -> bool {
    &&& kind is Limit || kind is Adaptive || kind is Algo
    &&& attrs.hedge_type == 3 || attrs.hedge_type == 4
    &&& !attrs.dont_use_auto_price_for_hedge
    &&& known.turned_on("HDGLMT"@)
}

/// The levels of a ladder: each level's price and then its quantity.
pub open spec fn level_fields(f: Stated, levels: Seq<(String, String)>) -> Stated
    decreases levels.len(),
{
    if levels.len() == 0 {
        f
    } else {
        level_fields(f, levels.drop_last()).push((6447, levels.last().1@)).push(
            (6448, levels.last().0@),
        )
    }
}

/// A ladder stated as a table, after everything else: how many levels there
/// are and each of them. The restart it would otherwise state goes.
pub open spec fn ladder_fields(f: Stated, attrs: OrderAttrs) -> Stated {
    match attrs.scale {
        Some(scale) => match scale.table {
            Some(table) => level_fields(
                without(f, 6461).push((6450, digits(table@.len()))),
                table@,
            ),
            None => f,
        },
        None => f,
    }
}

/// The message of a new order.
pub open spec fn submit_fields(
    context: Context,
    known: Known,
    session: Seq<char>,
    order_id: u64,
    instrument: InstrumentId,
    side: Side,
    qty: i64,
    kind: OrderKind,
    tif: u8,
    attrs: OrderAttrs,
    now: Seq<char>,
) -> Stated {
    let f = opening_fields(
        context,
        known,
        session,
        order_id,
        instrument,
        side,
        qty,
        kind,
        tif,
        attrs,
        now,
    );
    let f = routing_fields(f, context, known, instrument, attrs);
    let f = attr_fields(
        f,
        attrs,
        kind,
        side,
        instruction_of(kind, takes_trails_as_t(known)),
        parent_name(context, attrs),
    );
    let f = if two_part_mid(attrs, kind) {
        renamed(f, 40, "PMID2"@)
    } else {
        f
    };
    let f = also(f, prices_its_hedge(attrs, kind, known), 8262, "1"@);
    ladder_fields(f, attrs)
}

fn push_opening(
    context: &Context,
    known: &Known,
    account_id: &str,
    order_id: u64,
    instrument: InstrumentId,
    side: Side,
    qty: i64,
    kind: &OrderKind,
    tif: u8,
    attrs: &OrderAttrs,
    now: &str,
) -> (fields: Vec<(u32, String)>)
    ensures
        stated(fields@) == opening_fields(
            *context,
            *known,
            account_id@,
            order_id,
            instrument,
            side,
            qty,
            *kind,
            tif,
            *attrs,
            now@,
        ),
{
    let mut fields: Vec<(u32, String)> = Vec::new();
    put_str(&mut fields, TAG_MSG_TYPE, "D");
    put_str(&mut fields, TAG_SENDING_TIME, now);
    put(&mut fields, 11, revision_text(order_id, context.replaced_times(order_id)));
    put(&mut fields, 1, account_for(attrs, account_id));
    put(&mut fields, 55, context.symbol_of(instrument));
    put_str(&mut fields, 54, fix_side(side));
    put(&mut fields, 38, format_qty(qty));
    proof {
        assert(stated(fields@) =~= seq![
            (TAG_MSG_TYPE, "D"@),
            (TAG_SENDING_TIME, now@),
            (11u32, revision_name(order_id, context.version(order_id))),
            (1u32, order_account(*attrs, account_id@)),
            (55u32, context.symbol(instrument)),
            (54u32, side_code(side)),
            (38u32, qty_text(qty as int)),
        ]);
    }
    push_type_and_prices(&mut fields, kind, trail_as_t(known));
    put(&mut fields, 59, byte_as_text(tif));
    put_str(&mut fields, 60, now);
    put(&mut fields, 167, context.order_routing(instrument).0);
    fields
}

fn push_routing(
    fields: Vec<(u32, String)>,
    context: &Context,
    known: &Known,
    instrument: InstrumentId,
    attrs: &OrderAttrs,
) -> (routed: Vec<(u32, String)>)
    ensures
        stated(routed@) == routing_fields(
            stated(fields@),
            *context,
            *known,
            instrument,
            *attrs,
        ),
{
    let mut fields: Vec<(u32, String)> = fields;
    push_contract_identity(&mut fields, context, instrument, contract_of_the_family(attrs));
    match &attrs.attached {
        Some(held) => {
            if held.combo.is_some() {
                fields = drop_tag(fields, 231);
            }
            match held.api_identity {
                Some((order_id, client_id)) => {
                    put(&mut fields, 6121, int_text(order_id));
                    put(&mut fields, 6119, int_text(client_id as i64));
                },
                None => {},
            }
        },
        None => {},
    }
    let (_, destination) = context.order_routing(instrument);
    put_str(&mut fields, 6088, "Socket");
    put_str(&mut fields, 204, "0");
    put_str(&mut fields, 6122, origin_code(attrs.origin));
    put(&mut fields, 6211, String::new());
    put(&mut fields, 100, destination.clone());
    put(&mut fields, 6210, destination);
    put(&mut fields, 15, currency_for(context, known, instrument));
    fields
}

fn may_price_its_hedge(attrs: &OrderAttrs, kind: &OrderKind, known: &Known) -> (r: bool)
    ensures
        r == prices_its_hedge(*attrs, *kind, *known),
{
    matches!(kind, OrderKind::Limit { .. } | OrderKind::Adaptive { .. } | OrderKind::Algo { .. })
        && (attrs.hedge_type == 3 || attrs.hedge_type == 4) && !attrs.dont_use_auto_price_for_hedge
        && known.enables("HDGLMT")
}

fn push_ladder(fields: Vec<(u32, String)>, attrs: &OrderAttrs) -> (laddered: Vec<(u32, String)>)
    ensures
        stated(laddered@) == ladder_fields(stated(fields@), *attrs),
{
    let table: &Vec<(String, String)> = match &attrs.scale {
        Some(scale) => match &scale.table {
            Some(table) => table,
            None => {
                return fields;
            },
        },
        None => {
            return fields;
        },
    };
    let mut laddered: Vec<(u32, String)> = drop_tag(fields, 6461);
    put(&mut laddered, 6450, uint_text(table.len() as u64));
    let ghost start = stated(laddered@);
    let mut at: usize = 0;
    proof {
        assert(table@.take(0) =~= Seq::empty());
    }
    while at < table.len()
        invariant
            at <= table@.len(),
            stated(laddered@) == level_fields(start, table@.take(at as int)),
        decreases table@.len() - at,
    {
        put(&mut laddered, 6447, table[at].1.clone());
        put(&mut laddered, 6448, table[at].0.clone());
        proof {
            assert(table@.take(at + 1).drop_last() =~= table@.take(at as int));
            assert(table@.take(at + 1).last() == table@[at as int]);
        }
        at = at + 1;
    }
    proof {
        assert(table@.take(at as int) =~= table@);
    }
    laddered
}

/// The message of a new order.
fn new_order_message(
    context: &Context,
    known: &Known,
    account_id: &str,
    order_id: u64,
    instrument: InstrumentId,
    side: Side,
    qty: i64,
    kind: &OrderKind,
    tif: u8,
    attrs: &OrderAttrs,
    now: &str,
) -> (message: Vec<(u32, String)>)
    ensures
        stated(message@) == submit_fields(
            *context,
            *known,
            account_id@,
            order_id,
            instrument,
            side,
            qty,
            *kind,
            tif,
            *attrs,
            now@,
        ),
{
    let opening: Vec<(u32, String)> = push_opening(
        context,
        known,
        account_id,
        order_id,
        instrument,
        side,
        qty,
        kind,
        tif,
        attrs,
        now,
    );
    let mut fields: Vec<(u32, String)> = push_routing(opening, context, known, instrument, attrs);
    let exec_inst: String = exec_inst_for(kind, trail_as_t(known));
    let parent: Option<String> = parent_clord(context, attrs);
    match push_order_attrs(&mut fields, attrs, kind, side, exec_inst.as_str(), &parent) {
        Some(settled) => rename(&mut fields, 40, settled),
        None => {},
    }
    put_flag(&mut fields, may_price_its_hedge(attrs, kind, known), 8262);
    push_ladder(fields, attrs)
}

/// Whether an order's security type and destination are recorded, and no
/// other order's changed.
pub open spec fn routed_on(
    after: Map<u64, (String, String)>,
    before: Map<u64, (String, String)>,
    order_id: u64,
    routing: (Seq<char>, Seq<char>),
) -> bool {
    &&& after.dom().contains(order_id)
    &&& (after[order_id].0@, after[order_id].1@) == routing
    &&& after.remove(order_id) == before.remove(order_id)
}

/// The order a shape is tracked as.
pub open spec fn tracked_as(
    order_id: u64,
    instrument: InstrumentId,
    side: Side,
    qty: i64,
    kind: OrderKind,
    tif: u8,
) -> Order {
    Order {
        order_id,
        instrument,
        side,
        price: shape_of(kind).1,
        qty,
        filled: 0,
        status: OrderStatus::PendingSubmit,
        ord_type: shape_of(kind).0,
        tif,
        stop_price: shape_of(kind).2,
    }
}

/// Record where an order goes.
pub fn record_destination(context: &mut Context, order_id: u64, instrument: InstrumentId)
    ensures
        routed_on(
            final(context).order_destination@,
            old(context).order_destination@,
            order_id,
            old(context).routing(instrument),
        ),
        final(context).orders == old(context).orders,
        final(context).submitted == old(context).submitted,
        final(context).modify_versions == old(context).modify_versions,
        final(context).last_clord == old(context).last_clord,
        final(context).pre_replace == old(context).pre_replace,
        final(context).cancel_attempts == old(context).cancel_attempts,
        final(context).slots_to_reconsider == old(context).slots_to_reconsider,
        final(context).pending_orders == old(context).pending_orders,
        final(context).slots == old(context).slots,
{
    let routing: (String, String) = context.order_routing(instrument);
    context.order_destination.insert(order_id, routing);
    proof {
        assert(context.order_destination@.remove(order_id) =~= old(
            context,
        ).order_destination@.remove(order_id));
    }
}

/// What the engine holds of a new order once it goes out: the order, how it was
/// placed and where it goes.
pub open spec fn submission_recorded(
    before: Context,
    after: Context,
    order_id: u64,
    instrument: InstrumentId,
    side: Side,
    qty: i64,
    kind: OrderKind,
    tif: u8,
    attrs: OrderAttrs,
) -> bool {
    &&& after.orders@ == before.orders@.insert(
        order_id,
        tracked_as(order_id, instrument, side, qty, kind, tif),
    )
    &&& after.orders.keys() == (if before.orders@.dom().contains(order_id) {
        before.orders.keys()
    } else {
        before.orders.keys().push(order_id)
    })
    &&& after.submitted@ == before.submitted@.insert(
        order_id,
        Placed { kind, attrs: Arc::new(attrs) },
    )
    &&& routed_on(
        after.order_destination@,
        before.order_destination@,
        order_id,
        before.routing(instrument),
    )
    &&& after.modify_versions == before.modify_versions
    &&& after.last_clord == before.last_clord
    &&& after.pre_replace == before.pre_replace
    &&& after.cancel_attempts == before.cancel_attempts
    &&& after.slots_to_reconsider == before.slots_to_reconsider
    &&& after.pending_orders == before.pending_orders
    &&& after.slots == before.slots
}

/// Track a new order, record it as it was placed and where it goes, and give
/// the message that submits it.
pub fn send_order_ex(
    context: &mut Context,
    known: &Known,
    account_id: &str,
    order_id: u64,
    instrument: InstrumentId,
    side: Side,
    qty: i64,
    kind: OrderKind,
    tif: u8,
    attrs: OrderAttrs,
    now: &str,
) -> (message: Vec<(u32, String)>)
    ensures
        stated(message@) == submit_fields(
            *old(context),
            *known,
            account_id@,
            order_id,
            instrument,
            side,
            qty,
            kind,
            tif,
            attrs,
            now@,
        ),
        submission_recorded(
            *old(context),
            *final(context),
            order_id,
            instrument,
            side,
            qty,
            kind,
            tif,
            attrs,
        ),
{
    let message: Vec<(u32, String)> = new_order_message(
        context,
        known,
        account_id,
        order_id,
        instrument,
        side,
        qty,
        &kind,
        tif,
        &attrs,
        now,
    );
    let (ord_type, price, stop_price) = tracked_shape(&kind);
    context.insert_order(
        Order::new(order_id, instrument, side, qty, price, ord_type, tif, stop_price),
    );
    context.record_placement(order_id, Placed { kind, attrs: Arc::new(attrs) });
    record_destination(context, order_id, instrument);
    message
}

} // verus!
