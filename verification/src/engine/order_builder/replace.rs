//! The replacement of an order, as the venue is told of it.

use crate::engine::context::{Context, Fallback, OrderIdentity, Placed, StrikeReads};
use crate::engine::known::{said, say, Known, Notice, Said};
use crate::engine::order_builder::attrs::{
    attr_fields, push_order_attrs, two_part_mid,
};
use crate::engine::order_builder::cancel::{
    account_for, name_at_the_venue, order_account, revision_name, revision_text, venue_name,
};
use crate::engine::order_builder::fields::{
    also, also_flag, also_named, drop_stated, extend, find, first_under, put, put_flag, put_named,
    put_str, rename, renamed, stated, unstated_by, Stated, TAG_MSG_TYPE, TAG_SENDING_TIME,
};
use crate::engine::order_builder::merge::{
    keep_known_family, merge_attrs, merged_attrs, with_family,
};
use crate::engine::order_builder::reports::{change_refused, the_change_did_not_go};
use crate::engine::order_builder::shape::{
    exec_inst_for, fix_side, instruction_of, is_trigger_only, limit_priced,
    needs_the_placed_record, origin_code, origin_name, push_type_and_prices,
    replace_needs_the_placed_record, restate_with, restated, shape_fields, shape_of, side_code,
    states_a_limit_price, tracked_shape, trigger_only,
};
use crate::engine::order_builder::submit::{
    family_contract, parent_clord, parent_name, takes_trails_as_t, trail_as_t,
};
use crate::text::{
    decimal, digits, format_price, format_qty, int_text, joined3, price_text, qty_text,
    uint_text,
};
use crate::types::attrs::{AttachedAttrs, OrderAttrs};
use crate::types::kinds::OrderKind;
use crate::types::orders::{
    byte_as_text, byte_text, ord_type_fix_str, ord_type_name, InstrumentId, Order, OrderOp,
    OrderSpec, OrderStatus, ORD_LIT, ORD_STOP_LIMIT, TIF_UNSTATED,
};
use std::sync::Arc;
use vstd::prelude::*;

verus! {

/// The code an order nothing here tracks is reported under.
pub const ORDER_NOT_FOUND_ERROR_CODE: i32 = 135;

/// The code of a message about an order rather than about the wire.
pub const ORDER_MESSAGE_ERROR_CODE: i32 = 399;

/// What a replacement names: nought names nothing.
#[derive(Clone, Copy, Debug, PartialEq, Eq, Structural)]
pub struct Named {
    pub price: i64,
    pub qty: i64,
    pub outside_rth: bool,
    pub ord_type: u8,
    pub tif: u8,
    pub stop_price: i64,
}

/// The terms a replacement settles on.
#[derive(Clone, Copy, Debug, PartialEq, Eq, Structural)]
pub struct Terms {
    pub ord_type: u8,
    pub tif: u8,
    /// The trigger, nought where it has none.
    pub stop: i64,
    /// The price and the trigger the replaced order is tracked under.
    pub record_price: i64,
    pub record_stop: i64,
}

/// Whether a type that may carry a trigger beside its price does: where the
/// replacement names the type, the trigger it also names; where it does not,
/// the trigger the order has.
pub open spec fn carries_trigger(orig: Order, named: Named, ord_type: u8) -> bool {
    trigger_only(ord_type) || ((ord_type == ORD_STOP_LIMIT || ord_type == ORD_LIT) && if named.ord_type
        != 0 {
        named.stop_price != 0
    } else {
        orig.stop_price != 0
    })
}

/// The trigger of the replaced order.
pub open spec fn trigger_after(orig: Order, named: Named, ord_type: u8) -> i64 {
    let carries = carries_trigger(orig, named, ord_type);
    if trigger_only(ord_type) && named.stop_price == 0 {
        named.price
    } else if carries && named.stop_price != 0 {
        named.stop_price
    } else if named.stop_price != 0 && orig.stop_price != 0 && orig.ord_type == ord_type {
        named.stop_price
    } else if orig.ord_type != ord_type && !carries {
        0
    } else {
        orig.stop_price
    }
}

/// The terms a replacement settles on. A shape stated whole is tracked as its
/// own placement would be.
pub open spec fn terms_after(orig: Order, named: Named, shape: Option<OrderKind>) -> Terms {
    let ord_type = match shape {
        Some(kind) => shape_of(kind).0,
        None => if named.ord_type != 0 {
            named.ord_type
        } else {
            orig.ord_type
        },
    };
    let stop = trigger_after(orig, named, ord_type);
    Terms {
        ord_type,
        tif: if named.tif != 0 {
            named.tif
        } else {
            orig.tif
        },
        stop,
        record_price: match shape {
            Some(kind) => shape_of(kind).1,
            None => named.price,
        },
        record_stop: match shape {
            Some(kind) => shape_of(kind).2,
            None => stop,
        },
    }
}

/// The terms a replacement settles on.
pub fn settle_terms(orig: &Order, named: &Named, shape: Option<&OrderKind>) -> (terms: Terms)
    ensures
        terms == terms_after(
            *orig,
            *named,
            match shape {
                Some(kind) => Some(*kind),
                None => None,
            },
        ),
{
    let ord_type: u8 = match shape {
        Some(kind) => tracked_shape(kind).0,
        None => if named.ord_type != 0 {
            named.ord_type
        } else {
            orig.ord_type
        },
    };
    let only: bool = is_trigger_only(ord_type);
    let carries: bool = only || ((ord_type == ORD_STOP_LIMIT || ord_type == ORD_LIT) && if named.ord_type
        != 0 {
        named.stop_price != 0
    } else {
        orig.stop_price != 0
    });
    let stop: i64 = if only && named.stop_price == 0 {
        named.price
    } else if carries && named.stop_price != 0 {
        named.stop_price
    } else if named.stop_price != 0 && orig.stop_price != 0 && orig.ord_type == ord_type {
        named.stop_price
    } else if orig.ord_type != ord_type && !carries {
        0
    } else {
        orig.stop_price
    };
    let (record_price, record_stop) = match shape {
        Some(kind) => {
            let (_, price, stop) = tracked_shape(kind);
            (price, stop)
        },
        None => (named.price, stop),
    };
    Terms {
        ord_type,
        tif: if named.tif != 0 {
            named.tif
        } else {
            orig.tif
        },
        stop,
        record_price,
        record_stop,
    }
}

/// What is known of the family of an order nothing here recorded.
pub open spec fn known_family(known: Known, order_id: u64) -> Option<Arc<AttachedAttrs>> {
    if known.attached@.dom().contains(order_id) {
        let held = known.attached@[order_id];
        Some(
            Arc::new(
                AttachedAttrs {
                    api_identity: match (held.api_order_id, held.api_client_id) {
                        (Some(order_id), Some(client_id)) => Some((order_id, client_id)),
                        _ => None,
                    },
                    contract_id: None,
                    ratio_factor: None,
                    family_key: held.family_key,
                    parent: held.parent,
                    use_parent_price: held.use_parent_price,
                    profit_offset: held.profit_offset,
                    combo: None,
                },
            ),
        )
    } else {
        None
    }
}

fn find_known_family(known: &Known, order_id: u64) -> (family: Option<Arc<AttachedAttrs>>)
    ensures
        family == known_family(*known, order_id),
{
    match known.attached.get(&order_id) {
        Some(held) => {
            let family: AttachedAttrs = AttachedAttrs {
                api_identity: match (held.api_order_id, held.api_client_id) {
                    (Some(order_id), Some(client_id)) => Some((order_id, client_id)),
                    _ => None,
                },
                contract_id: None,
                ratio_factor: None,
                family_key: held.family_key.clone(),
                parent: held.parent.clone(),
                use_parent_price: held.use_parent_price,
                profit_offset: held.profit_offset.clone(),
                combo: None,
            };
            Some(Arc::new(family))
        },
        None => None,
    }
}

/// The record of an order once a replacement's statement is merged onto it:
/// the statement whole where nothing was recorded, with what is known of the
/// order's family; the record as it was where nothing is stated.
pub open spec fn record_after(
    context: Context,
    known: Known,
    order_id: u64,
    statement: Option<OrderSpec>,
) -> Option<Placed> {
    match statement {
        Some(statement) => Some(
            match context.placed(order_id) {
                Some(resting) => Placed {
                    kind: statement.kind,
                    attrs: Arc::new(merged_attrs(*resting.attrs, statement.attrs)),
                },
                None => Placed {
                    kind: statement.kind,
                    attrs: Arc::new(
                        with_family(statement.attrs, known_family(known, order_id)),
                    ),
                },
            },
        ),
        None => context.placed(order_id),
    }
}

/// The statement a replacement carries.
pub open spec fn statement_of(spec: Option<Box<OrderSpec>>) -> Option<OrderSpec> {
    match spec {
        Some(spec) => Some(*spec),
        None => None,
    }
}

#[verifier::spinoff_prover]
fn merged_record(resting: &Placed, statement: OrderSpec) -> (record: Placed)
    ensures
        record.kind == statement.kind,
        *record.attrs == merged_attrs(*resting.attrs, statement.attrs),
{
    let kind: OrderKind = statement.kind;
    let merged: OrderAttrs = merge_attrs(&resting.attrs, statement.attrs);
    Placed { kind, attrs: Arc::new(merged) }
}

#[verifier::spinoff_prover]
fn unrecorded(statement: OrderSpec, family: Option<Arc<AttachedAttrs>>) -> (record: Placed)
    ensures
        record.kind == statement.kind,
        *record.attrs == with_family(statement.attrs, family),
{
    let kind: OrderKind = statement.kind;
    let kept: OrderAttrs = keep_known_family(statement.attrs, family);
    Placed { kind, attrs: Arc::new(kept) }
}

#[verifier::spinoff_prover]
fn merge_onto(
    resting: Option<Placed>,
    known: &Known,
    order_id: u64,
    statement: Option<Box<OrderSpec>>,
    Ghost(context): Ghost<Context>,
) -> (record: Option<Placed>)
    requires
        resting == context.placed(order_id),
    ensures
        record == record_after(context, *known, order_id, statement_of(statement)),
{
    match statement {
        Some(statement) => match &resting {
            Some(resting) => Some(merged_record(resting, *statement)),
            None => Some(unrecorded(*statement, find_known_family(known, order_id))),
        },
        None => resting,
    }
}

/// Whether a contract is named by its symbol alone.
pub open spec fn named_by_symbol(identity: Option<OrderIdentity>) -> bool {
    match identity {
        Some(id) => id.expiry@.len() == 0 && id.right@.len() == 0 && (id.strike@.len() == 0
            || id.strike_reads is NotAbove),
        None => true,
    }
}

/// The local symbol a replacement names the contract by: the contract's own,
/// or its symbol where that alone names it, or none.
pub open spec fn local_symbol(context: Context, instrument: InstrumentId) -> Seq<char> {
    let identity = match context.slot(instrument) {
        Some(slot) => slot.identity,
        None => None,
    };
    match identity {
        Some(id) => if id.local_symbol@.len() > 0 {
            id.local_symbol@
        } else if named_by_symbol(identity) {
            context.symbol(instrument)
        } else {
            Seq::empty()
        },
        None => context.symbol(instrument),
    }
}

fn local_symbol_of(context: &Context, instrument: InstrumentId) -> (symbol: String)
    ensures
        symbol@ == local_symbol(*context, instrument),
{
    match context.slot_of(instrument) {
        Some(slot) => match &slot.identity {
            Some(id) => {
                if !id.local_symbol.as_str().is_empty() {
                    id.local_symbol.clone()
                } else if id.expiry.as_str().is_empty() && id.right.as_str().is_empty() && (
                id.strike.as_str().is_empty() || matches!(id.strike_reads, StrikeReads::NotAbove)) {
                    context.symbol_of(instrument)
                } else {
                    String::new()
                }
            },
            None => context.symbol_of(instrument),
        },
        None => context.symbol_of(instrument),
    }
}

/// Where an order is working: where it went out, or where its slot routes
/// where nothing recorded it.
pub open spec fn working_on(context: Context, order_id: u64, instrument: InstrumentId) -> (
    Seq<char>,
    Seq<char>,
) {
    if context.order_destination@.dom().contains(order_id) {
        let (sec_type, destination) = context.order_destination@[order_id];
        (sec_type@, destination@)
    } else {
        context.routing(instrument)
    }
}

fn working_routing(context: &Context, order_id: u64, instrument: InstrumentId) -> (routing: (
    String,
    String,
))
    ensures
        (routing.0@, routing.1@) == working_on(*context, order_id, instrument),
{
    match context.order_destination.get(&order_id) {
        Some(routing) => (routing.0.clone(), routing.1.clone()),
        None => context.order_routing(instrument),
    }
}

/// The contract a replacement states: the one its family resolved to, or the
/// one on its slot, and empty where neither is known.
pub open spec fn replaced_con_id(
    context: Context,
    record: Option<Placed>,
    instrument: InstrumentId,
) -> Seq<char> {
    let resolved = match record {
        Some(placed) => family_contract(*placed.attrs),
        None => None,
    };
    match resolved {
        Some(con_id) => decimal(con_id as int),
        None => match context.con_id(instrument) {
            Some(con_id) => decimal(con_id as int),
            None => Seq::empty(),
        },
    }
}

fn con_id_to_replace(
    context: &Context,
    record: &Option<Placed>,
    instrument: InstrumentId,
) -> (con_id: String)
    ensures
        con_id@ == replaced_con_id(*context, *record, instrument),
{
    let resolved: Option<i64> = match record {
        Some(placed) => match &placed.attrs.attached {
            Some(held) => held.contract_id,
            None => None,
        },
        None => None,
    };
    match resolved {
        Some(con_id) => int_text(con_id),
        None => match context.con_id_of(instrument) {
            Some(con_id) => int_text(con_id),
            None => String::new(),
        },
    }
}

/// The message of a replacement ahead of what the order carries: its name and
/// the one it replaces, its price where its type states one and no shape is
/// stated whole, its account, where it is working, and what it is.
pub open spec fn lean_fields(
    context: Context,
    session: Seq<char>,
    order_id: u64,
    orig: Order,
    named: Named,
    terms: Terms,
    record: Option<Placed>,
    whole: bool,
    version: u32,
    now: Seq<char>,
) -> Stated {
    let routing = working_on(context, order_id, orig.instrument);
    let f: Stated = seq![
        (TAG_MSG_TYPE, "G"@),
        (TAG_SENDING_TIME, now),
        (11u32, revision_name(order_id, version)),
        (41u32, venue_name(context, order_id)),
    ];
    let f = also(f, !whole && limit_priced(terms.ord_type), 44, price_text(named.price as int));
    let f = f.push(
        (
            1,
            match record {
                Some(placed) => order_account(*placed.attrs, session),
                None => session,
            },
        ),
    );
    let f = f.push(
        (
            6122,
            match record {
                Some(placed) => origin_name(placed.attrs.origin),
                None => origin_name(0),
            },
        ),
    );
    let f = also_flag(f, named.outside_rth, 6433);
    let f = f.push((100, routing.1)).push((6210, routing.1)).push(
        (38, qty_text(named.qty as int)),
    ).push((54, side_code(orig.side))).push((40, ord_type_name(terms.ord_type))).push(
        (55, context.symbol(orig.instrument)),
    ).push((167, routing.0));
    let f = also_named(f, 6035, local_symbol(context, orig.instrument));
    let f = also(f, terms.tif != TIF_UNSTATED, 59, byte_text(terms.tif));
    let f = f.push((6008, replaced_con_id(context, record, orig.instrument))).push(
        (6088, "Socket"@),
    ).push((6211, Seq::empty()));
    also(f, !whole && terms.stop != 0, 99, price_text(terms.stop as int))
}

fn lean_message(
    context: &Context,
    account_id: &str,
    order_id: u64,
    orig: &Order,
    named: &Named,
    terms: &Terms,
    record: &Option<Placed>,
    whole: bool,
    version: u32,
    now: &str,
) -> (fields: Vec<(u32, String)>)
    ensures
        stated(fields@) == lean_fields(
            *context,
            account_id@,
            order_id,
            *orig,
            *named,
            *terms,
            *record,
            whole,
            version,
            now@,
        ),
{
    let (sec_type, destination) = working_routing(context, order_id, orig.instrument);
    let mut fields: Vec<(u32, String)> = Vec::new();
    put_str(&mut fields, TAG_MSG_TYPE, "G");
    put_str(&mut fields, TAG_SENDING_TIME, now);
    put(&mut fields, 11, revision_text(order_id, version));
    put(&mut fields, 41, name_at_the_venue(context, order_id));
    proof {
        assert(stated(fields@) =~= seq![
            (TAG_MSG_TYPE, "G"@),
            (TAG_SENDING_TIME, now@),
            (11u32, revision_name(order_id, version)),
            (41u32, venue_name(*context, order_id)),
        ]);
    }
    if !whole && states_a_limit_price(terms.ord_type) {
        put(&mut fields, 44, format_price(named.price));
    }
    match record {
        Some(placed) => {
            put(&mut fields, 1, account_for(&placed.attrs, account_id));
            put_str(&mut fields, 6122, origin_code(placed.attrs.origin));
        },
        None => {
            put_str(&mut fields, 1, account_id);
            put_str(&mut fields, 6122, origin_code(0));
        },
    }
    put_flag(&mut fields, named.outside_rth, 6433);
    put(&mut fields, 100, destination.clone());
    put(&mut fields, 6210, destination);
    put(&mut fields, 38, format_qty(named.qty));
    put_str(&mut fields, 54, fix_side(orig.side));
    put(&mut fields, 40, ord_type_fix_str(terms.ord_type));
    put(&mut fields, 55, context.symbol_of(orig.instrument));
    put(&mut fields, 167, sec_type);
    put_named(&mut fields, 6035, &local_symbol_of(context, orig.instrument));
    if terms.tif != TIF_UNSTATED {
        put(&mut fields, 59, byte_as_text(terms.tif));
    }
    put(&mut fields, 6008, con_id_to_replace(context, record, orig.instrument));
    put_str(&mut fields, 6088, "Socket");
    put(&mut fields, 6211, String::new());
    if !whole && terms.stop != 0 {
        put(&mut fields, 99, format_price(terms.stop));
    }
    fields
}

/// Whether a replacement restates the record of the order: it is stated whole,
/// or it states the type the record describes, as the venue names it.
pub open spec fn restates_the_record(record: Option<Placed>, terms: Terms, whole: bool) -> bool {
    match record {
        Some(placed) => whole || ord_type_name(terms.ord_type) == ord_type_name(
            shape_of(placed.kind).0,
        ),
        None => false,
    }
}

/// The message of a replacement that restates the record: the lean message
/// under the name the shape's own placement states, and then everything the
/// order carries that the lean message has not stated already.
pub open spec fn restated_fields(
    lean: Stated,
    kind: OrderKind,
    attrs: OrderAttrs,
    orig: Order,
    named: Named,
    trail_as_t: bool,
    parent: Option<Seq<char>>,
) -> Stated {
    let again = restated(kind, named.price, named.stop_price);
    let shape = shape_fields(Seq::empty(), again, trail_as_t);
    let carried = attr_fields(
        shape,
        attrs,
        again,
        orig.side,
        instruction_of(kind, trail_as_t),
        parent,
    );
    let name = if two_part_mid(attrs, again) {
        Some("PMID2"@)
    } else {
        first_under(shape, 40)
    };
    let lean_named = match name {
        Some(name) => renamed(lean, 40, name),
        None => lean,
    };
    lean_named + unstated_by(carried, lean)
}

fn restated_message(
    lean: Vec<(u32, String)>,
    kind: &OrderKind,
    again: &OrderKind,
    attrs: &OrderAttrs,
    orig: &Order,
    named: &Named,
    trail_as_t: bool,
    parent: &Option<String>,
) -> (message: Vec<(u32, String)>)
    requires
        *again == restated(*kind, named.price, named.stop_price),
    ensures
        stated(message@) == restated_fields(
            stated(lean@),
            *kind,
            *attrs,
            *orig,
            *named,
            trail_as_t,
            crate::engine::order_builder::attrs::optional_text(*parent),
        ),
{
    let mut carried: Vec<(u32, String)> = Vec::new();
    proof {
        assert(stated(carried@) =~= Seq::empty());
    }
    push_type_and_prices(&mut carried, again, trail_as_t);
    let shape_name: Option<String> = find(&carried, 40);
    let exec_inst: String = exec_inst_for(kind, trail_as_t);
    let settled: Option<&'static str> = push_order_attrs(
        &mut carried,
        attrs,
        again,
        orig.side,
        exec_inst.as_str(),
        parent,
    );
    let rest: Vec<(u32, String)> = drop_stated(carried, &lean);
    let mut message: Vec<(u32, String)> = lean;
    match settled {
        Some(name) => rename(&mut message, 40, name),
        None => match &shape_name {
            Some(name) => rename(&mut message, 40, name.as_str()),
            None => {},
        },
    }
    extend(&mut message, rest);
    message
}

/// Why an order nothing here tracks is not replaced.
pub open spec fn not_tracked_text(order_id: u64) -> Seq<char> {
    "no order "@ + digits(order_id as nat) + " is tracked here, so it cannot be replaced"@
}

/// Why an order this session did not place is not replaced.
pub open spec fn not_placed_text(order_id: u64) -> Seq<char> {
    "order "@ + digits(order_id as nat)
        + " was not placed by this session, so the offset that defines it cannot be restated; withdraw it and place a new order"@
}

/// Why an order whose names have run out is not replaced.
pub open spec fn names_run_out_text(order_id: u64) -> Seq<char> {
    "order "@ + digits(order_id as nat)
        + " has been replaced as many times as it can be named; withdraw it and place a new order"@
}

/// What is said of a replacement that did not go.
pub open spec fn replacement_refused(
    before: Seq<Said>,
    order_id: u64,
    code: i32,
    text: Seq<char>,
    instrument: InstrumentId,
    stands_as: Option<OrderStatus>,
    now_ns: u64,
) -> Seq<Said> {
    before.push(Said::Inactive { order_id, op: OrderOp::Modify, code, text }).push(
        Said::CancelReject(change_refused(order_id, instrument, stands_as, now_ns)),
    )
}

fn refuse_replacement(
    notices: &mut Vec<Notice>,
    order_id: u64,
    code: i32,
    text: String,
    instrument: InstrumentId,
    stands_as: Option<OrderStatus>,
    now_ns: u64,
)
    ensures
        said(final(notices)@) == replacement_refused(
            said(old(notices)@),
            order_id,
            code,
            text@,
            instrument,
            stands_as,
            now_ns,
        ),
{
    say(notices, Notice::Inactive { order_id, op: OrderOp::Modify, code, text });
    the_change_did_not_go(notices, order_id, instrument, stands_as, now_ns);
}

/// The record of a replaced order once its message is built: the shape it was
/// restated with, where it was.
pub open spec fn record_sent(
    record: Option<Placed>,
    named: Named,
    terms: Terms,
    whole: bool,
) -> Option<Placed> {
    match record {
        Some(placed) => if restates_the_record(record, terms, whole) {
            Some(
                Placed {
                    kind: restated(placed.kind, named.price, named.stop_price),
                    attrs: placed.attrs,
                },
            )
        } else {
            record
        },
        None => None,
    }
}

/// The records with one order's changed, where it has one.
pub open spec fn with_record(
    records: Map<u64, Placed>,
    order_id: u64,
    record: Option<Placed>,
) -> Map<u64, Placed> {
    match record {
        Some(placed) => records.insert(order_id, placed),
        None => records,
    }
}

/// The shape a replacement states whole.
pub open spec fn whole_shape(record: Option<Placed>, whole: bool) -> Option<OrderKind> {
    match record {
        Some(placed) => if whole {
            Some(placed.kind)
        } else {
            None
        },
        None => None,
    }
}

/// The order as it is tracked once its replacement goes out: its terms are
/// restated, and what it has filled is not.
pub open spec fn replaced_order(orig: Order, order_id: u64, named: Named, terms: Terms) -> Order {
    Order {
        order_id,
        instrument: orig.instrument,
        side: orig.side,
        price: terms.record_price,
        qty: named.qty,
        filled: orig.filled,
        status: OrderStatus::PendingReplace,
        ord_type: terms.ord_type,
        tif: terms.tif,
        stop_price: terms.record_stop,
    }
}

/// The message of a replacement.
pub open spec fn replace_fields(
    before: Context,
    after: Context,
    known: Known,
    session: Seq<char>,
    order_id: u64,
    orig: Order,
    named: Named,
    record: Option<Placed>,
    whole: bool,
    now: Seq<char>,
) -> Stated {
    let terms = terms_after(orig, named, whole_shape(record, whole));
    let lean = lean_fields(
        before,
        session,
        order_id,
        orig,
        named,
        terms,
        record,
        whole,
        after.version(order_id),
        now,
    );
    match record {
        Some(placed) => if restates_the_record(record, terms, whole) {
            restated_fields(
                lean,
                placed.kind,
                *placed.attrs,
                orig,
                named,
                takes_trails_as_t(known),
                parent_name(after, *placed.attrs),
            )
        } else {
            lean
        },
        None => lean,
    }
}

/// What the engine holds of an order once its replacement goes out: the terms
/// it was replaced with, its next name, what the venue held before, and the
/// record of it.
pub open spec fn replacement_recorded(
    before: Context,
    after: Context,
    order_id: u64,
    orig: Order,
    named: Named,
    record: Option<Placed>,
    whole: bool,
) -> bool {
    let terms = terms_after(orig, named, whole_shape(record, whole));
    let version = (before.version(order_id) + 1) as u32;
    &&& after.orders@ == before.orders@.insert(
        order_id,
        replaced_order(orig, order_id, named, terms),
    )
    &&& after.orders.keys() == before.orders.keys()
    &&& after.modify_versions@ == before.modify_versions@.insert(order_id, version)
    &&& after.last_clord@.dom().contains(order_id)
    &&& after.last_clord@[order_id]@ == revision_name(order_id, version)
    &&& after.last_clord@.remove(order_id) == before.last_clord@.remove(order_id)
    &&& after.pre_replace@.dom().contains((order_id, version))
    &&& after.pre_replace@[(order_id, version)].order == orig
    &&& after.pre_replace@[(order_id, version)].clord@ == venue_name(before, order_id)
    &&& after.pre_replace@[(order_id, version)].record == before.placed(order_id)
    &&& after.pre_replace@.remove((order_id, version)) == before.pre_replace@.remove(
        (order_id, version),
    )
    &&& after.submitted@ == with_record(
        before.submitted@,
        order_id,
        record_sent(record, named, terms, whole),
    )
    &&& after.cancel_attempts == before.cancel_attempts
    &&& after.order_destination == before.order_destination
    &&& after.slots_to_reconsider == before.slots_to_reconsider
    &&& after.pending_orders == before.pending_orders
    &&& after.slots == before.slots
}

/// Whether nothing but the records differs.
pub open spec fn same_but_records(before: Context, after: Context) -> bool {
    &&& after.orders == before.orders
    &&& after.modify_versions == before.modify_versions
    &&& after.last_clord == before.last_clord
    &&& after.pre_replace == before.pre_replace
    &&& after.cancel_attempts == before.cancel_attempts
    &&& after.order_destination == before.order_destination
    &&& after.slots_to_reconsider == before.slots_to_reconsider
    &&& after.pending_orders == before.pending_orders
    &&& after.slots == before.slots
}

/// The outcome of a replacement: the message it goes out with, or a refusal
/// where the order is not tracked, where the record that defines its type is
/// missing, or where its names have run out. A replacement that is refused
/// leaves the order standing as the venue holds it.
pub open spec fn replacement_outcome(
    before: Context,
    after: Context,
    known: Known,
    session: Seq<char>,
    said_before: Seq<Said>,
    said_after: Seq<Said>,
    order_id: u64,
    named: Named,
    statement: Option<OrderSpec>,
    message: Option<Stated>,
    now: Seq<char>,
    now_ns: u64,
) -> bool {
    let record = record_after(before, known, order_id, statement);
    let whole = statement is Some;
    match before.held(order_id) {
        None => {
            &&& message is None
            &&& same_but_records(before, after)
            &&& after.submitted@ == before.submitted@
            &&& said_after == replacement_refused(
                said_before,
                order_id,
                ORDER_NOT_FOUND_ERROR_CODE,
                not_tracked_text(order_id),
                0,
                None,
                now_ns,
            )
        },
        Some(orig) => if record is None && needs_the_placed_record(orig.ord_type) {
            &&& message is None
            &&& same_but_records(before, after)
            &&& after.submitted@ == before.submitted@
            &&& said_after == replacement_refused(
                said_before,
                order_id,
                ORDER_NOT_FOUND_ERROR_CODE,
                not_placed_text(order_id),
                orig.instrument,
                Some(orig.status),
                now_ns,
            )
        } else if before.version(order_id) == u32::MAX {
            &&& message is None
            &&& same_but_records(before, after)
            &&& after.submitted@ == before.submitted@
            &&& said_after == replacement_refused(
                said_before,
                order_id,
                ORDER_MESSAGE_ERROR_CODE,
                names_run_out_text(order_id),
                orig.instrument,
                Some(orig.status),
                now_ns,
            )
        } else {
            &&& message == Some(
                replace_fields(
                    before,
                    after,
                    known,
                    session,
                    order_id,
                    orig,
                    named,
                    record,
                    whole,
                    now,
                ),
            )
            &&& replacement_recorded(before, after, order_id, orig, named, record, whole)
            &&& said_after == said_before
        },
    }
}

/// What a message states, where there is one.
pub open spec fn message_states(message: Option<Vec<(u32, String)>>) -> Option<Stated> {
    match message {
        Some(message) => Some(stated(message@)),
        None => None,
    }
}

fn restates(record: &Placed, terms: &Terms, whole: bool) -> (r: bool)
    ensures
        r == restates_the_record(Some(*record), *terms, whole),
{
    if whole {
        return true;
    }
    let named: String = ord_type_fix_str(terms.ord_type);
    let recorded: String = ord_type_fix_str(tracked_shape(&record.kind).0);
    *named.as_str() == *recorded.as_str()
}

/// Track a replacement that is about to go out: the terms, the name, and what
/// the venue held before.
fn track_replacement(
    context: &mut Context,
    order_id: u64,
    orig: &Order,
    named: &Named,
    terms: &Terms,
    accepted: Option<Placed>,
    version: u32,
)
    requires
        old(context).held(order_id) == Some(*orig),
    ensures
        final(context).orders@ == old(context).orders@.insert(
            order_id,
            replaced_order(*orig, order_id, *named, *terms),
        ),
        final(context).orders.keys() == old(context).orders.keys(),
        final(context).modify_versions@ == old(context).modify_versions@.insert(order_id, version),
        final(context).last_clord@.dom().contains(order_id),
        final(context).last_clord@[order_id]@ == revision_name(order_id, version),
        final(context).last_clord@.remove(order_id) == old(context).last_clord@.remove(order_id),
        final(context).pre_replace@.dom().contains((order_id, version)),
        final(context).pre_replace@[(order_id, version)].order == *orig,
        final(context).pre_replace@[(order_id, version)].clord@ == venue_name(
            *old(context),
            order_id,
        ),
        final(context).pre_replace@[(order_id, version)].record == accepted,
        final(context).pre_replace@.remove((order_id, version)) == old(
            context,
        ).pre_replace@.remove((order_id, version)),
        final(context).submitted == old(context).submitted,
        final(context).cancel_attempts == old(context).cancel_attempts,
        final(context).order_destination == old(context).order_destination,
        final(context).slots_to_reconsider == old(context).slots_to_reconsider,
        final(context).pending_orders == old(context).pending_orders,
        final(context).slots == old(context).slots,
{
    let clord: String = name_at_the_venue(context, order_id);
    context.insert_order(
        Order {
            order_id,
            instrument: orig.instrument,
            side: orig.side,
            price: terms.record_price,
            qty: named.qty,
            filled: orig.filled,
            status: OrderStatus::PendingReplace,
            ord_type: terms.ord_type,
            tif: terms.tif,
            stop_price: terms.record_stop,
        },
    );
    context.pre_replace.insert(
        (order_id, version),
        Fallback { order: *orig, clord, record: accepted },
    );
    context.modify_versions.insert(order_id, version);
    context.last_clord.insert(order_id, revision_text(order_id, version));
    proof {
        assert(context.last_clord@.remove(order_id) =~= old(context).last_clord@.remove(order_id));
        assert(context.pre_replace@.remove((order_id, version)) =~= old(
            context,
        ).pre_replace@.remove((order_id, version)));
    }
}

/// Take a replacement of an order: settle its terms, track them, and give the
/// message it goes out with. Nothing where it is refused, which is said.
#[verifier::spinoff_prover]
#[verifier::rlimit(40)]
pub fn replace_order(
    context: &mut Context,
    known: &Known,
    notices: &mut Vec<Notice>,
    account_id: &str,
    order_id: u64,
    named: &Named,
    statement: Option<Box<OrderSpec>>,
    now: &str,
    now_ns: u64,
) -> (message: Option<Vec<(u32, String)>>)
    ensures
        replacement_outcome(
            *old(context),
            *final(context),
            *known,
            account_id@,
            said(old(notices)@),
            said(final(notices)@),
            order_id,
            *named,
            statement_of(statement),
            message_states(message),
            now@,
            now_ns,
        ),
{
    let orig: Order = match context.order(order_id) {
        Some(orig) => orig,
        None => {
            let text: String = joined3(
                "no order ",
                uint_text(order_id).as_str(),
                " is tracked here, so it cannot be replaced",
            );
            refuse_replacement(
                notices,
                order_id,
                ORDER_NOT_FOUND_ERROR_CODE,
                text,
                0,
                None,
                now_ns,
            );
            return None;
        },
    };
    let accepted: Option<Placed> = context.record(order_id);
    let whole: bool = statement.is_some();
    let resting: Option<Placed> = context.record(order_id);
    let record: Option<Placed> = merge_onto(resting, known, order_id, statement, Ghost(*context));
    if record.is_none() && replace_needs_the_placed_record(orig.ord_type) {
        let text: String = joined3(
            "order ",
            uint_text(order_id).as_str(),
            " was not placed by this session, so the offset that defines it cannot be restated; withdraw it and place a new order",
        );
        refuse_replacement(
            notices,
            order_id,
            ORDER_NOT_FOUND_ERROR_CODE,
            text,
            orig.instrument,
            Some(orig.status),
            now_ns,
        );
        return None;
    }
    let shape: Option<&OrderKind> = match &record {
        Some(placed) => if whole {
            Some(&placed.kind)
        } else {
            None
        },
        None => None,
    };
    let terms: Terms = settle_terms(&orig, named, shape);
    let before: u32 = context.replaced_times(order_id);
    if before == u32::MAX {
        let text: String = joined3(
            "order ",
            uint_text(order_id).as_str(),
            " has been replaced as many times as it can be named; withdraw it and place a new order",
        );
        refuse_replacement(
            notices,
            order_id,
            ORDER_MESSAGE_ERROR_CODE,
            text,
            orig.instrument,
            Some(orig.status),
            now_ns,
        );
        return None;
    }
    let version: u32 = before + 1;
    let lean: Vec<(u32, String)> = lean_message(
        context,
        account_id,
        order_id,
        &orig,
        named,
        &terms,
        &record,
        whole,
        version,
        now,
    );
    track_replacement(context, order_id, &orig, named, &terms, accepted, version);
    let message: Vec<(u32, String)> = match record {
        Some(placed) => if restates(&placed, &terms, whole) {
            let parent: Option<String> = parent_clord(context, &placed.attrs);
            let again: OrderKind = restate_with(&placed.kind, named.price, named.stop_price);
            let message: Vec<(u32, String)> = restated_message(
                lean,
                &placed.kind,
                &again,
                &placed.attrs,
                &orig,
                named,
                trail_as_t(known),
                &parent,
            );
            context.record_placement(order_id, Placed { kind: again, attrs: placed.attrs });
            message
        } else {
            context.record_placement(order_id, placed);
            lean
        },
        None => lean,
    };
    Some(message)
}

} // verus!
