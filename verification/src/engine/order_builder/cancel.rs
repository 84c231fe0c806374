//! The withdrawal of an order, as the venue is told of it.

use crate::engine::context::{Context, Placed};
use crate::engine::known::Known;
use crate::engine::order_builder::attrs::{names_a_model, states_a_model};
use crate::engine::order_builder::fields::{
    also, also_named, put, put_named, put_str, stated, Stated, TAG_MSG_TYPE, TAG_SENDING_TIME,
};
use crate::engine::order_builder::shape::{fix_side, side_code};
use crate::text::{decimal, digits, format_qty, int_text, joined3, qty_text, uint_text};
use crate::types::attrs::OrderAttrs;
use crate::types::orders::{Order, OrderCancel};
use vstd::prelude::*;

verus! {

/// The name of a revision of an order: its number and the revision's.
pub open spec fn revision_name(order_id: u64, version: u32) -> Seq<char> {
    digits(order_id as nat) + "."@ + digits(version as nat)
}

/// The name of a revision of an order.
pub fn revision_text(order_id: u64, version: u32) -> (name: String)
    ensures
        name@ == revision_name(order_id, version),
{
    joined3(uint_text(order_id).as_str(), ".", uint_text(version as u64).as_str())
}

/// The name the venue holds an order under: the one it last took it under, or
/// its newest revision where it has taken none.
pub open spec fn venue_name(context: Context, order_id: u64) -> Seq<char> {
    if context.last_clord@.dom().contains(order_id) {
        context.last_clord@[order_id]@
    } else {
        revision_name(order_id, context.version(order_id))
    }
}

/// The name the venue holds an order under.
pub fn name_at_the_venue(context: &Context, order_id: u64) -> (name: String)
    ensures
        name@ == venue_name(*context, order_id),
{
    match context.last_clord.get(&order_id) {
        Some(name) => name.clone(),
        None => revision_text(order_id, context.replaced_times(order_id)),
    }
}

/// The account an order goes out for: the one it names, and the session's own
/// otherwise.
pub open spec fn order_account(attrs: OrderAttrs, session: Seq<char>) -> Seq<char> {
    if attrs.account@.len() == 0 {
        session
    } else {
        attrs.account@
    }
}

/// The account an order goes out for.
pub fn account_for(attrs: &OrderAttrs, session: &str) -> (account: String)
    ensures
        account@ == order_account(*attrs, session@),
{
    if attrs.account.as_str().is_empty() {
        session.to_owned()
    } else {
        attrs.account.clone()
    }
}

/// How many withdrawals of an order go out after the first, this one counted.
pub open spec fn attempt_of(context: Context, order_id: u64) -> u64 {
    if context.cancel_attempts@.dom().contains(order_id) {
        let before = context.cancel_attempts@[order_id];
        if before < u64::MAX {
            (before + 1) as u64
        } else {
            before
        }
    } else {
        0
    }
}

/// The name of a withdrawal: the order's number after a `C`, and which attempt
/// it is where it is not the first.
pub open spec fn cancel_name(order_id: u64, attempt: u64) -> Seq<char> {
    if attempt == 0 {
        "C"@ + digits(order_id as nat)
    } else {
        "C"@ + digits(order_id as nat) + ("."@ + digits(attempt as nat))
    }
}

/// The account a withdrawal states: the one the order went out for, or the one
/// the venue says it is on, or the session's own.
pub open spec fn cancel_account(
    context: Context,
    known: Known,
    order_id: u64,
    session: Seq<char>,
) -> Seq<char> {
    match context.placed(order_id) {
        Some(placed) => order_account(*placed.attrs, session),
        None => match known.info(order_id) {
            Some(info) => if info.account@.len() > 0 {
                info.account@
            } else {
                session
            },
            None => session,
        },
    }
}

/// The contract a withdrawal states: the one its attached family resolved to,
/// or the one on its slot. Nought is none.
pub open spec fn cancel_con_id(context: Context, order_id: u64) -> i64 {
    let resolved = match context.placed(order_id) {
        Some(placed) => match placed.attrs.attached {
            Some(held) => held.contract_id,
            None => None,
        },
        None => None,
    };
    match resolved {
        Some(con_id) => con_id,
        None => match context.held(order_id) {
            Some(order) => match context.con_id(order.instrument) {
                Some(con_id) => con_id,
                None => 0,
            },
            None => 0,
        },
    }
}

/// The message that withdraws an order: the order it names, the account, the
/// model, the quantity, the side and the contract, and then what the
/// withdrawal states about itself.
pub open spec fn cancel_fields(
    context: Context,
    known: Known,
    session: Seq<char>,
    order_id: u64,
    withdrawal: OrderCancel,
    now: Seq<char>,
) -> Stated {
    let f: Stated = seq![
        (TAG_MSG_TYPE, "F"@),
        (TAG_SENDING_TIME, now),
        (11u32, cancel_name(order_id, attempt_of(context, order_id))),
        (41u32, venue_name(context, order_id)),
        (1u32, cancel_account(context, known, order_id, session)),
        (6088u32, "Socket"@),
    ];
    let f = match context.placed(order_id) {
        Some(placed) => also(
            f,
            names_a_model(placed.attrs.model_code@),
            6700,
            placed.attrs.model_code@,
        ),
        None => f,
    };
    let f = match context.held(order_id) {
        Some(order) => also(f, order.qty > 0, 38, qty_text(order.qty as int)).push(
            (54, side_code(order.side)),
        ),
        None => f,
    };
    let con_id = cancel_con_id(context, order_id);
    let f = also(f, con_id != 0, 6008, decimal(con_id as int));
    let f = also_named(f, 8089, withdrawal.ext_operator@);
    let f = also(f, withdrawal.manual_order_indicator == 1, 1028, "Y"@);
    also(f, withdrawal.manual_order_indicator == 0, 1028, "N"@)
}

fn con_id_to_cancel(
    context: &Context,
    record: &Option<Placed>,
    order: &Option<Order>,
    Ghost(order_id): Ghost<u64>,
) -> (con_id: i64)
    requires
        *record == context.placed(order_id),
        *order == context.held(order_id),
    ensures
        con_id == cancel_con_id(*context, order_id),
{
    let resolved: Option<i64> = match record {
        Some(placed) => match &placed.attrs.attached {
            Some(held) => held.contract_id,
            None => None,
        },
        None => None,
    };
    match resolved {
        Some(con_id) => con_id,
        None => match order {
            Some(order) => match context.con_id_of(order.instrument) {
                Some(con_id) => con_id,
                None => 0,
            },
            None => 0,
        },
    }
}

fn account_to_cancel(
    known: &Known,
    record: &Option<Placed>,
    order_id: u64,
    session: &str,
    Ghost(context): Ghost<Context>,
) -> (account: String)
    requires
        *record == context.placed(order_id),
    ensures
        account@ == cancel_account(context, *known, order_id, session@),
{
    match record {
        Some(placed) => account_for(&placed.attrs, session),
        None => match known.orders.get(&order_id) {
            Some(info) => if !info.account.as_str().is_empty() {
                info.account.clone()
            } else {
                session.to_owned()
            },
            None => session.to_owned(),
        },
    }
}

/// Whether a withdrawal of an order is counted, and nothing else differs.
pub open spec fn withdrawal_counted(before: Context, after: Context, order_id: u64) -> bool {
    &&& after.cancel_attempts@ == before.cancel_attempts@.insert(
        order_id,
        attempt_of(before, order_id),
    )
    &&& after.orders == before.orders
    &&& after.submitted == before.submitted
    &&& after.modify_versions == before.modify_versions
    &&& after.last_clord == before.last_clord
    &&& after.pre_replace == before.pre_replace
    &&& after.order_destination == before.order_destination
    &&& after.slots_to_reconsider == before.slots_to_reconsider
    &&& after.pending_orders == before.pending_orders
    &&& after.slots == before.slots
}

/// Count a withdrawal of an order and give the message that makes it.
pub fn send_cancel(
    context: &mut Context,
    known: &Known,
    account_id: &str,
    order_id: u64,
    withdrawal: &OrderCancel,
    now: &str,
) -> (message: Vec<(u32, String)>)
    ensures
        stated(message@) == cancel_fields(
            *old(context),
            *known,
            account_id@,
            order_id,
            *withdrawal,
            now@,
        ),
        withdrawal_counted(*old(context), *final(context), order_id),
{
    let orig_clord: String = name_at_the_venue(context, order_id);
    let attempt: u64 = match context.cancel_attempts.get(&order_id) {
        Some(before) => if *before < u64::MAX {
            *before + 1
        } else {
            *before
        },
        None => 0,
    };
    let record: Option<Placed> = context.record(order_id);
    let order: Option<Order> = context.order(order_id);
    let account: String = account_to_cancel(known, &record, order_id, account_id, Ghost(*context));
    let con_id: i64 = con_id_to_cancel(context, &record, &order, Ghost(order_id));
    let mut clord: String = "C".to_owned();
    clord.append(uint_text(order_id).as_str());
    if attempt > 0 {
        let mut suffix: String = ".".to_owned();
        suffix.append(uint_text(attempt).as_str());
        clord.append(suffix.as_str());
    }
    context.cancel_attempts.insert(order_id, attempt);
    let mut fields: Vec<(u32, String)> = Vec::new();
    put_str(&mut fields, TAG_MSG_TYPE, "F");
    put_str(&mut fields, TAG_SENDING_TIME, now);
    put(&mut fields, 11, clord);
    put(&mut fields, 41, orig_clord);
    put(&mut fields, 1, account);
    put_str(&mut fields, 6088, "Socket");
    proof {
        assert(stated(fields@) =~= seq![
            (TAG_MSG_TYPE, "F"@),
            (TAG_SENDING_TIME, now@),
            (11u32, cancel_name(order_id, attempt_of(*old(context), order_id))),
            (41u32, venue_name(*old(context), order_id)),
            (1u32, cancel_account(*old(context), *known, order_id, account_id@)),
            (6088u32, "Socket"@),
        ]);
    }
    match &record {
        Some(placed) => {
            if states_a_model(placed.attrs.model_code.as_str()) {
                put(&mut fields, 6700, placed.attrs.model_code.clone());
            }
        },
        None => {},
    }
    match &order {
        Some(order) => {
            if order.qty > 0 {
                put(&mut fields, 38, format_qty(order.qty));
            }
            put_str(&mut fields, 54, fix_side(order.side));
        },
        None => {},
    }
    if con_id != 0 {
        put(&mut fields, 6008, int_text(con_id));
    }
    put_named(&mut fields, 8089, &withdrawal.ext_operator);
    if withdrawal.manual_order_indicator == 1 {
        put_str(&mut fields, 1028, "Y");
    }
    if withdrawal.manual_order_indicator == 0 {
        put_str(&mut fields, 1028, "N");
    }
    fields
}

} // verus!
