//! Instructions on their way out: withdrawals, replacements, brackets, and what
//! is said where one did not go.

use ibkr_dx::engine::context::{Context, Placed, Slot};
use ibkr_dx::engine::known::{Known, Notice, OrderInfo};
use ibkr_dx::engine::order_builder::cancel::{account_for, name_at_the_venue, send_cancel};
use ibkr_dx::engine::order_builder::drain::{
    begin_drain, drain_and_send_orders, finish_drain, settle, DrainStep, Settled,
};
use ibkr_dx::engine::order_builder::fields::find;
use ibkr_dx::engine::order_builder::leftover::refuse_what_is_left;
use ibkr_dx::engine::order_builder::merge::merge_statement;
use ibkr_dx::engine::order_builder::replace::{settle_terms, Named};
use ibkr_dx::engine::order_builder::reports::{
    report_uncertain, synthesize_pending_cancel, the_change_did_not_go,
};
use ibkr_dx::text::{PRICE_SCALE, QTY_SCALE};
use ibkr_dx::types::attrs::OrderAttrs;
use ibkr_dx::types::kinds::{OrderKind, Side};
use ibkr_dx::types::orders::{
    CancelReject, Order, OrderCancel, OrderOp, OrderRequest, OrderSpec, OrderStatus, OrderUpdate,
    ORD_LIT, TIF_UNSTATED,
};
use std::sync::Arc;

const NOW: &str = "20260926-08:43:00";

fn dollars(n: i64) -> i64 {
    n * PRICE_SCALE
}

fn session() -> Context {
    let mut context = Context::new();
    context.slots.push(Slot {
        con_id: Some(17),
        symbol: "ABC".to_string(),
        sec_type: "STK".to_string(),
        destination: "SMART".to_string(),
        identity: None,
        currency: Some("USD".to_string()),
    });
    context
}

/// A limit order that is working, as this session placed it.
fn working(context: &mut Context, order_id: u64) {
    let mut order = Order::new(order_id, 0, Side::Buy, 100 * QTY_SCALE, dollars(10), b'2', b'1', 0);
    order.status = OrderStatus::Submitted;
    context.insert_order(order);
    context.record_placement(
        order_id,
        Placed {
            kind: OrderKind::Limit { price: dollars(10) },
            attrs: Arc::new(OrderAttrs::default()),
        },
    );
}

fn pairs(fields: &[(u32, String)]) -> Vec<(u32, &str)> {
    fields.iter().map(|(tag, text)| (*tag, text.as_str())).collect()
}

fn cancel(order_id: u64) -> OrderRequest {
    OrderRequest::Cancel { order_id, stated: OrderCancel::default() }
}

fn modify(order_id: u64, price: i64) -> OrderRequest {
    OrderRequest::Modify {
        order_id,
        price,
        qty: 100 * QTY_SCALE,
        outside_rth: false,
        ord_type: 0,
        tif: 0,
        stop_price: 0,
        spec: None,
    }
}

/// What a drain came to: the messages, and what was said.
struct Drained {
    messages: Vec<Vec<(u32, String)>>,
    notices: Vec<Notice>,
    settled: Vec<Settled>,
}

/// Work through what waits. The writes named by their place fail, and once one
/// has, nothing else leaves.
fn drained(context: &mut Context, known: &Known, left: usize, recovering: bool, fails: &[usize]) -> Drained {
    let mut out = Drained { messages: Vec::new(), notices: Vec::new(), settled: Vec::new() };
    let Some(mut drain) = begin_drain(context, false, true, left) else {
        return out;
    };
    let mut failed = false;
    loop {
        match drain_and_send_orders(
            &mut drain, context, known, &mut out.notices, "DU1", failed, recovering, NOW, 5,
        ) {
            DrainStep::Finished => break,
            DrainStep::HeldBack | DrainStep::Taken => {}
            DrainStep::Send { message, flight } => {
                failed = failed || fails.contains(&out.messages.len());
                out.messages.push(message);
                out.settled.push(settle(
                    &mut drain, context, known, &mut out.notices, flight, !failed, 5,
                ));
            }
        }
    }
    finish_drain(drain, context);
    out
}

fn all(context: &mut Context) -> Drained {
    drained(context, &Known::new(), usize::MAX, false, &[])
}

#[test]
fn a_withdrawal_names_the_order_its_quantity_and_its_contract() {
    let mut context = session();
    working(&mut context, 7);
    let said = OrderCancel {
        ext_operator: "op".to_string(),
        manual_order_indicator: 1,
        manual_order_cancel_time: "not written".to_string(),
    };
    let first = send_cancel(&mut context, &Known::new(), "DU1", 7, &said, NOW);
    assert_eq!(
        pairs(&first),
        vec![
            (35, "F"),
            (52, NOW),
            (11, "C7"),
            (41, "7.0"),
            (1, "DU1"),
            (6088, "Socket"),
            (38, "100"),
            (54, "1"),
            (6008, "17"),
            (8089, "op"),
            (1028, "Y"),
        ],
    );
    let second = send_cancel(&mut context, &Known::new(), "DU1", 7, &OrderCancel::default(), NOW);
    assert_eq!(find(&second, 11).as_deref(), Some("C7.1"), "a withdrawal has a name of its own");
    assert_eq!(find(&second, 8089), None);
    let third = send_cancel(&mut context, &Known::new(), "DU1", 7, &OrderCancel::default(), NOW);
    assert_eq!(find(&third, 11).as_deref(), Some("C7.2"));
}

#[test]
fn a_withdrawal_of_an_order_nothing_here_holds_states_no_guess() {
    let mut context = session();
    let mut known = Known::new();
    known.orders.insert(
        8,
        OrderInfo { account: "DU9".to_string(), perm_id: 0, parent_id: 0, avg_price: 0 },
    );
    context.last_clord.insert(8, "8".to_string());
    let message = send_cancel(&mut context, &known, "DU1", 8, &OrderCancel::default(), NOW);
    assert_eq!(
        pairs(&message),
        vec![(35, "F"), (52, NOW), (11, "C8"), (41, "8"), (1, "DU9"), (6088, "Socket")],
    );
}

#[test]
fn an_account_is_the_one_the_order_names() {
    let named = OrderAttrs { account: "DU2".to_string(), ..OrderAttrs::default() };
    assert_eq!(account_for(&named, "DU1"), "DU2");
    assert_eq!(account_for(&OrderAttrs::default(), "DU1"), "DU1");
}

#[test]
fn a_withdrawal_that_left_is_said_to_be_pending() {
    let mut context = session();
    working(&mut context, 7);
    context.pending_orders.push(cancel(7));
    let out = all(&mut context);
    assert_eq!(out.settled, vec![Settled::Went]);
    assert_eq!(context.order(7).unwrap().status, OrderStatus::PendingCancel);
    assert_eq!(
        out.notices,
        vec![
            Notice::Update(OrderUpdate {
                order_id: 7,
                instrument: 0,
                status: OrderStatus::PendingCancel,
                filled_qty: 0,
                remaining_qty: 100 * QTY_SCALE,
                avg_price: 0,
                perm_id: 0,
                parent_id: 0,
                timestamp_ns: 5,
            }),
            Notice::WentOut(7),
        ],
    );
}

#[test]
fn what_is_left_of_an_order_is_never_less_than_nothing() {
    let mut context = session();
    let mut order = Order::new(7, 0, Side::Buy, 0, 0, b'2', b'1', 0);
    order.status = OrderStatus::PartiallyFilled;
    order.filled = 3 * QTY_SCALE;
    context.insert_order(order);
    let mut notices = Vec::new();
    synthesize_pending_cancel(&mut context, &mut notices, 7, 1);
    let [Notice::Update(update)] = &notices[..] else { panic!("one update: {notices:?}") };
    assert_eq!((update.filled_qty, update.remaining_qty), (3 * QTY_SCALE, 0));
    synthesize_pending_cancel(&mut context, &mut notices, 7, 1);
    assert_eq!(notices.len(), 1, "it is pending already");
    synthesize_pending_cancel(&mut context, &mut notices, 99, 1);
    assert_eq!(notices.len(), 1, "nothing is held about that one");
}

#[test]
fn a_replacement_is_named_after_the_revision_it_replaces() {
    let mut context = session();
    working(&mut context, 7);
    context.pending_orders.push(modify(7, dollars(11)));
    context.pending_orders.push(modify(7, dollars(12)));
    let out = all(&mut context);
    let names: Vec<_> = out
        .messages
        .iter()
        .map(|m| (find(m, 11).unwrap(), find(m, 41).unwrap(), find(m, 44).unwrap()))
        .collect();
    let text = |a: &str, b: &str, c: &str| (a.to_string(), b.to_string(), c.to_string());
    assert_eq!(names, vec![text("7.1", "7.0", "11"), text("7.2", "7.1", "12")]);
    assert_eq!(name_at_the_venue(&context, 7), "7.2");
    assert_eq!(context.pre_replace.get(&(7, 1)).unwrap().order.price, dollars(10));
    assert_eq!(context.pre_replace.get(&(7, 2)).unwrap().order.price, dollars(11));
    assert_eq!(context.order(7).unwrap().status, OrderStatus::PendingReplace);
}

#[test]
fn a_replacement_states_the_whole_order_and_each_tag_once() {
    let mut context = session();
    working(&mut context, 7);
    context.pending_orders.push(modify(7, dollars(11)));
    let out = all(&mut context);
    assert_eq!(
        pairs(&out.messages[0]),
        vec![
            (35, "G"),
            (52, NOW),
            (11, "7.1"),
            (41, "7.0"),
            (44, "11"),
            (1, "DU1"),
            (6122, "c"),
            (100, "SMART"),
            (6210, "SMART"),
            (38, "100"),
            (54, "1"),
            (40, "2"),
            (55, "ABC"),
            (167, "STK"),
            (6035, "ABC"),
            (59, "1"),
            (6008, "17"),
            (6088, "Socket"),
            (6211, ""),
        ],
    );
}

#[test]
fn an_unstated_life_is_left_as_the_venue_holds_it() {
    let mut context = session();
    working(&mut context, 7);
    let mut order = context.order(7).unwrap();
    order.tif = TIF_UNSTATED;
    context.insert_order(order);
    context.pending_orders.push(modify(7, dollars(11)));
    let out = all(&mut context);
    assert_eq!(find(&out.messages[0], 59), None);
}

#[test]
fn a_stated_order_is_replaced_into_what_it_states() {
    let mut context = session();
    working(&mut context, 7);
    context.pending_orders.push(OrderRequest::Modify {
        order_id: 7,
        price: 0,
        qty: 50 * QTY_SCALE,
        outside_rth: true,
        ord_type: 0,
        tif: b'0',
        stop_price: 0,
        spec: Some(Box::new(OrderSpec {
            kind: OrderKind::PegMid { offset: dollars(1), price_cap: 0 },
            attrs: OrderAttrs { order_ref: "mine".to_string(), ..OrderAttrs::default() },
        })),
    });
    let message = all(&mut context).messages.remove(0);
    assert_eq!(find(&message, 40).as_deref(), Some("P"));
    assert_eq!(find(&message, 18).as_deref(), Some("M"));
    assert_eq!(find(&message, 211).as_deref(), Some("1"));
    assert_eq!(find(&message, 6010).as_deref(), Some("mine"));
    assert_eq!(find(&message, 6433).as_deref(), Some("1"));
    assert_eq!(find(&message, 44), None, "a limit no longer");
    assert_eq!(message.iter().filter(|(tag, _)| *tag == 40).count(), 1);
    assert_eq!(
        context.record(7).unwrap().kind,
        OrderKind::PegMid { offset: dollars(1), price_cap: 0 },
    );
}

#[test]
fn an_order_nobody_here_holds_is_not_replaced() {
    let mut context = session();
    context.pending_orders.push(modify(9, dollars(11)));
    let out = all(&mut context);
    assert!(out.messages.is_empty());
    assert_eq!(
        out.notices,
        vec![
            Notice::Inactive {
                order_id: 9,
                op: OrderOp::Modify,
                code: 135,
                text: "no order 9 is tracked here, so it cannot be replaced".to_string(),
            },
            Notice::CancelReject(CancelReject {
                order_id: 9,
                instrument: 0,
                reject_type: 2,
                reason_code: -1,
                still_working: None,
                answers_a_live_change: true,
                timestamp_ns: 5,
            }),
        ],
    );
}

#[test]
fn a_trail_nobody_here_placed_is_not_replaced() {
    let mut context = session();
    context.insert_order(Order::new(9, 0, Side::Buy, QTY_SCALE, 0, b'P', b'1', 0));
    context.pending_orders.push(modify(9, 0));
    let out = all(&mut context);
    assert!(out.messages.is_empty());
    let Notice::Inactive { code, text, .. } = &out.notices[0] else { panic!("a refusal") };
    assert_eq!(*code, 135);
    assert_eq!(
        text,
        "order 9 was not placed by this session, so the offset that defines it cannot be \
         restated; withdraw it and place a new order",
    );
}

#[test]
fn an_order_whose_names_ran_out_is_not_replaced() {
    let mut context = session();
    working(&mut context, 7);
    context.modify_versions.insert(7, u32::MAX);
    context.pending_orders.push(modify(7, dollars(11)));
    let before = context.order(7);
    let out = all(&mut context);
    assert!(out.messages.is_empty());
    let Notice::Inactive { code, text, .. } = &out.notices[0] else { panic!("a refusal") };
    assert_eq!(*code, 399);
    assert_eq!(
        text,
        "order 7 has been replaced as many times as it can be named; withdraw it and place a new \
         order",
    );
    assert_eq!(context.order(7), before, "it stands as the venue holds it");

    context.pending_orders.push(OrderRequest::Modify {
        order_id: 7,
        price: dollars(12),
        qty: 100 * QTY_SCALE,
        outside_rth: false,
        ord_type: 0,
        tif: 0,
        stop_price: 0,
        spec: Some(Box::new(OrderSpec {
            kind: OrderKind::Limit { price: dollars(12) },
            attrs: OrderAttrs::default(),
        })),
    });
    assert!(all(&mut context).messages.is_empty());
    assert_eq!(context.order(7), before);
    assert_eq!(
        context.record(7).unwrap().kind,
        OrderKind::Limit { price: dollars(10) },
        "and so does its record",
    );
}

#[test]
fn a_replacement_that_did_not_leave_has_no_record_to_put_back() {
    let mut context = session();
    let mut order = Order::new(7, 0, Side::Buy, 100 * QTY_SCALE, dollars(10), b'2', b'1', 0);
    order.status = OrderStatus::Submitted;
    context.insert_order(order);
    context.pending_orders.push(modify(7, dollars(11)));
    drained(&mut context, &Known::new(), usize::MAX, false, &[0]);
    assert_eq!(context.order(7).unwrap().price, dollars(10));
    assert!(context.record(7).is_none());
    assert!(context.pre_replace.get(&(7, 1)).is_none());
}

#[test]
fn a_replacement_that_did_not_leave_puts_the_order_back() {
    let mut context = session();
    working(&mut context, 7);
    let before = context.order(7).unwrap();
    context.pending_orders.push(modify(7, dollars(11)));
    context.pending_orders.push(cancel(7));
    let out = drained(&mut context, &Known::new(), usize::MAX, false, &[0]);
    assert_eq!(out.settled, vec![Settled::InDoubt]);
    let mut doubtful = before;
    doubtful.status = OrderStatus::Uncertain;
    assert_eq!(context.order(7), Some(doubtful));
    assert!(context.pre_replace.get(&(7, 1)).is_none());
    assert_eq!(context.record(7).unwrap().kind, OrderKind::Limit { price: dollars(10) });
    assert_eq!(context.pending_orders, vec![cancel(7)], "what never left waits again");
}

#[test]
fn a_failed_withdrawal_keeps_the_fallback_of_a_replacement() {
    let mut context = session();
    working(&mut context, 7);
    context.pending_orders.push(modify(7, dollars(11)));
    all(&mut context);
    context.pending_orders.push(cancel(7));
    drained(&mut context, &Known::new(), usize::MAX, false, &[0]);
    assert!(context.pre_replace.get(&(7, 1)).is_some());
    assert_eq!(context.order(7).unwrap().price, dollars(11));
    assert_eq!(context.order(7).unwrap().status, OrderStatus::Uncertain);
}

#[test]
fn a_withdrawal_waits_only_where_its_order_is_in_doubt() {
    let mut context = session();
    working(&mut context, 7);
    working(&mut context, 8);
    context.set_order_status_forced(7, OrderStatus::Uncertain);
    for request in [cancel(7), cancel(8)] {
        context.pending_orders.push(request);
    }
    context.pending_orders.push(OrderRequest::CancelAll {
        instrument: 0,
        stated: OrderCancel::default(),
    });
    let out = drained(&mut context, &Known::new(), usize::MAX, true, &[]);
    assert_eq!(out.messages.len(), 1);
    assert_eq!(find(&out.messages[0], 11).as_deref(), Some("C8"));
    assert_eq!(context.pending_orders.len(), 2);
}

#[test]
fn a_lap_takes_no_more_than_it_may() {
    let mut context = session();
    working(&mut context, 7);
    working(&mut context, 8);
    for request in [cancel(7), cancel(8)] {
        context.pending_orders.push(request);
    }
    assert!(begin_drain(&mut context, true, true, 9).is_none(), "the session is down");
    assert!(begin_drain(&mut context, false, false, 9).is_none(), "there is nowhere to send");
    assert!(begin_drain(&mut context, false, true, 0).is_none(), "the lap is spent");
    assert_eq!(context.pending_orders.len(), 2);
    let out = drained(&mut context, &Known::new(), 1, false, &[]);
    assert_eq!(out.messages.len(), 1);
    assert_eq!(context.pending_orders, vec![cancel(8)]);
}

#[test]
fn the_first_failed_withdrawal_of_several_ends_them() {
    let mut context = session();
    for id in [7, 8, 9] {
        working(&mut context, id);
    }
    context.set_order_status_forced(9, OrderStatus::Filled);
    working(&mut context, 10);
    context.pending_orders.push(OrderRequest::GlobalCancel {
        instruments: vec![0, 5],
        stated: OrderCancel::default(),
    });
    let out = drained(&mut context, &Known::new(), usize::MAX, false, &[1]);
    assert_eq!(out.messages.len(), 2);
    let status = |id| context.order(id).unwrap().status;
    assert_eq!(status(7), OrderStatus::PendingCancel);
    assert_eq!(status(8), OrderStatus::Uncertain);
    assert_eq!(status(9), OrderStatus::Filled, "it cannot trade any more");
    assert_eq!(status(10), OrderStatus::Uncertain);
    assert_eq!(context.slots_to_reconsider, vec![0, 5]);
}

fn bracket() -> OrderRequest {
    OrderRequest::SubmitBracket {
        con_id: 17,
        parent_id: 20,
        tp_id: 21,
        sl_id: 22,
        instrument: 0,
        side: Side::ShortSell,
        qty: 10 * QTY_SCALE,
        entry_price: dollars(100),
        take_profit: dollars(90),
        stop_loss: dollars(110),
    }
}

#[test]
fn a_bracket_goes_out_as_three_linked_orders() {
    let mut context = session();
    context.pending_orders.push(bracket());
    let out = all(&mut context);
    assert_eq!(out.settled, vec![Settled::Underway, Settled::Underway, Settled::Went]);
    assert_eq!(
        pairs(&out.messages[0]),
        vec![
            (35, "D"),
            (52, NOW),
            (11, "20.0"),
            (1, "DU1"),
            (55, "ABC"),
            (54, "5"),
            (38, "10"),
            (40, "2"),
            (44, "100"),
            (59, "0"),
            (60, NOW),
            (167, "STK"),
            (100, "SMART"),
            (6210, "SMART"),
            (15, "USD"),
            (204, "0"),
            (6122, "c"),
            (6008, "17"),
        ],
    );
    assert_eq!(
        pairs(&out.messages[2]),
        vec![
            (35, "D"),
            (52, NOW),
            (11, "22.0"),
            (1, "DU1"),
            (55, "ABC"),
            (54, "1"),
            (38, "10"),
            (40, "3"),
            (99, "110"),
            (59, "1"),
            (60, NOW),
            (167, "STK"),
            (100, "SMART"),
            (6210, "SMART"),
            (15, "USD"),
            (204, "0"),
            (6122, "c"),
            (6107, "20.0"),
            (583, "OCA_20"),
            (6209, "ReduceOnFillNonBlock"),
            (6008, "17"),
        ],
    );
    assert_eq!(find(&out.messages[1], 44).as_deref(), Some("90"));
    for id in [20, 21, 22] {
        assert!(out.notices.contains(&Notice::WentOut(id)));
        assert_eq!(context.order_destination.get(&id).unwrap().0, "STK");
    }
    let stop = context.record(22).unwrap();
    assert_eq!(stop.kind, OrderKind::Stop { stop_price: dollars(110) });
    assert_eq!(
        (stop.attrs.parent_id, stop.attrs.oca_group_str.as_str(), stop.attrs.oca_type),
        (20, "OCA_20", 3),
    );
    assert_eq!(context.record(20).unwrap().attrs.parent_id, 0);
}

#[test]
fn a_bracket_that_did_not_all_leave_is_in_doubt_whole() {
    let mut context = session();
    context.pending_orders.push(bracket());
    let out = drained(&mut context, &Known::new(), usize::MAX, false, &[1]);
    assert_eq!(out.messages.len(), 3);
    assert_eq!(out.settled.last(), Some(&Settled::InDoubt));
    for id in [20, 21, 22] {
        assert_eq!(context.order(id).unwrap().status, OrderStatus::Uncertain);
        assert!(!out.notices.contains(&Notice::WentOut(id)));
    }
}

#[test]
fn a_bracket_on_a_slot_that_moved_is_refused_leg_by_leg() {
    let mut context = session();
    context.slots[0].con_id = Some(18);
    context.pending_orders.push(bracket());
    let out = all(&mut context);
    assert!(out.messages.is_empty());
    let refused: Vec<u64> = out
        .notices
        .iter()
        .map(|notice| match notice {
            Notice::Inactive { order_id, op: OrderOp::Place, code: 135, .. } => *order_id,
            other => panic!("{other:?}"),
        })
        .collect();
    assert_eq!(refused, vec![20, 21, 22]);
}

#[test]
fn what_is_left_is_refused_by_what_it_asked() {
    let mut context = session();
    working(&mut context, 7);
    context.pending_orders.push(cancel(7));
    context.pending_orders.push(modify(7, dollars(11)));
    context.pending_orders.push(bracket());
    for _ in 0..2 {
        context.pending_orders.push(OrderRequest::CancelAll {
            instrument: 0,
            stated: OrderCancel::default(),
        });
    }
    let mut notices = Vec::new();
    refuse_what_is_left(&mut context, &mut notices, "the session stopped");
    let never = |order_id| Notice::Inactive {
        order_id,
        op: OrderOp::Place,
        code: 504,
        text: "the session stopped before this order reached the venue, so it was never placed"
            .to_string(),
    };
    assert_eq!(
        notices,
        vec![
            Notice::Inactive {
                order_id: 7,
                op: OrderOp::Cancel,
                code: 504,
                text: "the session stopped before this order's cancellation reached the venue, so \
                       the order stands as it was"
                    .to_string(),
            },
            Notice::Inactive {
                order_id: 7,
                op: OrderOp::Modify,
                code: 504,
                text: "the session stopped before this order's change reached the venue, so the \
                       order stands as it was"
                    .to_string(),
            },
            never(20),
            never(21),
            never(22),
            Notice::Session {
                code: 504,
                text: "the session stopped before the withdrawal of every order reached the \
                       venue, so whatever the account was working still is"
                    .to_string(),
            },
        ],
    );
    assert!(context.pending_orders.is_empty());
    refuse_what_is_left(&mut context, &mut notices, "it stopped again");
    assert_eq!(notices.len(), 6);
}

#[test]
fn doubt_is_announced_of_an_order_that_is_held() {
    let mut context = session();
    working(&mut context, 7);
    let mut notices = Vec::new();
    report_uncertain(&mut context, &Known::new(), &mut notices, 0, 1);
    report_uncertain(&mut context, &Known::new(), &mut notices, 99, 1);
    assert!(notices.is_empty());
    report_uncertain(&mut context, &Known::new(), &mut notices, 7, 1);
    let [Notice::Update(update)] = &notices[..] else { panic!("one update") };
    assert_eq!((update.order_id, update.instrument), (7, 0));
    assert_eq!(update.status, OrderStatus::Uncertain);
    the_change_did_not_go(&mut notices, 7, 3, Some(OrderStatus::Submitted), 9);
    let Notice::CancelReject(reject) = notices[1] else { panic!("a refusal") };
    assert_eq!((reject.reject_type, reject.reason_code, reject.instrument), (2, -1, 3));
    assert_eq!(reject.still_working, Some(OrderStatus::Submitted));
}

fn terms(ord_type: u8, stop: i64, named: Named) -> (u8, u8, i64, i64) {
    let orig = Order::new(7, 0, Side::Buy, QTY_SCALE, dollars(10), ord_type, b'1', stop);
    let settled = settle_terms(&orig, &named, None);
    (settled.ord_type, settled.tif, settled.record_price, settled.stop)
}

#[test]
fn a_trigger_belongs_to_the_type_that_carries_one() {
    let named = |ord_type, price, stop_price| Named {
        price,
        qty: QTY_SCALE,
        outside_rth: false,
        ord_type,
        tif: 0,
        stop_price,
    };
    assert_eq!(terms(b'3', 5, named(0, 8, 0)).3, 8, "the price of a stop is its trigger");
    assert_eq!(terms(b'3', 5, named(0, 8, 9)).3, 9);
    assert_eq!(terms(b'4', 5, named(0, 8, 0)).3, 5, "the resting trigger stays");
    assert_eq!(terms(b'4', 5, named(0, 8, 9)).3, 9);
    assert_eq!(terms(b'4', 5, named(b'2', 8, 9)).3, 0, "a limit order has none");
    assert_eq!(terms(b'2', 0, named(ORD_LIT, 8, 9)).3, 9);
    assert_eq!(terms(b'2', 0, named(0, 8, 9)).3, 0, "a trigger makes no trigger of a limit");
    assert_eq!(terms(b'P', 5, named(0, 0, 6)).3, 6, "an offset is moved");
    assert_eq!(terms(b'2', 0, named(0, 8, 0)), (b'2', b'1', 8, 0));
}

#[test]
fn a_statement_is_merged_onto_the_resting_order() {
    let mut resting = OrderSpec {
        kind: OrderKind::Limit { price: 1 },
        attrs: OrderAttrs {
            oca_group: 4,
            oca_group_str: "g".to_string(),
            oca_type: 2,
            parent_id: 3,
            outside_rth: true,
            allow_pre_open: true,
            order_ref: "kept".to_string(),
            algo_id: "gone".to_string(),
            mifid2_execution_algo: "held".to_string(),
            hidden: true,
            ..OrderAttrs::default()
        },
    };
    let stated = OrderSpec {
        kind: OrderKind::Market,
        attrs: OrderAttrs {
            oca_group: 9,
            parent_id: 9,
            algo_id: "new".to_string(),
            ..OrderAttrs::default()
        },
    };
    merge_statement(&mut resting, stated);
    let attrs = &resting.attrs;
    assert_eq!(resting.kind, OrderKind::Market);
    assert_eq!((attrs.oca_group, attrs.oca_type, attrs.parent_id), (4, 2, 3));
    assert_eq!(attrs.oca_group_str, "g");
    assert!(attrs.outside_rth && attrs.allow_pre_open);
    assert_eq!((attrs.order_ref.as_str(), attrs.algo_id.as_str()), ("kept", "new"));
    assert_eq!(attrs.mifid2_execution_algo, "held");
    assert!(!attrs.hidden, "a flag left off is stated as off");
}
