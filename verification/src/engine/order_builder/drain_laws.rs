//! What becomes of an instruction once it is taken.

use crate::engine::context::{open_ids, open_on, Context};
use crate::engine::known::{Known, Said};
use crate::engine::order_builder::bracket::{BracketOrder, Leg};
use crate::engine::order_builder::bracket_laws::{
    a_leg_is_stated_as_asked, a_leg_is_tracked_as_asked, opposite,
};
use crate::engine::order_builder::cancel_laws::a_withdrawal_is_stated_as_asked;
use crate::engine::order_builder::drain::{
    drain_step, flight_settled, open_on_any, rest_continued, Drain, DrainStep, Flight, Rest,
    Settled,
};
use crate::engine::order_builder::fields::stated;
use crate::engine::order_builder::replace::{statement_of, Named};
use crate::engine::order_builder::replace_laws::{
    a_replaced_order_is_tracked_as_asked, a_replacement_goes_or_is_refused,
    a_replacement_is_stated_as_asked,
};
use crate::engine::order_builder::submit_laws::{
    a_new_order_is_stated_as_asked, a_new_order_is_tracked_as_asked, letter, lists_no_term,
    side_text, tracked_terms,
};
use crate::engine::order_builder::wire::says;
use crate::text::{digits, price_text, qty_text};
use crate::types::orders::{InstrumentId, OrderRequest};
use vstd::prelude::*;

verus! {

/// Whether a step takes the instruction first in line: one is in line, no other
/// is under way, the lap has room, and the transport works.
pub open spec fn takes_the_first(drain: Drain, write_failed: bool, recovery_pending: bool) -> bool {
    drain.rest is None && drain.waiting@.len() > 0 && drain.left > 0 && !write_failed
        && !recovery_pending
}

/// Whether a slot may hold the contract an order names.
pub open spec fn slot_agrees(context: Context, instrument: InstrumentId, con_id: i64) -> bool {
    ||| con_id == 0
    ||| (instrument as int) >= context.slots@.len()
    ||| context.slots@[instrument as int].con_id is None
    ||| context.slots@[instrument as int].con_id == Some(con_id)
}

/// A new order on a slot that holds its contract is sent, as it was asked for,
/// and tracked as it was sent. One on a slot that holds another contract is
/// not sent.
#[verifier::spinoff_prover]
pub proof fn a_new_order_is_sent(
    drain: Drain,
    drain_after: Drain,
    before: Context,
    after: Context,
    known: Known,
    session: Seq<char>,
    said_before: Seq<Said>,
    said_after: Seq<Said>,
    step: DrainStep,
    now: Seq<char>,
    now_ns: u64,
)
    requires
        drain_step(
            drain,
            drain_after,
            before,
            after,
            known,
            session,
            said_before,
            said_after,
            false,
            false,
            step,
            now,
            now_ns,
        ),
        takes_the_first(drain, false, false),
        drain.waiting@[0] is SubmitEx,
    ensures
        drain.waiting@[0] matches OrderRequest::SubmitEx {
            order_id,
            instrument,
            con_id,
            side,
            qty,
            kind,
            tif,
            ..
        } && {
            &&& slot_agrees(before, instrument, con_id) <==> step is Send
            &&& (instrument as int) < before.slots@.len() && tif < 128 && lists_no_term(kind) ==> (
            step matches DrainStep::Send { message, flight } ==> {
                let m = stated(message@);
                let slot = before.slots@[instrument as int];
                &&& flight == (Flight::Order { order_id, prior: None })
                &&& says(m, 35, seq!['D'])
                &&& says(
                    m,
                    11,
                    digits(order_id as nat) + "."@ + digits(before.version(order_id) as nat),
                )
                &&& says(m, 55, slot.symbol@)
                &&& says(m, 54, side_text(side))
                &&& says(m, 38, qty_text(qty as int))
                &&& says(m, 59, letter(tif))
                &&& says(m, 100, slot.destination@)
            })
            &&& (instrument as int) < before.slots@.len() && step is Send ==> (after.held(
                order_id,
            ) matches Some(order) && order.side == side && order.qty == qty && order.instrument
                == instrument && order.tif == tif && order.order_id == order_id && tracked_terms(
                kind,
                order.ord_type,
                order.price,
                order.stop_price,
            ))
            &&& !(step is Send) ==> step is Taken && said_after.len() > said_before.len()
        },
        drain_after.waiting@ == drain.waiting@.skip(1),
        drain_after.unsent@ == drain.unsent@,
{
    assert(drain.waiting@.drop_first() =~= drain.waiting@.skip(1));
    match drain.waiting@[0] {
        OrderRequest::SubmitEx { order_id, instrument, con_id, side, qty, kind, tif, attrs } => {
            if (instrument as int) < before.slots@.len() && step is Send {
                if tif < 128 && lists_no_term(kind) {
                    a_new_order_is_stated_as_asked(
                        before,
                        known,
                        session,
                        order_id,
                        instrument,
                        side,
                        qty,
                        kind,
                        tif,
                        attrs,
                        now,
                    );
                }
                let other: u64 = if order_id == 0 {
                    1
                } else {
                    0
                };
                a_new_order_is_tracked_as_asked(
                    before,
                    after,
                    order_id,
                    instrument,
                    side,
                    qty,
                    kind,
                    tif,
                    attrs,
                    other,
                );
            }
        },
        _ => {},
    }
}

/// The entry of a bracket on a slot that holds its contract is sent first, as
/// it was asked for, and tracked as it was sent.
#[verifier::spinoff_prover]
pub proof fn an_entry_is_sent_first(
    drain: Drain,
    drain_after: Drain,
    before: Context,
    after: Context,
    known: Known,
    session: Seq<char>,
    said_before: Seq<Said>,
    said_after: Seq<Said>,
    step: DrainStep,
    now: Seq<char>,
    now_ns: u64,
)
    requires
        drain_step(
            drain,
            drain_after,
            before,
            after,
            known,
            session,
            said_before,
            said_after,
            false,
            false,
            step,
            now,
            now_ns,
        ),
        takes_the_first(drain, false, false),
        drain.waiting@[0] is SubmitBracket,
    ensures
        drain.waiting@[0] matches OrderRequest::SubmitBracket {
            con_id,
            parent_id,
            tp_id,
            sl_id,
            instrument,
            side,
            qty,
            entry_price,
            take_profit,
            stop_loss,
        } && {
            &&& slot_agrees(before, instrument, con_id) <==> step is Send
            &&& step matches DrainStep::Send { message, flight } ==> {
                let m = stated(message@);
                &&& flight == (Flight::Bracket {
                    bracket: BracketOrder {
                        parent_id,
                        tp_id,
                        sl_id,
                        instrument,
                        side,
                        qty,
                        entry_price,
                        take_profit,
                        stop_loss,
                    },
                    leg: Leg::Entry,
                    ok: true,
                })
                &&& (instrument as int) < before.slots@.len() ==> {
                    &&& says(m, 11, digits(parent_id as nat) + "."@ + digits(0))
                    &&& says(m, 54, side_text(side))
                    &&& says(m, 38, qty_text(qty as int))
                    &&& says(m, 44, price_text(entry_price as int))
                }
            }
            &&& step is Send ==> after.held(parent_id) is Some && after.held(parent_id)->0.side
                == side && after.held(parent_id)->0.qty == qty && after.held(parent_id)->0.price
                == entry_price
        },
{
    match drain.waiting@[0] {
        OrderRequest::SubmitBracket {
            con_id,
            parent_id,
            tp_id,
            sl_id,
            instrument,
            side,
            qty,
            entry_price,
            take_profit,
            stop_loss,
        } => {
            let bracket = BracketOrder {
                parent_id,
                tp_id,
                sl_id,
                instrument,
                side,
                qty,
                entry_price,
                take_profit,
                stop_loss,
            };
            if step is Send {
                if (instrument as int) < before.slots@.len() {
                    a_leg_is_stated_as_asked(before, known, session, bracket, Leg::Entry, now);
                }
                let other: u64 = if parent_id == 0 {
                    1
                } else {
                    0
                };
                a_leg_is_tracked_as_asked(before, after, bracket, Leg::Entry, parent_id, other);
            }
        },
        _ => {},
    }
}

/// A bracket's legs follow one another whatever became of the one before: the
/// exit at a profit behind the entry, the exit at a loss behind that, and
/// nothing behind it. Each exit closes what the entry opened.
pub proof fn the_legs_follow_one_another(
    before: Context,
    after: Context,
    known: Known,
    said_before: Seq<Said>,
    said_after: Seq<Said>,
    bracket: BracketOrder,
    leg: Leg,
    ok: bool,
    rest: Option<Rest>,
    sent: bool,
    settled: Settled,
    now_ns: u64,
)
    requires
        flight_settled(
            before,
            after,
            known,
            said_before,
            said_after,
            Flight::Bracket { bracket, leg, ok },
            rest,
            sent,
            settled,
            now_ns,
        ),
    ensures
        leg is Entry ==> rest == Some(Rest::Leg { bracket, leg: Leg::TakeProfit, ok: ok && sent }),
        leg is TakeProfit ==> rest == Some(
            Rest::Leg { bracket, leg: Leg::StopLoss, ok: ok && sent },
        ),
        leg is StopLoss ==> rest is None,
        !(leg is StopLoss) ==> settled is Underway && said_after == said_before && after == before,
        leg is StopLoss && ok && sent ==> {
            &&& settled is Went
            &&& said_after.len() == said_before.len() + 3
            &&& said_after[said_before.len() as int] == Said::WentOut(bracket.parent_id)
            &&& said_after[said_before.len() as int + 1] == Said::WentOut(bracket.tp_id)
            &&& said_after[said_before.len() as int + 2] == Said::WentOut(bracket.sl_id)
            &&& after.orders@ == before.orders@
        },
        leg is StopLoss && !(ok && sent) ==> settled is InDoubt,
{
    reveal_with_fuel(crate::engine::order_builder::drain::all_went_out, 4);
    let ids = seq![bracket.parent_id, bracket.tp_id, bracket.sl_id];
    assert(ids.drop_last() =~= seq![bracket.parent_id, bracket.tp_id]);
    assert(ids.drop_last().drop_last() =~= seq![bracket.parent_id]);
    assert(ids.drop_last().drop_last().drop_last() =~= Seq::empty());
}

/// An exit that follows is sent on the side opposite the entry's, and tracked
/// there.
#[verifier::spinoff_prover]
pub proof fn an_exit_is_sent_on_the_other_side(
    before: Context,
    after: Context,
    known: Known,
    session: Seq<char>,
    bracket: BracketOrder,
    leg: Leg,
    ok: bool,
    step: DrainStep,
    now: Seq<char>,
)
    requires
        rest_continued(
            before,
            after,
            known,
            session,
            Rest::Leg { bracket, leg, ok },
            step,
            now,
        ),
        !(leg is Entry),
    ensures
        step matches DrainStep::Send { message, flight } && {
            let m = stated(message@);
            let id = if leg is TakeProfit {
                bracket.tp_id
            } else {
                bracket.sl_id
            };
            &&& flight == (Flight::Bracket { bracket, leg, ok })
            &&& after.held(id) is Some
            &&& opposite(bracket.side, after.held(id)->0.side)
            &&& after.held(id)->0.side != bracket.side
            &&& after.held(id)->0.qty == bracket.qty
            &&& (bracket.instrument as int) < before.slots@.len() ==> {
                &&& says(m, 54, side_text(after.held(id)->0.side))
                &&& bracket.side is Buy ==> says(m, 54, seq!['2'])
                &&& !(bracket.side is Buy) ==> says(m, 54, seq!['1'])
                &&& says(m, 38, qty_text(bracket.qty as int))
            }
        },
{
    let id = if leg is TakeProfit {
        bracket.tp_id
    } else {
        bracket.sl_id
    };
    let other: u64 = if id == 0 {
        1
    } else {
        0
    };
    a_leg_is_tracked_as_asked(before, after, bracket, leg, id, other);
    if (bracket.instrument as int) < before.slots@.len() {
        a_leg_is_stated_as_asked(before, known, session, bracket, leg, now);
    }
}

/// A replacement that is taken states what the request names, and the order is
/// tracked with it.
#[verifier::spinoff_prover]
pub proof fn a_replacement_is_sent_as_asked(
    drain: Drain,
    drain_after: Drain,
    before: Context,
    after: Context,
    known: Known,
    session: Seq<char>,
    said_before: Seq<Said>,
    said_after: Seq<Said>,
    step: DrainStep,
    now: Seq<char>,
    now_ns: u64,
)
    requires
        drain_step(
            drain,
            drain_after,
            before,
            after,
            known,
            session,
            said_before,
            said_after,
            false,
            false,
            step,
            now,
            now_ns,
        ),
        takes_the_first(drain, false, false),
        drain.waiting@[0] is Modify,
    ensures
        drain.waiting@[0] matches OrderRequest::Modify {
            order_id,
            price,
            qty,
            outside_rth,
            tif,
            spec,
            ..
        } && {
            &&& before.held(order_id) is Some && before.version(order_id) < u32::MAX && (spec is Some
                || before.placed(order_id) is Some) ==> step is Send
            &&& step matches DrainStep::Send { message, flight } ==> {
                let m = stated(message@);
                &&& before.held(order_id) is Some
                &&& after.held(order_id) is Some
                &&& flight == (Flight::Order { order_id, prior: before.held(order_id) })
                &&& says(m, 35, seq!['G'])
                &&& says(m, 38, qty_text(qty as int))
                &&& says(m, 54, side_text(before.held(order_id)->0.side))
                &&& says(
                    m,
                    11,
                    digits(order_id as nat) + "."@ + digits((before.version(order_id) + 1) as nat),
                )
                &&& outside_rth ==> says(m, 6433, seq!['1'])
                &&& after.held(order_id)->0.qty == qty
                &&& after.held(order_id)->0.side == before.held(order_id)->0.side
                &&& spec is None ==> after.held(order_id)->0.price == price
                &&& tif != 0 ==> after.held(order_id)->0.tif == tif
                &&& tif == 0 ==> after.held(order_id)->0.tif == before.held(order_id)->0.tif
            }
            &&& !(step is Send) ==> step is Taken && after.orders@ == before.orders@
                && said_after.len() == said_before.len() + 2
        },
{
    match drain.waiting@[0] {
        OrderRequest::Modify {
            order_id,
            price,
            qty,
            outside_rth,
            ord_type,
            tif,
            stop_price,
            spec,
        } => {
            let named = Named { price, qty, outside_rth, ord_type, tif, stop_price };
            let message = match step {
                DrainStep::Send { message, .. } => Some(stated(message@)),
                _ => None,
            };
            a_replacement_goes_or_is_refused(
                before,
                after,
                known,
                session,
                said_before,
                said_after,
                order_id,
                named,
                statement_of(spec),
                message,
                now,
                now_ns,
            );
            if message is Some {
                a_replacement_is_stated_as_asked(
                    before,
                    after,
                    known,
                    session,
                    said_before,
                    said_after,
                    order_id,
                    named,
                    statement_of(spec),
                    message->0,
                    now,
                    now_ns,
                );
                let other: u64 = if order_id == 0 {
                    1
                } else {
                    0
                };
                a_replaced_order_is_tracked_as_asked(
                    before,
                    after,
                    known,
                    session,
                    said_before,
                    said_after,
                    order_id,
                    named,
                    statement_of(spec),
                    message->0,
                    now,
                    now_ns,
                    other,
                );
            }
        },
        _ => {},
    }
}

/// A withdrawal that is taken is sent for the order it names, and leaves the
/// order as it is tracked until it has gone.
#[verifier::spinoff_prover]
pub proof fn a_withdrawal_is_sent_as_asked(
    drain: Drain,
    drain_after: Drain,
    before: Context,
    after: Context,
    known: Known,
    session: Seq<char>,
    said_before: Seq<Said>,
    said_after: Seq<Said>,
    step: DrainStep,
    now: Seq<char>,
    now_ns: u64,
)
    requires
        drain_step(
            drain,
            drain_after,
            before,
            after,
            known,
            session,
            said_before,
            said_after,
            false,
            false,
            step,
            now,
            now_ns,
        ),
        takes_the_first(drain, false, false),
        drain.waiting@[0] is Cancel,
    ensures
        drain.waiting@[0] matches OrderRequest::Cancel { order_id, stated: withdrawal }
            && step matches DrainStep::Send { message, flight } && {
            let m = stated(message@);
            &&& flight == (Flight::Withdrawal { order_id })
            &&& says(m, 35, seq!['F'])
            &&& !before.last_clord@.dom().contains(order_id) ==> says(
                m,
                41,
                digits(order_id as nat) + "."@ + digits(before.version(order_id) as nat),
            )
            &&& before.last_clord@.dom().contains(order_id) ==> says(
                m,
                41,
                before.last_clord@[order_id]@,
            )
            &&& before.held(order_id) matches Some(order) ==> says(m, 54, side_text(order.side))
            &&& after.held(order_id) == before.held(order_id)
            &&& said_after == said_before
        },
{
    match drain.waiting@[0] {
        OrderRequest::Cancel { order_id, stated: withdrawal } => {
            a_withdrawal_is_stated_as_asked(before, known, session, order_id, withdrawal, now);
        },
        _ => {},
    }
}

proof fn an_open_order_is_listed(context: Context, instrument: InstrumentId, id: u64)
    ensures
        open_ids(context.orders.keys(), context.orders@, instrument).contains(id)
            <==> context.orders@.dom().contains(id) && context.orders@[id].instrument == instrument
            && !context.orders@[id].status.terminal(),
{
    context.orders.keys_have_values();
    let keys = context.orders.keys();
    let open = |one: u64| open_on(context.orders@[one], instrument);
    let list = keys.filter(open);
    if list.contains(id) {
        let i = choose|i: int| 0 <= i < list.len() && list[i] == id;
        keys.lemma_filter_pred(open, i);
        keys.lemma_filter_contains_rev(open, id);
        assert(open(id));
        assert(context.orders@.dom().contains(id));
    }
    if context.orders@.dom().contains(id) && open(id) {
        assert(keys.contains(id));
        let i = choose|i: int| 0 <= i < keys.len() && keys[i] == id;
        keys.lemma_filter_contains(open, i);
    }
}

/// Withdrawing every order on some contracts withdraws exactly the orders that
/// are tracked on one of them and may still trade.
pub proof fn every_open_order_is_withdrawn(
    context: Context,
    instruments: Seq<InstrumentId>,
    id: u64,
)
    ensures
        open_on_any(context, instruments).contains(id) <==> context.orders@.dom().contains(id)
            && instruments.contains(context.orders@[id].instrument)
            && !context.orders@[id].status.terminal(),
    decreases instruments.len(),
{
    if instruments.len() > 0 {
        let less = instruments.drop_last();
        let last = instruments.last();
        every_open_order_is_withdrawn(context, less, id);
        an_open_order_is_listed(context, last, id);
        let one = open_on_any(context, less);
        let two = open_ids(context.orders.keys(), context.orders@, last);
        let all = one + two;
        if one.contains(id) {
            let i = choose|i: int| 0 <= i < one.len() && one[i] == id;
            assert(all[i] == id);
        }
        if two.contains(id) {
            let i = choose|i: int| 0 <= i < two.len() && two[i] == id;
            assert(all[one.len() + i] == id);
        }
        if all.contains(id) {
            let i = choose|i: int| 0 <= i < all.len() && all[i] == id;
            if i < one.len() {
                assert(one[i] == id);
            } else {
                assert(two[i - one.len()] == id);
            }
        }
        let on = context.orders@[id].instrument;
        if less.contains(on) {
            let i = choose|i: int| 0 <= i < less.len() && less[i] == on;
            assert(instruments[i] == on);
        }
        if instruments.contains(on) {
            let i = choose|i: int| 0 <= i < instruments.len() && instruments[i] == on;
            if i < less.len() {
                assert(less[i] == on);
            }
        }
        assert(instruments[instruments.len() - 1] == last);
    }
}

/// Withdrawing every order on one contract, or on several, sets out to withdraw
/// each order tracked there that may still trade, and no other.
pub proof fn withdrawing_all_withdraws_the_open(
    drain: Drain,
    drain_after: Drain,
    before: Context,
    after: Context,
    known: Known,
    session: Seq<char>,
    said_before: Seq<Said>,
    said_after: Seq<Said>,
    step: DrainStep,
    now: Seq<char>,
    now_ns: u64,
    id: u64,
)
    requires
        drain_step(
            drain,
            drain_after,
            before,
            after,
            known,
            session,
            said_before,
            said_after,
            false,
            false,
            step,
            now,
            now_ns,
        ),
        takes_the_first(drain, false, false),
        drain.waiting@[0] is CancelAll || drain.waiting@[0] is GlobalCancel,
    ensures
        ({
            let on = |instrument: InstrumentId|
                match drain.waiting@[0] {
                    OrderRequest::CancelAll { instrument: only, .. } => instrument == only,
                    OrderRequest::GlobalCancel { instruments, .. } => instruments@.contains(
                        instrument,
                    ),
                    _ => false,
                };
            let withdrawn = before.orders@.dom().contains(id) && on(
                before.orders@[id].instrument,
            ) && !before.orders@[id].status.terminal();
            match drain_after.rest {
                Some(Rest::Withdrawals { ids, stated: withdrawal }) => {
                    &&& ids@.contains(id) <==> withdrawn
                    &&& drain.waiting@[0] matches OrderRequest::CancelAll { stated, .. }
                        ==> withdrawal == stated
                    &&& drain.waiting@[0] matches OrderRequest::GlobalCancel { stated, .. }
                        ==> withdrawal == stated
                },
                Some(_) => false,
                None => !withdrawn,
            }
        }),
        after.orders@ == before.orders@,
{
    match drain.waiting@[0] {
        OrderRequest::CancelAll { instrument, .. } => {
            every_open_order_is_withdrawn(before, seq![instrument], id);
            assert(seq![instrument][0] == instrument);
        },
        OrderRequest::GlobalCancel { instruments, .. } => {
            every_open_order_is_withdrawn(before, instruments@, id);
        },
        _ => {},
    }
}

/// The withdrawals under way go out one by one, in order, each for the order
/// next in line, and the rest stay in line.
#[verifier::spinoff_prover]
pub proof fn withdrawals_go_out_in_order(
    before: Context,
    after: Context,
    known: Known,
    session: Seq<char>,
    ids: Vec<u64>,
    withdrawal: crate::types::orders::OrderCancel,
    step: DrainStep,
    now: Seq<char>,
)
    requires
        rest_continued(
            before,
            after,
            known,
            session,
            Rest::Withdrawals { ids, stated: withdrawal },
            step,
            now,
        ),
        ids@.len() > 0,
    ensures
        step matches DrainStep::Send { message, flight } && {
            let m = stated(message@);
            &&& says(m, 35, seq!['F'])
            &&& !before.last_clord@.dom().contains(ids@[0]) ==> says(
                m,
                41,
                digits(ids@[0] as nat) + "."@ + digits(before.version(ids@[0]) as nat),
            )
            &&& flight matches Flight::Withdrawals { order_id, rest, .. } && order_id == ids@[0]
                && seq![order_id] + rest@ == ids@
        },
        after.orders@ == before.orders@,
{
    a_withdrawal_is_stated_as_asked(before, known, session, ids@[0], withdrawal, now);
    assert(seq![ids@[0]] + ids@.drop_first() =~= ids@);
}

/// A new order that failed to leave is left in doubt: it stays tracked, as it
/// was but for where it stands. One that left is said to have gone, and nothing
/// changes.
pub proof fn an_order_that_did_not_leave_is_in_doubt(
    before: Context,
    after: Context,
    known: Known,
    said_before: Seq<Said>,
    said_after: Seq<Said>,
    order_id: u64,
    rest: Option<Rest>,
    sent: bool,
    settled: Settled,
    now_ns: u64,
    other: u64,
)
    requires
        flight_settled(
            before,
            after,
            known,
            said_before,
            said_after,
            Flight::Order { order_id, prior: None },
            rest,
            sent,
            settled,
            now_ns,
        ),
        order_id != 0,
        other != order_id,
    ensures
        rest is None,
        sent ==> settled is Went && after.orders@ == before.orders@ && said_after
            == said_before.push(Said::WentOut(order_id)),
        !sent ==> settled is InDoubt && after.held(other) == before.held(other) && match before.held(
            order_id,
        ) {
            Some(order) => after.held(order_id) matches Some(left) && left.status is Uncertain
                && left.qty == order.qty && left.side == order.side && left.price == order.price
                && left.filled == order.filled && left.instrument == order.instrument
                && said_after.len() == said_before.len() + 1,
            None => after.held(order_id) is None,
        },
{
}

/// A withdrawal that left shows the order as being withdrawn, unless it cannot
/// trade any more. One that did not leaves it in doubt.
pub proof fn a_withdrawal_shows_once_it_left(
    before: Context,
    after: Context,
    known: Known,
    said_before: Seq<Said>,
    said_after: Seq<Said>,
    order_id: u64,
    rest: Option<Rest>,
    sent: bool,
    settled: Settled,
    now_ns: u64,
    other: u64,
)
    requires
        flight_settled(
            before,
            after,
            known,
            said_before,
            said_after,
            Flight::Withdrawal { order_id },
            rest,
            sent,
            settled,
            now_ns,
        ),
        before.held(order_id) is Some,
        order_id != 0,
        other != order_id,
    ensures
        after.held(other) == before.held(other),
        after.held(order_id) matches Some(left) && {
            let order = before.held(order_id)->0;
            &&& left.qty == order.qty && left.side == order.side && left.filled == order.filled
            &&& sent && !order.status.terminal() ==> left.status is PendingCancel
            &&& sent && order.status.terminal() ==> left.status == order.status
            &&& !sent ==> left.status is Uncertain
        },
        sent ==> settled is Went && said_after.len() > 0 && said_after.last() == Said::WentOut(
            order_id,
        ),
        !sent ==> settled is InDoubt,
{
}

} // verus!
