//! The instructions waiting to be sent, one after another.
//!
//! A drain takes what is waiting and works through it. Each step either gives
//! a message to send, or says that there is nothing to send yet or any more;
//! what became of a message is handed back before the next step.

use crate::engine::context::{any_uncertain, open_ids, Context};
use crate::engine::known::{said, say, Known, Notice, Said};
use crate::engine::order_builder::bracket::{
    bracket_fields, leg_held, send_bracket_leg, BracketOrder, Leg,
};
use crate::engine::order_builder::cancel::{cancel_fields, send_cancel, withdrawal_counted};
use crate::engine::order_builder::fields::{stated, Stated};
use crate::engine::order_builder::identity::{slot_disagrees, the_slot_is_not_that_contract};
use crate::engine::order_builder::replace::{
    replace_order, replacement_outcome, statement_of, Named, ORDER_NOT_FOUND_ERROR_CODE,
};
use crate::engine::order_builder::reports::{
    all_made_uncertain, all_said_uncertain, made_uncertain, pending_cancel_update,
    report_all_uncertain, report_uncertain, said_uncertain, synthesize_pending_cancel,
};
use crate::engine::order_builder::submit::{
    send_order_ex, submission_recorded, submit_fields,
};
use crate::types::orders::{
    InstrumentId, Order, OrderCancel, OrderOp, OrderRequest, OrderStatus,
};
use vstd::prelude::*;

verus! {

/// A message on its way, and what its outcome settles.
#[derive(Debug, PartialEq)]
#[allow(inconsistent_fields)]
pub enum Flight {
    /// A submission or a replacement, and the order a replacement found.
    Order { order_id: u64, prior: Option<Order> },
    /// A leg of a bracket, and whether the ones before it went.
    Bracket { bracket: BracketOrder, leg: Leg, ok: bool },
    /// The withdrawal of one order.
    Withdrawal { order_id: u64 },
    /// The withdrawal of one of several orders, and those still to come.
    Withdrawals { order_id: u64, rest: Vec<u64>, stated: OrderCancel },
}

/// The rest of an instruction that takes more than one message.
#[derive(Debug, PartialEq)]
#[allow(inconsistent_fields)]
pub enum Rest {
    Leg { bracket: BracketOrder, leg: Leg, ok: bool },
    Withdrawals { ids: Vec<u64>, stated: OrderCancel },
}

/// What is being worked through.
#[derive(Debug)]
pub struct Drain {
    /// The instructions not looked at yet.
    pub waiting: Vec<OrderRequest>,
    /// The instructions that go back to wait.
    pub unsent: Vec<OrderRequest>,
    /// How many instructions this lap may still take.
    pub left: usize,
    /// What is left of the instruction under way.
    pub rest: Option<Rest>,
}

/// What a step of a drain comes to.
#[derive(Debug, PartialEq)]
#[allow(inconsistent_fields)]
pub enum DrainStep {
    /// There is nothing more to take.
    Finished,
    /// An instruction goes back to wait.
    HeldBack,
    /// An instruction was taken, and there is no message of it to send now.
    Taken,
    /// A message to send, and what its outcome settles.
    Send { message: Vec<(u32, String)>, flight: Flight },
}

/// What the outcome of a message comes to.
#[derive(Clone, Copy, Debug, PartialEq, Eq, Structural)]
pub enum Settled {
    /// The instruction has more to send.
    Underway,
    /// The instruction went.
    Went,
    /// What the venue holds is not known.
    InDoubt,
}

/// Whether a request waits for a recovery to settle what the venue holds: it
/// names an order, or a contract with an order, whose state is not known.
pub open spec fn waits_for_recovery(context: Context, request: OrderRequest) -> bool {
    match request {
        OrderRequest::Cancel { order_id, .. } => context.held(order_id) matches Some(order)
            && order.status is Uncertain,
        OrderRequest::Modify { order_id, .. } => context.held(order_id) matches Some(order)
            && order.status is Uncertain,
        OrderRequest::CancelAll { instrument, .. } => any_uncertain(context.orders@, instrument),
        OrderRequest::GlobalCancel { instruments, .. } => exists|i: int|
            0 <= i < instruments@.len() && any_uncertain(
                context.orders@,
                #[trigger] instruments@[i],
            ),
        _ => false,
    }
}

fn any_of_them_uncertain(context: &Context, instruments: &Vec<InstrumentId>) -> (any: bool)
    ensures
        any <==> exists|i: int|
            0 <= i < instruments@.len() && any_uncertain(
                context.orders@,
                #[trigger] instruments@[i],
            ),
{
    let mut at: usize = 0;
    while at < instruments.len()
        invariant
            at <= instruments@.len(),
            forall|i: int|
                0 <= i < at ==> !any_uncertain(context.orders@, #[trigger] instruments@[i]),
        decreases instruments@.len() - at,
    {
        if context.any_uncertain_on(instruments[at]) {
            assert(any_uncertain(context.orders@, instruments@[at as int]));
            return true;
        }
        at = at + 1;
    }
    false
}

fn must_wait(context: &Context, request: &OrderRequest) -> (waits: bool)
    ensures
        waits == waits_for_recovery(*context, *request),
{
    match request {
        OrderRequest::Cancel { order_id, .. } => match context.order(*order_id) {
            Some(order) => matches!(order.status, OrderStatus::Uncertain),
            None => false,
        },
        OrderRequest::Modify { order_id, .. } => match context.order(*order_id) {
            Some(order) => matches!(order.status, OrderStatus::Uncertain),
            None => false,
        },
        OrderRequest::CancelAll { instrument, .. } => context.any_uncertain_on(*instrument),
        OrderRequest::GlobalCancel { instruments, .. } => any_of_them_uncertain(
            context,
            instruments,
        ),
        _ => false,
    }
}

/// The orders that may still trade on any of a list of contracts, contract by
/// contract.
pub open spec fn open_on_any(context: Context, instruments: Seq<InstrumentId>) -> Seq<u64>
    decreases instruments.len(),
{
    if instruments.len() == 0 {
        Seq::empty()
    } else {
        open_on_any(context, instruments.drop_last()) + open_ids(
            context.orders.keys(),
            context.orders@,
            instruments.last(),
        )
    }
}

fn all_open_on(context: &Context, instruments: &Vec<InstrumentId>) -> (ids: Vec<u64>)
    ensures
        ids@ == open_on_any(*context, instruments@),
{
    let mut ids: Vec<u64> = Vec::new();
    let mut at: usize = 0;
    proof {
        assert(instruments@.take(0) =~= Seq::empty());
    }
    while at < instruments.len()
        invariant
            at <= instruments@.len(),
            ids@ == open_on_any(*context, instruments@.take(at as int)),
        decreases instruments@.len() - at,
    {
        let mut more: Vec<u64> = context.open_orders_for(instruments[at]);
        ids.append(&mut more);
        proof {
            assert(instruments@.take(at + 1).drop_last() =~= instruments@.take(at as int));
            assert(instruments@.take(at + 1).last() == instruments@[at as int]);
        }
        at = at + 1;
    }
    proof {
        assert(instruments@.take(at as int) =~= instruments@);
    }
    ids
}

/// What is said of an order that is not placed because its slot holds another
/// contract.
pub open spec fn placement_refused(
    before: Seq<Said>,
    orders: Map<u64, Order>,
    known: Known,
    order_id: u64,
    text: Seq<char>,
    now_ns: u64,
) -> Seq<Said> {
    said_uncertain(
        before.push(
            Said::Inactive {
                order_id,
                op: OrderOp::Place,
                code: ORDER_NOT_FOUND_ERROR_CODE,
                text,
            },
        ),
        orders,
        known,
        order_id,
        now_ns,
    )
}

fn refuse_placement(
    context: &mut Context,
    known: &Known,
    notices: &mut Vec<Notice>,
    order_id: u64,
    text: &String,
    now_ns: u64,
)
    ensures
        final(context).orders@ == made_uncertain(old(context).orders@, order_id),
        final(context).orders.keys() == old(context).orders.keys(),
        final(context).same_but_orders(*old(context)),
        said(final(notices)@) == placement_refused(
            said(old(notices)@),
            old(context).orders@,
            *known,
            order_id,
            text@,
            now_ns,
        ),
{
    say(
        notices,
        Notice::Inactive {
            order_id,
            op: OrderOp::Place,
            code: ORDER_NOT_FOUND_ERROR_CODE,
            text: text.clone(),
        },
    );
    report_uncertain(context, known, notices, order_id, now_ns);
}

/// What a step that sends comes to.
pub open spec fn sends(step: DrainStep, message: Stated, flight: Flight) -> bool {
    match step {
        DrainStep::Send { message: sent, flight: made } => stated(sent@) == message && made
            == flight,
        _ => false,
    }
}

/// Whether an order that was to be placed was begun: submitted, or refused
/// where its slot holds another contract.
pub open spec fn submission_begun(
    before: Context,
    after: Context,
    known: Known,
    session: Seq<char>,
    said_before: Seq<Said>,
    said_after: Seq<Said>,
    request: OrderRequest,
    step: DrainStep,
    now: Seq<char>,
    now_ns: u64,
) -> bool {
    match request {
        OrderRequest::SubmitEx {
            order_id,
            instrument,
            con_id,
            side,
            qty,
            kind,
            tif,
            attrs,
        } => match slot_disagrees(before, instrument, con_id) {
            Some(text) => {
                &&& step is Taken
                &&& after.orders@ == made_uncertain(before.orders@, order_id)
                &&& after.orders.keys() == before.orders.keys()
                &&& after.same_but_orders(before)
                &&& said_after == placement_refused(
                    said_before,
                    before.orders@,
                    known,
                    order_id,
                    text,
                    now_ns,
                )
            },
            None => {
                &&& sends(
                    step,
                    submit_fields(
                        before,
                        known,
                        session,
                        order_id,
                        instrument,
                        side,
                        qty,
                        kind,
                        tif,
                        attrs,
                        now,
                    ),
                    Flight::Order { order_id, prior: None },
                )
                &&& submission_recorded(
                    before,
                    after,
                    order_id,
                    instrument,
                    side,
                    qty,
                    kind,
                    tif,
                    attrs,
                )
                &&& said_after == said_before
            },
        },
        _ => true,
    }
}

fn begin_submission(
    context: &mut Context,
    known: &Known,
    notices: &mut Vec<Notice>,
    account_id: &str,
    request: OrderRequest,
    now: &str,
    now_ns: u64,
) -> (step: DrainStep)
    requires
        request is SubmitEx,
    ensures
        submission_begun(
            *old(context),
            *final(context),
            *known,
            account_id@,
            said(old(notices)@),
            said(final(notices)@),
            request,
            step,
            now@,
            now_ns,
        ),
{
    match request {
        OrderRequest::SubmitEx {
            order_id,
            instrument,
            con_id,
            side,
            qty,
            kind,
            tif,
            attrs,
        } => {
            match the_slot_is_not_that_contract(context, instrument, con_id) {
                Some(text) => {
                    refuse_placement(context, known, notices, order_id, &text, now_ns);
                    return DrainStep::Taken;
                },
                None => {},
            }
            let message: Vec<(u32, String)> = send_order_ex(
                context,
                known,
                account_id,
                order_id,
                instrument,
                side,
                qty,
                kind,
                tif,
                attrs,
                now,
            );
            DrainStep::Send { message, flight: Flight::Order { order_id, prior: None } }
        },
        _ => DrainStep::Taken,
    }
}

/// Whether a bracket was begun: its entry submitted with the exits to come, or
/// all three refused where their slot holds another contract.
pub open spec fn bracket_begun(
    before: Context,
    after: Context,
    known: Known,
    session: Seq<char>,
    said_before: Seq<Said>,
    said_after: Seq<Said>,
    con_id: i64,
    bracket: BracketOrder,
    step: DrainStep,
    now: Seq<char>,
    now_ns: u64,
) -> bool {
    match slot_disagrees(before, bracket.instrument, con_id) {
        Some(text) => {
            let one = made_uncertain(before.orders@, bracket.parent_id);
            let two = made_uncertain(one, bracket.tp_id);
            let said_one = placement_refused(
                said_before,
                before.orders@,
                known,
                bracket.parent_id,
                text,
                now_ns,
            );
            let said_two = placement_refused(said_one, one, known, bracket.tp_id, text, now_ns);
            &&& step is Taken
            &&& after.orders@ == made_uncertain(two, bracket.sl_id)
            &&& after.orders.keys() == before.orders.keys()
            &&& after.same_but_orders(before)
            &&& said_after == placement_refused(said_two, two, known, bracket.sl_id, text, now_ns)
        },
        None => {
            &&& sends(
                step,
                bracket_fields(before, known, session, bracket, Leg::Entry, now),
                Flight::Bracket { bracket, leg: Leg::Entry, ok: true },
            )
            &&& leg_held(before, after, bracket, Leg::Entry)
            &&& said_after == said_before
        },
    }
}

fn begin_bracket(
    context: &mut Context,
    known: &Known,
    notices: &mut Vec<Notice>,
    account_id: &str,
    con_id: i64,
    bracket: BracketOrder,
    now: &str,
    now_ns: u64,
) -> (step: DrainStep)
    ensures
        bracket_begun(
            *old(context),
            *final(context),
            *known,
            account_id@,
            said(old(notices)@),
            said(final(notices)@),
            con_id,
            bracket,
            step,
            now@,
            now_ns,
        ),
{
    match the_slot_is_not_that_contract(context, bracket.instrument, con_id) {
        Some(text) => {
            refuse_placement(context, known, notices, bracket.parent_id, &text, now_ns);
            refuse_placement(context, known, notices, bracket.tp_id, &text, now_ns);
            refuse_placement(context, known, notices, bracket.sl_id, &text, now_ns);
            return DrainStep::Taken;
        },
        None => {},
    }
    let message: Vec<(u32, String)> = send_bracket_leg(
        context,
        known,
        account_id,
        &bracket,
        Leg::Entry,
        now,
    );
    DrainStep::Send {
        message,
        flight: Flight::Bracket { bracket, leg: Leg::Entry, ok: true },
    }
}

/// Whether the withdrawal of every order on some contracts was begun: the
/// slots are to be seen again, and each order still open is to be withdrawn.
pub open spec fn withdrawals_begun(
    before: Context,
    after: Context,
    instruments: Seq<InstrumentId>,
    withdrawal: OrderCancel,
    rest: Option<Rest>,
    step: DrainStep,
) -> bool {
    let ids = open_on_any(before, instruments);
    &&& step is Taken
    &&& match rest {
        Some(Rest::Withdrawals { ids: left, stated }) => ids.len() > 0 && left@ == ids && stated
            == withdrawal,
        Some(Rest::Leg { .. }) => false,
        None => ids.len() == 0,
    }
    &&& after.slots_to_reconsider@ == before.slots_to_reconsider@ + instruments
    &&& after.orders == before.orders
    &&& after.submitted == before.submitted
    &&& after.modify_versions == before.modify_versions
    &&& after.last_clord == before.last_clord
    &&& after.pre_replace == before.pre_replace
    &&& after.cancel_attempts == before.cancel_attempts
    &&& after.order_destination == before.order_destination
    &&& after.pending_orders == before.pending_orders
    &&& after.slots == before.slots
}

fn begin_withdrawals(
    context: &mut Context,
    instruments: Vec<InstrumentId>,
    withdrawal: OrderCancel,
) -> (begun: (Option<Rest>, DrainStep))
    ensures
        withdrawals_begun(
            *old(context),
            *final(context),
            instruments@,
            withdrawal,
            begun.0,
            begun.1,
        ),
{
    let ids: Vec<u64> = all_open_on(context, &instruments);
    let mut slots: Vec<InstrumentId> = instruments;
    context.slots_to_reconsider.append(&mut slots);
    if ids.len() == 0 {
        (None, DrainStep::Taken)
    } else {
        (Some(Rest::Withdrawals { ids, stated: withdrawal }), DrainStep::Taken)
    }
}

/// Whether a request was begun.
pub open spec fn request_begun(
    before: Context,
    after: Context,
    known: Known,
    session: Seq<char>,
    said_before: Seq<Said>,
    said_after: Seq<Said>,
    request: OrderRequest,
    rest: Option<Rest>,
    step: DrainStep,
    now: Seq<char>,
    now_ns: u64,
) -> bool {
    match request {
        OrderRequest::SubmitEx { .. } => rest is None && submission_begun(
            before,
            after,
            known,
            session,
            said_before,
            said_after,
            request,
            step,
            now,
            now_ns,
        ),
        OrderRequest::SubmitBracket {
            con_id,
            parent_id,
            tp_id,
            sl_id,
            instrument,
            side,
            qty,
            entry_price,
            take_profit,
            stop_loss,
        } => rest is None && bracket_begun(
            before,
            after,
            known,
            session,
            said_before,
            said_after,
            con_id,
            BracketOrder {
                parent_id,
                tp_id,
                sl_id,
                instrument,
                side,
                qty,
                entry_price,
                take_profit,
                stop_loss,
            },
            step,
            now,
            now_ns,
        ),
        OrderRequest::Cancel { order_id, stated: withdrawal } => {
            &&& rest is None
            &&& sends(
                step,
                cancel_fields(before, known, session, order_id, withdrawal, now),
                Flight::Withdrawal { order_id },
            )
            &&& withdrawal_counted(before, after, order_id)
            &&& said_after == said_before
        },
        OrderRequest::CancelAll { instrument, stated: withdrawal } => withdrawals_begun(
            before,
            after,
            seq![instrument],
            withdrawal,
            rest,
            step,
        ) && said_after == said_before,
        OrderRequest::GlobalCancel { instruments, stated: withdrawal } => withdrawals_begun(
            before,
            after,
            instruments@,
            withdrawal,
            rest,
            step,
        ) && said_after == said_before,
        OrderRequest::Modify {
            order_id,
            price,
            qty,
            outside_rth,
            ord_type,
            tif,
            stop_price,
            spec,
        } => {
            let named = Named { price, qty, outside_rth, ord_type, tif, stop_price };
            let message = match step {
                DrainStep::Send { message, .. } => Some(stated(message@)),
                _ => None,
            };
            &&& rest is None
            &&& replacement_outcome(
                before,
                after,
                known,
                session,
                said_before,
                said_after,
                order_id,
                named,
                statement_of(spec),
                message,
                now,
                now_ns,
            )
            &&& match step {
                DrainStep::Send { flight, .. } => flight == (Flight::Order {
                    order_id,
                    prior: before.held(order_id),
                }),
                DrainStep::Taken => true,
                _ => false,
            }
        },
    }
}

#[verifier::spinoff_prover]
fn begin_request(
    context: &mut Context,
    known: &Known,
    notices: &mut Vec<Notice>,
    account_id: &str,
    request: OrderRequest,
    now: &str,
    now_ns: u64,
) -> (begun: (Option<Rest>, DrainStep))
    ensures
        request_begun(
            *old(context),
            *final(context),
            *known,
            account_id@,
            said(old(notices)@),
            said(final(notices)@),
            request,
            begun.0,
            begun.1,
            now@,
            now_ns,
        ),
{
    match request {
        OrderRequest::SubmitEx { .. } => {
            let step: DrainStep = begin_submission(
                context,
                known,
                notices,
                account_id,
                request,
                now,
                now_ns,
            );
            (None, step)
        },
        OrderRequest::SubmitBracket {
            con_id,
            parent_id,
            tp_id,
            sl_id,
            instrument,
            side,
            qty,
            entry_price,
            take_profit,
            stop_loss,
        } => {
            let bracket: BracketOrder = BracketOrder {
                parent_id,
                tp_id,
                sl_id,
                instrument,
                side,
                qty,
                entry_price,
                take_profit,
                stop_loss,
            };
            let step: DrainStep = begin_bracket(
                context,
                known,
                notices,
                account_id,
                con_id,
                bracket,
                now,
                now_ns,
            );
            (None, step)
        },
        OrderRequest::Cancel { order_id, stated } => {
            let message: Vec<(u32, String)> = send_cancel(
                context,
                known,
                account_id,
                order_id,
                &stated,
                now,
            );
            (None, DrainStep::Send { message, flight: Flight::Withdrawal { order_id } })
        },
        OrderRequest::CancelAll { instrument, stated } => {
            let instruments: Vec<InstrumentId> = vec![instrument];
            proof {
                assert(instruments@ =~= seq![instrument]);
            }
            begin_withdrawals(context, instruments, stated)
        },
        OrderRequest::GlobalCancel { instruments, stated } => begin_withdrawals(
            context,
            instruments,
            stated,
        ),
        OrderRequest::Modify {
            order_id,
            price,
            qty,
            outside_rth,
            ord_type,
            tif,
            stop_price,
            spec,
        } => {
            let prior: Option<Order> = context.order(order_id);
            let named: Named = Named { price, qty, outside_rth, ord_type, tif, stop_price };
            match replace_order(
                context,
                known,
                notices,
                account_id,
                order_id,
                &named,
                spec,
                now,
                now_ns,
            ) {
                Some(message) => (
                    None,
                    DrainStep::Send { message, flight: Flight::Order { order_id, prior } },
                ),
                None => (None, DrainStep::Taken),
            }
        },
    }
}

/// Whether the rest of an instruction was continued by one message: its next
/// leg, or its next withdrawal.
pub open spec fn rest_continued(
    before: Context,
    after: Context,
    known: Known,
    session: Seq<char>,
    rest: Rest,
    step: DrainStep,
    now: Seq<char>,
) -> bool {
    match rest {
        Rest::Leg { bracket, leg, ok } => {
            &&& sends(
                step,
                bracket_fields(before, known, session, bracket, leg, now),
                Flight::Bracket { bracket, leg, ok },
            )
            &&& leg_held(before, after, bracket, leg)
        },
        Rest::Withdrawals { ids, stated: withdrawal } => if ids@.len() == 0 {
            step is Taken && after == before
        } else {
            &&& withdrawal_counted(before, after, ids@[0])
            &&& match step {
                DrainStep::Send {
                    message,
                    flight: Flight::Withdrawals { order_id, rest: left, stated: again },
                } => {
                    &&& stated(message@) == cancel_fields(
                        before,
                        known,
                        session,
                        ids@[0],
                        withdrawal,
                        now,
                    )
                    &&& order_id == ids@[0]
                    &&& left@ == ids@.drop_first()
                    &&& again == withdrawal
                },
                _ => false,
            }
        },
    }
}

fn continue_rest(
    context: &mut Context,
    known: &Known,
    account_id: &str,
    rest: Rest,
    now: &str,
) -> (step: DrainStep)
    ensures
        rest_continued(
            *old(context),
            *final(context),
            *known,
            account_id@,
            rest,
            step,
            now@,
        ),
{
    match rest {
        Rest::Leg { bracket, leg, ok } => {
            let message: Vec<(u32, String)> = send_bracket_leg(
                context,
                known,
                account_id,
                &bracket,
                leg,
                now,
            );
            DrainStep::Send { message, flight: Flight::Bracket { bracket, leg, ok } }
        },
        Rest::Withdrawals { ids, stated } => {
            let mut left: Vec<u64> = ids;
            if left.len() == 0 {
                return DrainStep::Taken;
            }
            let order_id: u64 = left.remove(0);
            proof {
                assert(left@ =~= ids@.drop_first());
            }
            let message: Vec<(u32, String)> = send_cancel(
                context,
                known,
                account_id,
                order_id,
                &stated,
                now,
            );
            DrainStep::Send { message, flight: Flight::Withdrawals { order_id, rest: left, stated } }
        },
    }
}

/// Claim what is waiting, once there is somewhere to send it and the lap may
/// still take something. Nothing otherwise, and what is waiting stays.
pub fn begin_drain(
    context: &mut Context,
    disconnected: bool,
    connected: bool,
    left: usize,
) -> (drain: Option<Drain>)
    ensures
        match drain {
            Some(drain) => {
                &&& !disconnected && connected && left > 0
                &&& drain.waiting@ == old(context).pending_orders@
                &&& drain.unsent@.len() == 0
                &&& drain.left == left
                &&& drain.rest is None
                &&& final(context).pending_orders@.len() == 0
            },
            None => {
                &&& disconnected || !connected || left == 0
                &&& final(context).pending_orders@ == old(context).pending_orders@
            },
        },
        final(context).orders == old(context).orders,
        final(context).submitted == old(context).submitted,
        final(context).modify_versions == old(context).modify_versions,
        final(context).last_clord == old(context).last_clord,
        final(context).pre_replace == old(context).pre_replace,
        final(context).cancel_attempts == old(context).cancel_attempts,
        final(context).order_destination == old(context).order_destination,
        final(context).slots_to_reconsider == old(context).slots_to_reconsider,
        final(context).slots == old(context).slots,
{
    if disconnected || !connected || left == 0 {
        return None;
    }
    let mut waiting: Vec<OrderRequest> = Vec::new();
    std::mem::swap(&mut waiting, &mut context.pending_orders);
    Some(Drain { waiting, unsent: Vec::new(), left, rest: None })
}

/// What a step of a drain does: it continues the instruction under way; or it
/// finds nothing more to take; or it holds the next one back, where the lap
/// may take no more, a write has failed or the recovery is still settling what
/// it names; or it takes it.
pub open spec fn drain_step(
    drain_before: Drain,
    drain_after: Drain,
    before: Context,
    after: Context,
    known: Known,
    session: Seq<char>,
    said_before: Seq<Said>,
    said_after: Seq<Said>,
    write_failed: bool,
    recovery_pending: bool,
    step: DrainStep,
    now: Seq<char>,
    now_ns: u64,
) -> bool {
    match drain_before.rest {
        Some(rest) => {
            &&& drain_after.waiting == drain_before.waiting
            &&& drain_after.unsent == drain_before.unsent
            &&& drain_after.left == drain_before.left
            &&& drain_after.rest is None
            &&& rest_continued(before, after, known, session, rest, step, now)
            &&& said_after == said_before
        },
        None => if drain_before.waiting@.len() == 0 {
            &&& step is Finished
            &&& drain_after == drain_before
            &&& after == before
            &&& said_after == said_before
        } else {
            let request = drain_before.waiting@[0];
            &&& drain_after.waiting@ == drain_before.waiting@.drop_first()
            &&& if drain_before.left == 0 || write_failed || (recovery_pending
                && waits_for_recovery(before, request)) {
                &&& step is HeldBack
                &&& drain_after.unsent@ == drain_before.unsent@.push(request)
                &&& drain_after.left == drain_before.left
                &&& drain_after.rest is None
                &&& after == before
                &&& said_after == said_before
            } else {
                &&& drain_after.unsent == drain_before.unsent
                &&& drain_after.left == drain_before.left - 1
                &&& request_begun(
                    before,
                    after,
                    known,
                    session,
                    said_before,
                    said_after,
                    request,
                    drain_after.rest,
                    step,
                    now,
                    now_ns,
                )
            }
        },
    }
}

/// Take one step of a drain.
pub fn drain_and_send_orders(
    drain: &mut Drain,
    context: &mut Context,
    known: &Known,
    notices: &mut Vec<Notice>,
    account_id: &str,
    write_failed: bool,
    recovery_pending: bool,
    now: &str,
    now_ns: u64,
) -> (step: DrainStep)
    ensures
        drain_step(
            *old(drain),
            *final(drain),
            *old(context),
            *final(context),
            *known,
            account_id@,
            said(old(notices)@),
            said(final(notices)@),
            write_failed,
            recovery_pending,
            step,
            now@,
            now_ns,
        ),
{
    match drain.rest.take() {
        Some(rest) => {
            return continue_rest(context, known, account_id, rest, now);
        },
        None => {},
    }
    if drain.waiting.len() == 0 {
        return DrainStep::Finished;
    }
    let request: OrderRequest = drain.waiting.remove(0);
    proof {
        assert(drain.waiting@ =~= old(drain).waiting@.drop_first());
    }
    if drain.left == 0 || write_failed || (recovery_pending && must_wait(context, &request)) {
        drain.unsent.push(request);
        return DrainStep::HeldBack;
    }
    drain.left = drain.left - 1;
    let (rest, step) = begin_request(
        context,
        known,
        notices,
        account_id,
        request,
        now,
        now_ns,
    );
    drain.rest = rest;
    step
}

/// Put back what a drain did not send, ahead of what has come since.
pub fn finish_drain(drain: Drain, context: &mut Context)
    ensures
        final(context).pending_orders@ == drain.unsent@ + drain.waiting@ + old(
            context,
        ).pending_orders@,
        final(context).orders == old(context).orders,
        final(context).submitted == old(context).submitted,
        final(context).modify_versions == old(context).modify_versions,
        final(context).last_clord == old(context).last_clord,
        final(context).pre_replace == old(context).pre_replace,
        final(context).cancel_attempts == old(context).cancel_attempts,
        final(context).order_destination == old(context).order_destination,
        final(context).slots_to_reconsider == old(context).slots_to_reconsider,
        final(context).slots == old(context).slots,
{
    let Drain { waiting, unsent, left: _, rest: _ } = drain;
    let mut first: Vec<OrderRequest> = unsent;
    let mut second: Vec<OrderRequest> = waiting;
    first.append(&mut second);
    first.append(&mut context.pending_orders);
    context.pending_orders = first;
}

/// Whether the failure of a replacement is taken back: the order the venue is
/// known to hold is tracked again, and the record kept against a refusal of
/// the replacement is the order's record again.
pub open spec fn taken_back(before: Context, after: Context, order_id: u64, prior: Order) -> bool {
    let key = (order_id, before.version(order_id));
    &&& after.orders@ == before.orders@.insert(prior.order_id, prior)
    &&& after.orders.keys() == (if before.orders@.dom().contains(prior.order_id) {
        before.orders.keys()
    } else {
        before.orders.keys().push(prior.order_id)
    })
    &&& after.pre_replace@ == before.pre_replace@.remove(key)
    &&& after.submitted@ == (if before.pre_replace@.dom().contains(key)
        && before.pre_replace@[key].record is Some && before.submitted@.dom().contains(order_id) {
        before.submitted@.insert(order_id, before.pre_replace@[key].record->0)
    } else {
        before.submitted@
    })
    &&& after.modify_versions == before.modify_versions
    &&& after.last_clord == before.last_clord
    &&& after.cancel_attempts == before.cancel_attempts
    &&& after.order_destination == before.order_destination
    &&& after.slots_to_reconsider == before.slots_to_reconsider
    &&& after.pending_orders == before.pending_orders
    &&& after.slots == before.slots
}

fn take_back(context: &mut Context, order_id: u64, prior: Order)
    ensures
        taken_back(*old(context), *final(context), order_id, prior),
{
    context.insert_order(prior);
    let version: u32 = context.replaced_times(order_id);
    match context.pre_replace.remove(&(order_id, version)) {
        Some(fallback) => {
            match fallback.record {
                Some(record) => {
                    if context.submitted.contains_key(&order_id) {
                        context.submitted.insert(order_id, record);
                    }
                },
                None => {},
            }
        },
        None => {},
    }
}

/// What is said where each of a list of orders went out.
pub open spec fn all_went_out(before: Seq<Said>, ids: Seq<u64>) -> Seq<Said>
    decreases ids.len(),
{
    if ids.len() == 0 {
        before
    } else {
        all_went_out(before, ids.drop_last()).push(Said::WentOut(ids.last()))
    }
}

/// The three orders of a bracket.
pub open spec fn bracket_ids(bracket: BracketOrder) -> Seq<u64> {
    seq![bracket.parent_id, bracket.tp_id, bracket.sl_id]
}

/// What the outcome of a submission or a replacement comes to.
pub open spec fn order_settled(
    before: Context,
    after: Context,
    known: Known,
    said_before: Seq<Said>,
    said_after: Seq<Said>,
    order_id: u64,
    prior: Option<Order>,
    sent: bool,
    settled: Settled,
    now_ns: u64,
) -> bool {
    if sent {
        &&& settled is Went
        &&& after == before
        &&& said_after == said_before.push(Said::WentOut(order_id))
    } else {
        &&& settled is InDoubt
        &&& match prior {
            Some(prior) => if order_id != 0 {
                exists|back: Context|
                    {
                        &&& #[trigger] taken_back(before, back, order_id, prior)
                        &&& after.orders@ == made_uncertain(back.orders@, order_id)
                        &&& after.orders.keys() == back.orders.keys()
                        &&& after.same_but_orders(back)
                        &&& said_after == said_uncertain(
                            said_before,
                            back.orders@,
                            known,
                            order_id,
                            now_ns,
                        )
                    }
            } else {
                after == before && said_after == said_before
            },
            None => {
                &&& after.orders@ == made_uncertain(before.orders@, order_id)
                &&& after.orders.keys() == before.orders.keys()
                &&& after.same_but_orders(before)
                &&& said_after == said_uncertain(
                    said_before,
                    before.orders@,
                    known,
                    order_id,
                    now_ns,
                )
            },
        }
    }
}

fn settle_order(
    context: &mut Context,
    known: &Known,
    notices: &mut Vec<Notice>,
    order_id: u64,
    prior: Option<Order>,
    sent: bool,
    now_ns: u64,
) -> (settled: Settled)
    ensures
        order_settled(
            *old(context),
            *final(context),
            *known,
            said(old(notices)@),
            said(final(notices)@),
            order_id,
            prior,
            sent,
            settled,
            now_ns,
        ),
{
    if sent {
        say(notices, Notice::WentOut(order_id));
        return Settled::Went;
    }
    if order_id == 0 {
        return Settled::InDoubt;
    }
    match prior {
        Some(prior) => {
            take_back(context, order_id, prior);
        },
        None => {},
    }
    let ghost back = *context;
    report_uncertain(context, known, notices, order_id, now_ns);
    proof {
        if prior is Some {
            assert(taken_back(*old(context), back, order_id, prior->0));
        }
    }
    Settled::InDoubt
}

/// Whether an order whose withdrawal went out is announced as being withdrawn.
pub open spec fn withdrawal_announced(
    before: Context,
    after: Context,
    said_before: Seq<Said>,
    said_after: Seq<Said>,
    order_id: u64,
    now_ns: u64,
) -> bool {
    &&& match before.held(order_id) {
        Some(order) => if order.status.terminal() || order.status is PendingCancel {
            after.orders@ == before.orders@ && said_after == said_before
        } else {
            &&& after.orders@ == crate::engine::context::with_status(
                before.orders@,
                order_id,
                OrderStatus::PendingCancel,
            )
            &&& said_after == said_before.push(
                Said::Update(pending_cancel_update(order_id, order, now_ns)),
            )
        },
        None => after.orders@ == before.orders@ && said_after == said_before,
    }
    &&& after.orders.keys() == before.orders.keys()
    &&& after.same_but_orders(before)
}

/// What the outcome of a message comes to.
pub open spec fn flight_settled(
    before: Context,
    after: Context,
    known: Known,
    said_before: Seq<Said>,
    said_after: Seq<Said>,
    flight: Flight,
    rest: Option<Rest>,
    sent: bool,
    settled: Settled,
    now_ns: u64,
) -> bool {
    match flight {
        Flight::Order { order_id, prior } => rest is None && order_settled(
            before,
            after,
            known,
            said_before,
            said_after,
            order_id,
            prior,
            sent,
            settled,
            now_ns,
        ),
        Flight::Bracket { bracket, leg, ok } => match leg {
            Leg::Entry => {
                &&& settled is Underway
                &&& rest == Some(Rest::Leg { bracket, leg: Leg::TakeProfit, ok: ok && sent })
                &&& after == before
                &&& said_after == said_before
            },
            Leg::TakeProfit => {
                &&& settled is Underway
                &&& rest == Some(Rest::Leg { bracket, leg: Leg::StopLoss, ok: ok && sent })
                &&& after == before
                &&& said_after == said_before
            },
            Leg::StopLoss => {
                &&& rest is None
                &&& if ok && sent {
                    &&& settled is Went
                    &&& after == before
                    &&& said_after == all_went_out(said_before, bracket_ids(bracket))
                } else {
                    &&& settled is InDoubt
                    &&& after.orders@ == all_made_uncertain(before.orders@, bracket_ids(bracket))
                    &&& after.orders.keys() == before.orders.keys()
                    &&& after.same_but_orders(before)
                    &&& said_after == all_said_uncertain(
                        said_before,
                        before.orders@,
                        known,
                        bracket_ids(bracket),
                        now_ns,
                    )
                }
            },
        },
        Flight::Withdrawal { order_id } => {
            &&& rest is None
            &&& if sent {
                &&& settled is Went
                &&& said_after.len() > 0
                &&& said_after.last() == Said::WentOut(order_id)
                &&& withdrawal_announced(
                    before,
                    after,
                    said_before,
                    said_after.drop_last(),
                    order_id,
                    now_ns,
                )
            } else {
                &&& settled is InDoubt
                &&& after.orders@ == made_uncertain(before.orders@, order_id)
                &&& after.orders.keys() == before.orders.keys()
                &&& after.same_but_orders(before)
                &&& said_after == said_uncertain(
                    said_before,
                    before.orders@,
                    known,
                    order_id,
                    now_ns,
                )
            }
        },
        Flight::Withdrawals { order_id, rest: ids, stated: withdrawal } => if sent {
            &&& withdrawal_announced(
                before,
                after,
                said_before,
                said_after,
                order_id,
                now_ns,
            )
            &&& if ids@.len() == 0 {
                settled is Went && rest is None
            } else {
                settled is Underway && rest == Some(
                    Rest::Withdrawals { ids, stated: withdrawal },
                )
            }
        } else {
            &&& settled is Went
            &&& rest is None
            &&& after.orders@ == all_made_uncertain(before.orders@, seq![order_id] + ids@)
            &&& after.orders.keys() == before.orders.keys()
            &&& after.same_but_orders(before)
            &&& said_after == all_said_uncertain(
                said_before,
                before.orders@,
                known,
                seq![order_id] + ids@,
                now_ns,
            )
        },
    }
}

/// Hand back what became of a message. A write that failed leaves what the
/// venue holds unknown; every order the instruction names is said to be so.
/// The first failed withdrawal of several ends them: the rest cannot leave.
#[verifier::spinoff_prover]
pub fn settle(
    drain: &mut Drain,
    context: &mut Context,
    known: &Known,
    notices: &mut Vec<Notice>,
    flight: Flight,
    sent: bool,
    now_ns: u64,
) -> (settled: Settled)
    ensures
        flight_settled(
            *old(context),
            *final(context),
            *known,
            said(old(notices)@),
            said(final(notices)@),
            flight,
            final(drain).rest,
            sent,
            settled,
            now_ns,
        ),
        final(drain).waiting == old(drain).waiting,
        final(drain).unsent == old(drain).unsent,
        final(drain).left == old(drain).left,
{
    drain.rest = None;
    match flight {
        Flight::Order { order_id, prior } => settle_order(
            context,
            known,
            notices,
            order_id,
            prior,
            sent,
            now_ns,
        ),
        Flight::Bracket { bracket, leg, ok } => match leg {
            Leg::Entry => {
                drain.rest = Some(Rest::Leg { bracket, leg: Leg::TakeProfit, ok: ok && sent });
                Settled::Underway
            },
            Leg::TakeProfit => {
                drain.rest = Some(Rest::Leg { bracket, leg: Leg::StopLoss, ok: ok && sent });
                Settled::Underway
            },
            Leg::StopLoss => {
                if ok && sent {
                    say(notices, Notice::WentOut(bracket.parent_id));
                    say(notices, Notice::WentOut(bracket.tp_id));
                    say(notices, Notice::WentOut(bracket.sl_id));
                    proof {
                        let ids = bracket_ids(bracket);
                        assert(ids.drop_last() =~= seq![bracket.parent_id, bracket.tp_id]);
                        assert(ids.drop_last().drop_last() =~= seq![bracket.parent_id]);
                        assert(ids.drop_last().drop_last().drop_last() =~= Seq::empty());
                        reveal_with_fuel(all_went_out, 4);
                    }
                    Settled::Went
                } else {
                    let ids: Vec<u64> = vec![bracket.parent_id, bracket.tp_id, bracket.sl_id];
                    proof {
                        assert(ids@ =~= bracket_ids(bracket));
                    }
                    report_all_uncertain(context, known, notices, &ids, now_ns);
                    Settled::InDoubt
                }
            },
        },
        Flight::Withdrawal { order_id } => {
            if sent {
                synthesize_pending_cancel(context, notices, order_id, now_ns);
                let ghost announced = said(notices@);
                say(notices, Notice::WentOut(order_id));
                proof {
                    assert(said(notices@).drop_last() =~= announced);
                }
                Settled::Went
            } else {
                report_uncertain(context, known, notices, order_id, now_ns);
                Settled::InDoubt
            }
        },
        Flight::Withdrawals { order_id, rest, stated } => {
            if sent {
                synthesize_pending_cancel(context, notices, order_id, now_ns);
                if rest.len() == 0 {
                    Settled::Went
                } else {
                    drain.rest = Some(Rest::Withdrawals { ids: rest, stated });
                    Settled::Underway
                }
            } else {
                let mut ids: Vec<u64> = vec![order_id];
                let mut left: Vec<u64> = rest;
                ids.append(&mut left);
                proof {
                    assert(ids@ =~= seq![order_id] + rest@);
                }
                report_all_uncertain(context, known, notices, &ids, now_ns);
                Settled::Went
            }
        },
    }
}

} // verus!
