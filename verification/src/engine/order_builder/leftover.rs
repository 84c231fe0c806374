//! The instructions still waiting when nothing will carry them.

use crate::engine::context::Context;
use crate::engine::known::{said, say, Notice, Said};
use crate::error_codes::Refusal;
use crate::text::joined;
use crate::types::orders::{OrderOp, OrderRequest};
use vstd::prelude::*;

verus! {

/// What is said of an instruction that did not reach the venue: a withdrawal
/// or a change leaves its order as it was, and an order was never placed.
pub open spec fn leftover_text(why: Seq<char>, request: OrderRequest) -> Seq<char> {
    match request {
        OrderRequest::Cancel { .. } => why
            + " before this order's cancellation reached the venue, so the order stands as it was"@,
        OrderRequest::Modify { .. } => why
            + " before this order's change reached the venue, so the order stands as it was"@,
        _ => why + " before this order reached the venue, so it was never placed"@,
    }
}

/// What an instruction was.
pub open spec fn request_op(request: OrderRequest) -> OrderOp {
    match request {
        OrderRequest::Cancel { .. } => OrderOp::Cancel,
        OrderRequest::Modify { .. } => OrderOp::Modify,
        _ => OrderOp::Place,
    }
}

/// What is said of each of a list of orders an operation did not happen to,
/// but for number nought, which names none.
pub open spec fn each_inactive(
    before: Seq<Said>,
    ids: Seq<u64>,
    op: OrderOp,
    text: Seq<char>,
) -> Seq<Said>
    decreases ids.len(),
{
    if ids.len() == 0 {
        before
    } else {
        let before = each_inactive(before, ids.drop_last(), op, text);
        if ids.last() == 0 {
            before
        } else {
            before.push(Said::Inactive { order_id: ids.last(), op, code: 504, text })
        }
    }
}

/// What is said of a list of instructions that did not reach the venue. The
/// withdrawal of every order names none, and is said below.
pub open spec fn each_leftover(
    before: Seq<Said>,
    requests: Seq<OrderRequest>,
    why: Seq<char>,
) -> Seq<Said>
    decreases requests.len(),
{
    if requests.len() == 0 {
        before
    } else {
        let request = requests.last();
        each_inactive(
            each_leftover(before, requests.drop_last(), why),
            request.ids(),
            request_op(request),
            leftover_text(why, request),
        )
    }
}

/// Whether a request withdraws every order on some contracts.
pub open spec fn withdraws_all(request: OrderRequest) -> bool {
    request is CancelAll || request is GlobalCancel
}

/// What is said, under no request, of the withdrawals of every order that did
/// not reach the venue.
pub open spec fn whole_account_text(why: Seq<char>) -> Seq<char> {
    why
        + " before the withdrawal of every order reached the venue, so whatever the account was working still is"@
}

/// What is said of everything still waiting: each instruction on the orders it
/// names, and once of the withdrawals of every order.
pub open spec fn leftover_said(
    before: Seq<Said>,
    requests: Seq<OrderRequest>,
    why: Seq<char>,
) -> Seq<Said> {
    let each = each_leftover(before, requests, why);
    if exists|i: int| 0 <= i < requests.len() && withdraws_all(#[trigger] requests[i]) {
        each.push(Said::Session { code: 504, text: whole_account_text(why) })
    } else {
        each
    }
}

fn say_each_inactive(notices: &mut Vec<Notice>, ids: &Vec<u64>, op: OrderOp, text: &String)
    ensures
        said(final(notices)@) == each_inactive(said(old(notices)@), ids@, op, text@),
{
    let mut at: usize = 0;
    proof {
        assert(ids@.take(0) =~= Seq::empty());
    }
    while at < ids.len()
        invariant
            at <= ids@.len(),
            said(notices@) == each_inactive(
                said(old(notices)@),
                ids@.take(at as int),
                op,
                text@,
            ),
        decreases ids@.len() - at,
    {
        proof {
            assert(ids@.take(at + 1).drop_last() =~= ids@.take(at as int));
            assert(ids@.take(at + 1).last() == ids@[at as int]);
        }
        if ids[at] != 0 {
            say(
                notices,
                Notice::Inactive {
                    order_id: ids[at],
                    op,
                    code: Refusal::NOT_CONNECTED,
                    text: text.clone(),
                },
            );
        }
        at = at + 1;
    }
    proof {
        assert(ids@.take(at as int) =~= ids@);
    }
}

fn text_of_leftover(why: &str, request: &OrderRequest) -> (text: String)
    ensures
        text@ == leftover_text(why@, *request),
{
    match request {
        OrderRequest::Cancel { .. } => joined(
            why,
            " before this order's cancellation reached the venue, so the order stands as it was",
        ),
        OrderRequest::Modify { .. } => joined(
            why,
            " before this order's change reached the venue, so the order stands as it was",
        ),
        _ => joined(why, " before this order reached the venue, so it was never placed"),
    }
}

fn op_of(request: &OrderRequest) -> (op: OrderOp)
    ensures
        op == request_op(*request),
{
    match request {
        OrderRequest::Cancel { .. } => OrderOp::Cancel,
        OrderRequest::Modify { .. } => OrderOp::Modify,
        _ => OrderOp::Place,
    }
}

/// Say so for every instruction still waiting when nothing will carry it, and
/// take them all out. `why` states what happened.
pub fn refuse_what_is_left(context: &mut Context, notices: &mut Vec<Notice>, why: &str)
    ensures
        said(final(notices)@) == leftover_said(
            said(old(notices)@),
            old(context).pending_orders@,
            why@,
        ),
        final(context).pending_orders@.len() == 0,
        final(context).orders == old(context).orders,
        final(context).submitted == old(context).submitted,
        final(context).modify_versions == old(context).modify_versions,
        final(context).last_clord == old(context).last_clord,
        final(context).pre_replace == old(context).pre_replace,
        final(context).cancel_attempts == old(context).cancel_attempts,
        final(context).order_destination == old(context).order_destination,
        final(context).slots_to_reconsider == old(context).slots_to_reconsider,
        final(context).slots == old(context).slots,
{
    let mut left: Vec<OrderRequest> = Vec::new();
    std::mem::swap(&mut left, &mut context.pending_orders);
    let mut whole_account: bool = false;
    let mut at: usize = 0;
    proof {
        assert(left@.take(0) =~= Seq::empty());
    }
    while at < left.len()
        invariant
            at <= left@.len(),
            left@ == old(context).pending_orders@,
            said(notices@) == each_leftover(said(old(notices)@), left@.take(at as int), why@),
            whole_account <==> exists|i: int| 0 <= i < at && withdraws_all(#[trigger] left@[i]),
        decreases left@.len() - at,
    {
        let request: &OrderRequest = &left[at];
        proof {
            assert(left@.take(at + 1).drop_last() =~= left@.take(at as int));
            assert(left@.take(at + 1).last() == *request);
        }
        if matches!(request, OrderRequest::CancelAll { .. } | OrderRequest::GlobalCancel { .. }) {
            proof {
                assert(withdraws_all(left@[at as int]));
            }
            whole_account = true;
        }
        let ids: Vec<u64> = request.order_ids();
        let text: String = text_of_leftover(why, request);
        say_each_inactive(notices, &ids, op_of(request), &text);
        at = at + 1;
    }
    proof {
        assert(left@.take(at as int) =~= left@);
    }
    if whole_account {
        say(
            notices,
            Notice::Session {
                code: Refusal::NOT_CONNECTED,
                text: joined(
                    why,
                    " before the withdrawal of every order reached the venue, so whatever the account was working still is",
                ),
            },
        );
    }
}

} // verus!
