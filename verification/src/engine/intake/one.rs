//! Taking one order command.

use crate::engine::book::Book;
use crate::engine::commands::{about_orders, ControlCommand};
use crate::engine::context::Context;
use crate::engine::intake::cancels::{
    not_covered_text, take_cancel, take_cancel_by_perm_id, take_global_cancel, withdrawal_said,
    withdraws_by_perm_id, withdraws_first, ByPermId, Step,
};
use crate::engine::intake::state::Intake;
use crate::engine::known::{said, Known, Notice, Said};
use crate::error_codes::NO_SUCH_ORDER;
use crate::text::decimal;
use crate::types::orders::OrderRequest;
use vstd::prelude::*;

verus! {

/// What a command that is taken comes to.
#[derive(Clone, Copy, Debug, PartialEq, Eq, Structural)]
pub enum Next {
    /// It is done: sent, kept, refused or withdrawn.
    Done,
    /// It waits.
    Waits,
    /// It withdraws the order of this number, which one of the venue's own
    /// numbers names.
    Withdraw { order_id: u64 },
    /// It is an order to place.
    Place,
    /// It is an option to exercise.
    Exercise,
    /// It is an entry with its exits.
    Bracket,
}

/// What a step comes to.
pub open spec fn next_of(step: Step) -> Next {
    match step {
        Step::Done => Next::Done,
        Step::Waits => Next::Waits,
    }
}

fn as_next(step: Step) -> (next: Next)
    ensures
        next == next_of(step),
{
    match step {
        Step::Done => Next::Done,
        Step::Waits => Next::Waits,
    }
}

/// Take one order command: the withdrawals are made here, and an order, an
/// exercise or a bracket is asked its own questions. `waited_attached` says
/// whether the order a withdrawal names waited for what is attached to it and
/// was withdrawn there.
pub fn take_one(
    intake: &mut Intake,
    context: &mut Context,
    notices: &mut Vec<Notice>,
    book: &Book,
    known: &Known,
    cmd: &ControlCommand,
    waited_attached: bool,
    instrument_count: u32,
) -> (next: Next)
    requires
        about_orders(*cmd),
    ensures
        final(context).same_but_pending(*old(context)),
        match *cmd {
            ControlCommand::CancelOrder { order_id, stated } => {
                let becomes = old(intake)@.withdrawal(*book, order_id, waited_attached);
                &&& next == (if becomes is NotYetKnown {
                    Next::Waits
                } else {
                    Next::Done
                })
                &&& final(intake)@ == (if waited_attached {
                    old(intake)@
                } else {
                    old(intake)@.without_kept_placement(order_id)
                })
                &&& said(final(notices)@) == withdrawal_said(
                    said(old(notices)@),
                    old(intake)@,
                    *book,
                    *known,
                    order_id,
                    stated,
                    waited_attached,
                )
                &&& final(context).pending_orders@ == (if becomes is Goes {
                    old(context).pending_orders@.push(OrderRequest::Cancel { order_id, stated })
                } else {
                    old(context).pending_orders@
                })
            },
            ControlCommand::CancelOrderByPermId { perm_id } => {
                &&& final(context).pending_orders@ == old(context).pending_orders@
                &&& match withdraws_by_perm_id(*book, *old(context), perm_id) {
                    ByPermId::Waits => {
                        &&& next == Next::Waits
                        &&& final(intake)@ == old(intake)@
                        &&& said(final(notices)@) == said(old(notices)@)
                    },
                    ByPermId::Unknown => {
                        &&& next == Next::Done
                        &&& final(intake)@ == old(intake)@
                        &&& said(final(notices)@) == said(old(notices)@).push(
                            Said::Session {
                                code: NO_SUCH_ORDER,
                                text: "cancel_order_by_perm_id: permId "@ + decimal(
                                    perm_id as int,
                                ) + " not found in open orders"@,
                            },
                        )
                    },
                    ByPermId::Withdraws(order_id) => {
                        &&& next == (Next::Withdraw { order_id })
                        &&& final(intake)@ == old(intake)@.without_kept_placement(order_id)
                        &&& said(final(notices)@) == old(intake)@.said_without_kept(
                            said(old(notices)@),
                            order_id,
                        )
                    },
                }
            },
            ControlCommand::GlobalCancel { stated } => {
                let sent = final(context).pending_orders@;
                let queued = old(context).pending_orders@;
                &&& next == (if book.replay is None {
                    Next::Waits
                } else {
                    Next::Done
                })
                &&& final(intake)@ == old(intake)@
                &&& if book.replay is None || instrument_count == 0 {
                    sent == queued
                } else {
                    &&& sent.len() == queued.len() + 1
                    &&& sent.drop_last() == queued
                    &&& withdraws_first(sent.last(), instrument_count, stated)
                }
                &&& said(final(notices)@) == (if book.replay == Some(false)
                    && book.naming_began {
                    said(old(notices)@).push(
                        Said::Session { code: -1i32, text: not_covered_text(instrument_count) },
                    )
                } else {
                    said(old(notices)@)
                })
            },
            _ => {
                &&& next == (match *cmd {
                    ControlCommand::Place(_) => Next::Place,
                    ControlCommand::Exercise(_) => Next::Exercise,
                    _ => Next::Bracket,
                })
                &&& final(intake)@ == old(intake)@
                &&& final(context).pending_orders@ == old(context).pending_orders@
                &&& said(final(notices)@) == said(old(notices)@)
            },
        },
{
    match cmd {
        ControlCommand::CancelOrder { order_id, stated } => as_next(
            take_cancel(
                intake,
                &mut context.pending_orders,
                notices,
                book,
                known,
                *order_id,
                stated,
                waited_attached,
            ),
        ),
        ControlCommand::CancelOrderByPermId { perm_id } => match take_cancel_by_perm_id(
            intake,
            context,
            notices,
            book,
            *perm_id,
        ) {
            ByPermId::Waits => Next::Waits,
            ByPermId::Unknown => Next::Done,
            ByPermId::Withdraws(order_id) => Next::Withdraw { order_id },
        },
        ControlCommand::GlobalCancel { stated } => as_next(
            take_global_cancel(
                &mut context.pending_orders,
                notices,
                book,
                instrument_count,
                stated,
            ),
        ),
        ControlCommand::Place(_) => Next::Place,
        ControlCommand::Exercise(_) => Next::Exercise,
        _ => Next::Bracket,
    }
}

} // verus!
