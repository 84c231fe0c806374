//! Order commands the engine will not carry.

use crate::engine::book::Book;
use crate::engine::commands::{about_orders, ControlCommand, Pending};
use crate::engine::intake::state::{all_admitted, Intake, IntakeView};
use crate::engine::intake::withdraw::{all_but, all_picked, picked, take_out, Which};
use crate::engine::known::{said, say, Notice, Said};
use crate::error_codes::Refusal;
use crate::text::{decimal, int_text, joined, joined3};
use crate::types::orders::OrderOp;
use vstd::prelude::*;

verus! {

/// The refusal of a contract whose number a request cannot carry, which would
/// be answered for a different contract.
pub open spec fn beyond_the_wire_text(con_id: i64) -> Seq<char> {
    "contract "@ + decimal(con_id as int)
        + " is numbered beyond what a request carries it in, so this one would be answered for a different contract"@
}

/// A number the wire cannot carry names a different contract.
pub fn beyond_the_wire(con_id: i64) -> (why: Option<Refusal>)
    ensures
        why is Some <==> !(0 <= con_id <= u32::MAX),
        why matches Some(why) ==> why.is(321, beyond_the_wire_text(con_id)),
{
    if con_id < 0 || con_id > u32::MAX as i64 {
        Some(
            Refusal::validation(
                joined3(
                    "contract ",
                    int_text(con_id).as_str(),
                    " is numbered beyond what a request carries it in, so this one would be answered for a different contract",
                ).as_str(),
            ),
        )
    } else {
        None
    }
}

/// What is said of an order that was never placed.
pub open spec fn never_placed(why: Seq<char>) -> Seq<char> {
    why + " before this order reached the venue, so it was never placed"@
}

/// What is said of a change or a withdrawal that did not reach the venue.
pub open spec fn stands(why: Seq<char>, what: Seq<char>) -> Seq<char> {
    why + (" before this order's "@ + what + " reached the venue, so the order stands as it was"@)
}

/// What is said of a command the engine will not carry, under what it names.
pub open spec fn refused_said(
    before: Seq<Said>,
    view: IntakeView,
    book: Book,
    cmd: ControlCommand,
    why: Seq<char>,
) -> Seq<Said> {
    let inactive = |order_id: u64, op: OrderOp, text: Seq<char>|
        Said::Inactive { order_id, op, code: 504, text };
    match cmd {
        ControlCommand::Place(p) => if view.works(book, p.order_id) {
            before.push(inactive(p.order_id, OrderOp::Modify, stands(why, "change"@)))
        } else {
            before.push(inactive(p.order_id, OrderOp::Place, never_placed(why)))
        },
        ControlCommand::CancelOrder { order_id, .. } => before.push(
            inactive(order_id, OrderOp::Cancel, stands(why, "cancellation"@)),
        ),
        ControlCommand::Exercise(e) => before.push(
            Said::OrderRefused {
                id: e.req_id,
                op: OrderOp::Exercise,
                code: 504,
                text: never_placed(why),
            },
        ),
        ControlCommand::Bracket(b) => before.push(
            inactive(b.parent_id, OrderOp::Place, never_placed(why)),
        ).push(
            inactive((b.parent_id + 1) as u64, OrderOp::Place, never_placed(why)),
        ).push(inactive((b.parent_id + 2) as u64, OrderOp::Place, never_placed(why))),
        ControlCommand::CancelOrderByPermId { .. } => before.push(
            Said::Session { code: 504, text: stands(why, "cancellation"@) },
        ),
        ControlCommand::GlobalCancel { .. } => before.push(
            Said::Session {
                code: 504,
                text: why
                    + " before the withdrawal of every order reached the venue, so whatever the account was working still is"@,
            },
        ),
        _ => before,
    }
}

fn stands_text(why: &str, what: &str) -> (text: String)
    ensures
        text@ == stands(why@, what@),
{
    joined(
        why,
        joined3(
            " before this order's ",
            what,
            " reached the venue, so the order stands as it was",
        ).as_str(),
    )
}

/// Refuse an order command the engine will not carry, under what it names.
pub fn refuse_order_command(
    intake: &Intake,
    book: &Book,
    notices: &mut Vec<Notice>,
    cmd: &ControlCommand,
    why: &str,
)
    requires
        about_orders(*cmd),
        cmd.numbered(),
    ensures
        said(final(notices)@) == refused_said(said(old(notices)@), intake@, *book, *cmd, why@),
{
    let never: String = joined(
        why,
        " before this order reached the venue, so it was never placed",
    );
    let code: i32 = Refusal::NOT_CONNECTED;
    match cmd {
        ControlCommand::Place(p) => {
            if intake.working(book, p.order_id) {
                let text: String = stands_text(why, "change");
                say(
                    notices,
                    Notice::Inactive { order_id: p.order_id, op: OrderOp::Modify, code, text },
                );
            } else {
                say(
                    notices,
                    Notice::Inactive {
                        order_id: p.order_id,
                        op: OrderOp::Place,
                        code,
                        text: never,
                    },
                );
            }
        },
        ControlCommand::CancelOrder { order_id, .. } => {
            let text: String = stands_text(why, "cancellation");
            say(
                notices,
                Notice::Inactive { order_id: *order_id, op: OrderOp::Cancel, code, text },
            );
        },
        ControlCommand::Exercise(e) => {
            say(
                notices,
                Notice::OrderRefused { id: e.req_id, op: OrderOp::Exercise, code, text: never },
            );
        },
        ControlCommand::Bracket(b) => {
            let op: OrderOp = OrderOp::Place;
            say(
                notices,
                Notice::Inactive { order_id: b.parent_id, op, code, text: never.clone() },
            );
            say(
                notices,
                Notice::Inactive { order_id: b.parent_id + 1, op, code, text: never.clone() },
            );
            say(notices, Notice::Inactive { order_id: b.parent_id + 2, op, code, text: never });
        },
        ControlCommand::CancelOrderByPermId { .. } => {
            let text: String = stands_text(why, "cancellation");
            say(notices, Notice::Session { code, text });
        },
        ControlCommand::GlobalCancel { .. } => {
            let text: String = joined(
                why,
                " before the withdrawal of every order reached the venue, so whatever the account was working still is",
            );
            say(notices, Notice::Session { code, text });
        },
        _ => {},
    }
}

/// What is said of each of a list of commands the engine will not carry.
pub open spec fn each_refused(
    before: Seq<Said>,
    view: IntakeView,
    book: Book,
    commands: Seq<Pending>,
    why: Seq<char>,
) -> Seq<Said>
    decreases commands.len(),
{
    if commands.len() == 0 {
        before
    } else {
        refused_said(
            each_refused(before, view, book, commands.drop_last(), why),
            view,
            book,
            commands.last().cmd,
            why,
        )
    }
}

fn refuse_each(
    intake: &Intake,
    book: &Book,
    notices: &mut Vec<Notice>,
    commands: &Vec<Pending>,
    why: &str,
)
    requires
        all_admitted(commands@),
    ensures
        said(final(notices)@) == each_refused(
            said(old(notices)@),
            intake@,
            *book,
            commands@,
            why@,
        ),
{
    let mut at: usize = 0;
    proof {
        assert(commands@.take(0) =~= Seq::empty());
    }
    while at < commands.len()
        invariant
            at <= commands@.len(),
            all_admitted(commands@),
            said(notices@) == each_refused(
                said(old(notices)@),
                intake@,
                *book,
                commands@.take(at as int),
                why@,
            ),
        decreases commands@.len() - at,
    {
        proof {
            assert(commands@.take(at + 1).drop_last() =~= commands@.take(at as int));
            assert(commands@.take(at + 1).last() == commands@[at as int]);
        }
        refuse_order_command(intake, book, notices, &commands[at].cmd, why);
        at = at + 1;
    }
    proof {
        assert(commands@.take(at as int) =~= commands@);
    }
}

/// Refuse every order command still waiting, with the words a stop says them
/// in.
pub fn refuse_held_order_commands(
    intake: &mut Intake,
    book: &Book,
    notices: &mut Vec<Notice>,
    why: &str,
)
    requires
        all_admitted(old(intake)@.waiting),
    ensures
        final(intake)@ == (IntakeView {
            waiting: Seq::empty(),
            waiting_ids: Seq::empty(),
            ..old(intake)@
        }),
        said(final(notices)@) == each_refused(
            said(old(notices)@),
            final(intake)@,
            *book,
            old(intake)@.waiting,
            why@,
        ),
{
    intake.waiting_ids = Vec::new();
    let mut commands: Vec<Pending> = Vec::new();
    std::mem::swap(&mut commands, &mut intake.waiting);
    refuse_each(intake, book, notices, &commands, why);
}

/// The watches of a list of commands.
pub open spec fn watches_of(commands: Seq<Pending>) -> Seq<i64> {
    commands.filter(|pending: Pending| pending.watch is Some).map_values(
        |pending: Pending| pending.watch->Some_0,
    )
}

fn watches(commands: &Vec<Pending>) -> (list: Vec<i64>)
    ensures
        list@ == watches_of(commands@),
{
    let mut list: Vec<i64> = Vec::new();
    let mut at: usize = 0;
    let ghost all = commands@;
    let ghost watching = |pending: Pending| pending.watch is Some;
    let ghost number = |pending: Pending| pending.watch->Some_0;
    proof {
        reveal(Seq::filter);
        assert(all.take(0) =~= Seq::empty());
        assert(list@ =~= all.take(0).filter(watching).map_values(number));
    }
    while at < commands.len()
        invariant
            at <= all.len(),
            all == commands@,
            watching == (|pending: Pending| pending.watch is Some),
            number == (|pending: Pending| pending.watch->Some_0),
            list@ == all.take(at as int).filter(watching).map_values(number),
        decreases all.len() - at,
    {
        let ghost before = all.take(at as int).filter(watching);
        proof {
            reveal(Seq::filter);
            assert(all.take(at + 1).drop_last() =~= all.take(at as int));
            assert(all.take(at + 1).last() == all[at as int]);
        }
        match commands[at].watch {
            Some(open) => {
                list.push(open);
                proof {
                    assert(before.push(all[at as int]).map_values(number) =~= before.map_values(
                        number,
                    ).push(open));
                }
            },
            None => {},
        }
        at = at + 1;
    }
    proof {
        assert(all.take(at as int) =~= all);
    }
    list
}

/// Refuse, with the stop's words, every exercise still watching for its
/// option's standing in the money, and give the watches to withdraw. A gateway
/// sets no bound on that wait, so a stop does not wait for it.
pub fn refuse_exercises_watching(
    intake: &mut Intake,
    book: &Book,
    notices: &mut Vec<Notice>,
    why: &str,
) -> (open: Vec<i64>)
    requires
        all_admitted(old(intake)@.waiting),
    ensures
        final(intake)@ == (IntakeView {
            waiting: all_but(old(intake)@.waiting, Which::Watching),
            ..old(intake)@
        }),
        open@ == watches_of(all_picked(old(intake)@.waiting, Which::Watching)),
        said(final(notices)@) == each_refused(
            said(old(notices)@),
            final(intake)@,
            *book,
            all_picked(old(intake)@.waiting, Which::Watching),
            why@,
        ),
{
    let ghost waiting = intake@.waiting;
    let commands: Vec<Pending> = take_out(&mut intake.waiting, Which::Watching);
    proof {
        let watching = |pending: Pending| picked(Which::Watching, pending);
        assert forall|i: int| 0 <= i < commands@.len() implies (#[trigger] commands@[i]).cmd.numbered()
            && about_orders(commands@[i].cmd) by {
            waiting.lemma_filter_contains_rev(watching, commands@[i]);
            let j = choose|j: int| 0 <= j < waiting.len() && waiting[j] == commands@[i];
            assert(waiting[j].cmd.numbered());
        }
    }
    refuse_each(intake, book, notices, &commands, why);
    watches(&commands)
}

} // verus!
