//! What is told of the commands that never reached the venue.

use crate::engine::book::Book;
use crate::engine::commands::{ControlCommand, Pending};
use crate::engine::intake::naming::{naming_goes, Naming, OrderNamed};
use crate::engine::intake::refuse::{each_refused, refused_said};
use crate::engine::intake::state::IntakeView;
use crate::engine::known::Said;
use crate::types::contract::Contract;
use vstd::prelude::*;

verus! {

/// A refused command is told to the order it was about, as what it was: a new
/// order as never placed, a change and a withdrawal as ones that left the order
/// standing, an exercise under the number its caller gave it, and a bracket to
/// each of its three orders. What was said before stays said.
pub proof fn a_refused_command_is_told_to_its_order(
    before: Seq<Said>,
    view: IntakeView,
    book: Book,
    cmd: ControlCommand,
    why: Seq<char>,
)
    ensures
        ({
            let after = refused_said(before, view, book, cmd, why);
            let at = before.len() as int;
            &&& after.len() >= before.len()
            &&& after.take(at) == before
            &&& cmd matches ControlCommand::Place(p) ==> after.len() == at + 1 && (
            after[at] matches Said::Inactive { order_id, op, code, .. } && order_id == p.order_id
                && code == 504 && (view.works(book, p.order_id) ==> op is Modify) && (!view.works(
                book,
                p.order_id,
            ) ==> op is Place))
            &&& cmd matches ControlCommand::CancelOrder { order_id: of, .. } ==> after.len() == at
                + 1 && (after[at] matches Said::Inactive { order_id, op, code, .. } && order_id == of
                && code == 504 && op is Cancel)
            &&& cmd matches ControlCommand::Exercise(e) ==> after.len() == at + 1 && (
            after[at] matches Said::OrderRefused { id, op, code, .. } && id == e.req_id && code
                == 504 && op is Exercise)
            &&& cmd matches ControlCommand::Bracket(b) ==> after.len() == at + 3 && (b.parent_id + 2
                <= u64::MAX ==> (forall|k: int|
                0 <= k < 3 ==> (#[trigger] after[at + k] matches Said::Inactive {
                    order_id,
                    op,
                    code,
                    ..
                } && order_id == b.parent_id + k && code == 504 && op is Place)))
            &&& cmd is CancelOrderByPermId || cmd is GlobalCancel ==> after.len() == at + 1 && (
            after[at] matches Said::Session { code, .. } && code == 504)
            &&& cmd is Subscribe || cmd is Order ==> after == before
        }),
{
    let after = refused_said(before, view, book, cmd, why);
    assert(after.take(before.len() as int) =~= before);
}

/// Every command that is refused is told, and none in place of another: each
/// says what it would say alone.
pub proof fn every_refused_command_is_told(
    before: Seq<Said>,
    view: IntakeView,
    book: Book,
    commands: Seq<Pending>,
    why: Seq<char>,
    at: int,
    one: Said,
)
    requires
        0 <= at < commands.len(),
        refused_said(Seq::empty(), view, book, commands[at].cmd, why).contains(one),
    ensures
        each_refused(before, view, book, commands, why).contains(one),
    decreases commands.len(),
{
    let less = commands.drop_last();
    let earlier = each_refused(before, view, book, less, why);
    let all = each_refused(before, view, book, commands, why);
    let alone = refused_said(Seq::empty(), view, book, commands.last().cmd, why);
    assert(all =~= earlier + alone);
    if at == commands.len() - 1 {
        let i = choose|i: int| 0 <= i < alone.len() && alone[i] == one;
        assert(all[earlier.len() + i] == one);
    } else {
        assert(less[at] == commands[at]);
        every_refused_command_is_told(before, view, book, less, why, at, one);
        let i = choose|i: int| 0 <= i < earlier.len() && earlier[i] == one;
        assert(all[i] == one);
    }
}

/// A contract the venue answered for is the one it answered, under the number
/// it gave, and stands for the next order that describes it so. A description
/// answered for before is not asked for again. One the venue cannot name is
/// refused in its words.
pub proof fn a_contract_is_named_as_the_venue_answered(
    before: IntakeView,
    after: IntakeView,
    answers: Seq<(u32, OrderNamed)>,
    left: Seq<(u32, OrderNamed)>,
    contract: Contract,
    named: Contract,
    lookup: Option<u32>,
    next: Option<u32>,
    naming: Naming,
)
    requires
        naming_goes(before, after, answers, left, contract, named, lookup, next, naming),
    ensures
        ({
            let key = contract.naming_key();
            &&& before.named.dom().contains(key) ==> naming is Named && named.con_id
                == before.named[key].con_id && named.symbol == before.named[key].symbol
            &&& naming is Named ==> after.named.dom().contains(key) && named.con_id
                == after.named[key].con_id
            &&& naming is Ask ==> lookup is None && !before.naming.dom().contains(key)
                && !before.named.dom().contains(key)
            &&& !(naming is Named) ==> named == contract
            &&& naming is Refused ==> lookup is Some && after.unnamed.dom().contains(lookup->0)
                && after.unnamed[lookup->0] == naming->Refused_0
            &&& after.placed == before.placed && after.kept == before.kept && after.waiting
                == before.waiting && after.attached == before.attached
        }),
{
}

/// What a command acts on is what it needs: its own numbers and, for an order
/// that hangs from another, that one too. An order's own are its number and
/// those of the orders attached to it; a bracket's are three in a row.
pub proof fn a_command_needs_what_it_acts_on(cmd: ControlCommand, id: u64)
    ensures
        cmd.own_numbers().contains(id) ==> cmd.needs().contains(id),
        cmd matches ControlCommand::Place(p) ==> cmd.own_numbers().contains(p.order_id) && (
        p.order.parent_id > 0 ==> cmd.needs().contains(p.order.parent_id as u64)) && (
        p.order.pt_order_id is Some ==> cmd.own_numbers().contains(p.order.pt_order_id->0 as u64))
            && (p.order.sl_order_id is Some ==> cmd.own_numbers().contains(
            p.order.sl_order_id->0 as u64,
        )),
        cmd matches ControlCommand::CancelOrder { order_id, .. } ==> cmd.own_numbers() == seq![
            order_id,
        ],
        cmd matches ControlCommand::Bracket(b) ==> cmd.own_numbers().len() == 3
            && cmd.own_numbers()[0] == b.parent_id && (b.parent_id + 2 <= u64::MAX
            ==> cmd.own_numbers()[1] == b.parent_id + 1 && cmd.own_numbers()[2] == b.parent_id + 2),
        cmd matches ControlCommand::Exercise(e) ==> (e.unnumbered ==> cmd.own_numbers().len() == 0)
            && (!e.unnumbered ==> cmd.own_numbers() == seq![e.order_id]),
{
    let own = cmd.own_numbers();
    let needs = cmd.needs();
    if own.contains(id) {
        let i = choose|i: int| 0 <= i < own.len() && own[i] == id;
        assert(needs[i] == id);
    }
    match cmd {
        ControlCommand::Place(p) => {
            assert(own[0] == p.order_id);
            if p.order.parent_id > 0 {
                assert(needs[own.len() as int] == p.order.parent_id as u64);
            }
            if p.order.pt_order_id is Some {
                assert(own[1] == p.order.pt_order_id->0 as u64);
            }
            if p.order.sl_order_id is Some {
                assert(own[own.len() - 1] == p.order.sl_order_id->0 as u64);
            }
        },
        _ => {},
    }
}

} // verus!
