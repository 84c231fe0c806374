//! What becomes of the terms a caller stated, and of what a caller withdraws.

use crate::engine::book::Book;
use crate::engine::commands::{Bracket, ControlCommand, Exercise};
use crate::engine::context::Context;
use crate::engine::intake::bracket::bracket_taken;
use crate::engine::intake::cancels::{
    carrying, first_held, named_by, perm_id_names, withdrawal_said, withdraws_by_perm_id,
    withdraws_first,
};
use crate::engine::intake::exercise::{
    exercising_account, is_against, position, standing_in_the_money, InTheMoney,
};
use crate::engine::intake::framing::{framed_as, taken_as, Framing};
use crate::engine::intake::kept::placement_kept;
use crate::engine::intake::lap::as_taken;
use crate::engine::intake::placement::replacement;
use crate::engine::intake::state::IntakeView;
use crate::engine::intake::transmit::{restating, stated_by};
use crate::engine::known::{Known, Said};
use crate::types::attrs::OrderAttrs;
use crate::types::contract::{Contract, OrderTerms};
use crate::types::orders::{InstrumentId, OrderCancel, OrderRequest};
use crate::bits::is_nought;
use crate::text::digits;
use vstd::prelude::*;

verus! {

/// Whether two instructions ask for one thing, whatever else they state: a new
/// order of one number, contract, side, quantity, shape and time in force; or a
/// change of one order to one quantity, price, trigger, type and time in force.
pub open spec fn asks_the_same(one: OrderRequest, other: OrderRequest) -> bool {
    match (one, other) {
        (
            OrderRequest::SubmitEx { order_id, instrument, con_id, side, qty, kind, tif, .. },
            OrderRequest::SubmitEx {
                order_id: order_id2,
                instrument: instrument2,
                con_id: con_id2,
                side: side2,
                qty: qty2,
                kind: kind2,
                tif: tif2,
                ..
            },
        ) => order_id == order_id2 && instrument == instrument2 && con_id == con_id2 && side
            == side2 && qty == qty2 && kind == kind2 && tif == tif2,
        (
            OrderRequest::Modify {
                order_id,
                price,
                qty,
                outside_rth,
                ord_type,
                tif,
                stop_price,
                spec,
            },
            OrderRequest::Modify {
                order_id: order_id2,
                price: price2,
                qty: qty2,
                outside_rth: outside_rth2,
                ord_type: ord_type2,
                tif: tif2,
                stop_price: stop_price2,
                spec: spec2,
            },
        ) => {
            &&& order_id == order_id2 && price == price2 && qty == qty2
            &&& outside_rth == outside_rth2 && ord_type == ord_type2 && tif == tif2
            &&& stop_price == stop_price2
            &&& spec is Some <==> spec2 is Some
            &&& spec is Some ==> spec->0.kind == spec2->0.kind
        },
        _ => one == other,
    }
}

/// Restating what an instruction carries changes nothing it asks for, and it
/// carries what was restated.
pub proof fn a_restated_instruction_asks_the_same(request: OrderRequest, stated: OrderAttrs)
    ensures
        asks_the_same(request, restating(request, stated)),
        stated_by(request) is Some ==> stated_by(restating(request, stated)) == Some(stated),
        stated_by(request) is None ==> restating(request, stated) == request,
{
}

/// An order that is taken asks for what it was built to. It carries the
/// caller's own number and client, the order it hangs from and the family it
/// belongs to, and all else that it stated.
pub proof fn a_taken_order_asks_what_was_built(
    built: OrderRequest,
    taken: OrderRequest,
    held: Option<OrderRequest>,
    framing: Option<Framing>,
    key: Option<String>,
    parent_id: u64,
    identity: (i64, i32),
)
    requires
        taken_as(built, taken, held, framing, key, parent_id, identity),
    ensures
        asks_the_same(built, taken),
        stated_by(built) matches Some(was) ==> stated_by(taken) is Some && {
            let now = stated_by(taken)->0;
            &&& now.parent_id == parent_id
            &&& now.attached is Some
            &&& now.attached->0.api_identity == Some(identity)
            &&& key matches Some(key) ==> now.attached->0.family_key == key
            &&& framing matches Some(framing) ==> now.attached->0.contract_id
                == framing.contract_id && now.attached->0.combo == framing.combo
            &&& framing is None || framing->0.legs is None ==> now.combo_legs == was.combo_legs
            &&& framing is Some && framing->0.legs is Some ==> now.combo_legs
                == framing->0.legs->0
            &&& now.account == was.account
            &&& now.oca_group_str == was.oca_group_str
            &&& now.conditions == was.conditions
            &&& now.what_if == was.what_if
        },
{
}

/// An order generated beside another is framed without changing what it asks
/// for or what it hangs from.
pub proof fn a_framed_order_asks_the_same(
    generated: OrderRequest,
    framed: OrderRequest,
    framing: Framing,
)
    requires
        framed_as(generated, framed, framing),
    ensures
        asks_the_same(generated, framed),
        stated_by(generated) matches Some(was) ==> stated_by(framed) is Some && {
            let now = stated_by(framed)->0;
            &&& now.parent_id == was.parent_id
            &&& now.attached is Some
            &&& now.attached->0.contract_id == framing.contract_id
            &&& now.attached->0.combo == framing.combo
            &&& now.account == was.account
        },
{
}

/// An order that changes one already working names that order, and the
/// quantity, the price, the trigger, the type and the time in force the caller
/// stated, with the shape and the attributes it was built with.
pub proof fn a_change_names_what_was_stated(order: OrderTerms, order_id: u64, built: OrderRequest)
    ensures
        replacement(order, order_id, built) matches OrderRequest::Modify {
            order_id: names,
            price,
            qty,
            outside_rth,
            ord_type,
            tif,
            stop_price,
            spec,
        } && {
            &&& names == order_id
            &&& qty == order.qty
            &&& price == order.replace_price
            &&& stop_price == order.replace_trigger
            &&& outside_rth == order.outside_rth
            &&& ord_type == order.ord_type
            &&& tif == order.tif_byte
            &&& built matches OrderRequest::SubmitEx { kind, attrs, .. } ==> spec is Some
                && spec->0.kind == kind && spec->0.attrs == attrs
        },
{
}

/// A bracket's entry is on the side it was asked for and its exits on the other,
/// each for the bracket's quantity and at its own price. The exits hang from
/// the entry, go together and live until they are cancelled; the numbers follow
/// one another. Nothing else placed here changes.
pub proof fn a_bracket_is_kept_as_asked(
    before: IntakeView,
    after: IntakeView,
    said_before: Seq<Said>,
    said_after: Seq<Said>,
    b: Bracket,
    instrument: InstrumentId,
    legs: (OrderTerms, OrderTerms, OrderTerms),
    other: u64,
)
    requires
        bracket_taken(before, after, said_before, said_after, b, instrument, legs),
        b.parent_id + 2 <= i64::MAX,
        b.parent_id > 0,
        other != b.parent_id && other != b.parent_id + 1 && other != b.parent_id + 2,
    ensures
        ({
            let tp = (b.parent_id + 1) as u64;
            let sl = (b.parent_id + 2) as u64;
            let entry = after.placed[b.parent_id].order;
            let profit = after.placed[tp].order;
            let stop = after.placed[sl].order;
            &&& after.placed.dom().contains(b.parent_id)
            &&& after.placed.dom().contains(tp)
            &&& after.placed.dom().contains(sl)
            &&& after.placed[b.parent_id].instrument == instrument
            &&& after.placed[tp].instrument == instrument
            &&& after.placed[sl].instrument == instrument
            &&& b.side is Buy ==> entry.action@ == "BUY"@ && profit.action@ == "SELL"@
                && stop.action@ == "SELL"@
            &&& b.side is Sell ==> entry.action@ == "SELL"@ && profit.action@ == "BUY"@
                && stop.action@ == "BUY"@
            &&& b.side is ShortSell ==> entry.action@ == "SSHORT"@ && profit.action@ == "BUY"@
                && stop.action@ == "BUY"@
            &&& entry.action@ != profit.action@ && entry.action@ != stop.action@
            &&& entry.qty == b.qty && profit.qty == b.qty && stop.qty == b.qty
            &&& entry.lmt_price == b.entry && profit.lmt_price == b.take_profit
            &&& stop.aux_price == b.stop_loss
            &&& entry.order_type@ == "LMT"@ && profit.order_type@ == "LMT"@ && stop.order_type@
                == "STP"@
            &&& entry.parent_id == 0 && profit.parent_id == b.parent_id && stop.parent_id
                == b.parent_id
            &&& profit.oca_group@ == digits(b.parent_id as nat) && stop.oca_group@ == digits(
                b.parent_id as nat,
            )
            &&& entry.tif@ == "DAY"@ && profit.tif@ == "GTC"@ && stop.tif@ == "GTC"@
            &&& after.placed.dom().contains(other) <==> before.placed.dom().contains(other)
            &&& before.placed.dom().contains(other) ==> after.placed[other] == before.placed[other]
            &&& said_after.len() == said_before.len() + 3
        }),
{
    reveal_strlit("BUY");
    reveal_strlit("SELL");
    reveal_strlit("SSHORT");
    assert("BUY"@.len() == 3 && "SELL"@.len() == 4 && "SSHORT"@.len() == 6);
}

/// What becomes of a withdrawal: one of an order that waited for what is
/// attached to it goes with that; one of an order that was kept ends here; one
/// of an order the venue has finished with, or that no longer works, is
/// refused; one made while the venue still names the account's orders waits;
/// and any other goes to the venue.
pub proof fn a_withdrawal_ends_as_the_order_stands(
    view: IntakeView,
    book: Book,
    order_id: u64,
    waited_attached: bool,
)
    ensures
        ({
            let end = view.withdrawal(book, order_id, waited_attached);
            let kept = placement_kept(view.kept, order_id);
            let finished = book.finished@.contains(order_id);
            let here = !waited_attached && !kept && !finished;
            &&& waited_attached <==> end is WaitedAttached
            &&& !waited_attached && kept <==> end is WasKept
            &&& !waited_attached && !kept && finished <==> end is Finished
            &&& here && book.replay is None <==> end is NotYetKnown
            &&& here && book.replay == Some(false) ==> end is Goes
            &&& end is Goes ==> here && book.replay is Some
            &&& end is NoSuchOrder ==> here && book.replay == Some(true)
            &&& here && book.replay is Some && book.working@.contains(order_id) && !placement_kept(
                view.without_kept_placement(order_id).kept,
                order_id,
            ) ==> end is Goes
        }),
{
}

/// A withdrawal that is refused says so last, as a withdrawal, of the order the
/// caller knows it by; one that goes is never refused.
pub proof fn a_refused_withdrawal_is_told(
    before: Seq<Said>,
    view: IntakeView,
    book: Book,
    known: Known,
    order_id: u64,
    stated: OrderCancel,
    waited_attached: bool,
)
    ensures
        ({
            let said = withdrawal_said(
                before,
                view,
                book,
                known,
                order_id,
                stated,
                waited_attached,
            );
            let end = view.withdrawal(book, order_id, waited_attached);
            let number = if known.attached@.dom().contains(order_id)
                && known.attached@[order_id].api_order_id is Some {
                known.attached@[order_id].api_order_id->0
            } else {
                order_id as i64
            };
            &&& end is Finished || end is NoSuchOrder ==> said.len() > 0 && (
            said.last() matches Said::OrderRefused { id, op, code, .. } && id == number
                && op is Cancel && (end is Finished ==> code == 161) && (end is NoSuchOrder ==> code
                == 135))
            &&& end is WaitedAttached ==> said == before
            &&& end is Goes && stated.manual_order_cancel_time@.len() == 0 ==> said
                == view.said_without_kept(before, order_id)
            &&& end is Goes && stated.manual_order_cancel_time@.len() > 0 ==> said.len() > 0 && (
            said.last() matches Said::Inactive { order_id: of, op, code, .. } && of == order_id
                && op is Cancel && code == 321)
        }),
{
}

proof fn a_carrier_is_open(open: Seq<(u64, i64)>, perm_id: i64, id: u64)
    ensures
        carrying(open, perm_id).contains(id) <==> open.contains((id, perm_id)),
    decreases open.len(),
{
    reveal(Seq::filter);
    let ids = carrying(open, perm_id);
    if open.len() > 0 {
        let less = open.drop_last();
        let last = open.last();
        a_carrier_is_open(less, perm_id, id);
        let fewer = carrying(less, perm_id);
        if last.1 == perm_id {
            assert(ids =~= fewer.push(last.0));
            assert(ids[fewer.len() as int] == last.0);
            if fewer.contains(id) {
                let i = choose|i: int| 0 <= i < fewer.len() && fewer[i] == id;
                assert(ids[i] == id);
            }
            if ids.contains(id) {
                let i = choose|i: int| 0 <= i < ids.len() && ids[i] == id;
                if i < fewer.len() {
                    assert(fewer[i] == id);
                }
            }
        } else {
            assert(ids =~= fewer);
        }
        if less.contains((id, perm_id)) {
            let i = choose|i: int| 0 <= i < less.len() && less[i] == (id, perm_id);
            assert(open[i] == (id, perm_id));
        }
        if open.contains((id, perm_id)) {
            let i = choose|i: int| 0 <= i < open.len() && open[i] == (id, perm_id);
            if i < less.len() {
                assert(less[i] == (id, perm_id));
            }
        }
        assert(open[open.len() - 1] == last);
    } else {
        assert(ids =~= Seq::empty());
    }
}

proof fn the_first_held_is_one_of_them(context: Context, ids: Seq<u64>)
    ensures
        match first_held(context, ids) {
            Some(id) => ids.contains(id) && context.held(id) is Some,
            None => forall|i: int| 0 <= i < ids.len() ==> context.held(#[trigger] ids[i]) is None,
        },
    decreases ids.len(),
{
    if ids.len() > 0 {
        let less = ids.drop_last();
        the_first_held_is_one_of_them(context, less);
        match first_held(context, less) {
            Some(id) => {
                let i = choose|i: int| 0 <= i < less.len() && less[i] == id;
                assert(ids[i] == id);
            },
            None => {
                assert(ids[ids.len() - 1] == ids.last());
                assert forall|i: int|
                    first_held(context, ids) is None && 0 <= i < ids.len() implies context.held(
                    #[trigger] ids[i],
                ) is None by {
                    if i < less.len() {
                        assert(less[i] == ids[i]);
                    }
                }
            },
        }
    }
}

/// The venue's own number names an open order that carries it, wherever one
/// does, and none otherwise. Where an order tracked here carries it, one of
/// those is named.
pub proof fn the_venues_number_names_an_order_that_carries_it(
    book: Book,
    context: Context,
    perm_id: i64,
    id: u64,
)
    ensures
        perm_id_names(book, context, perm_id) matches Some(found) ==> book.open_orders@.contains(
            (found, perm_id),
        ),
        book.open_orders@.contains((id, perm_id)) ==> perm_id_names(book, context, perm_id) is Some,
        book.open_orders@.contains((id, perm_id)) && context.held(id) is Some ==> context.held(
            perm_id_names(book, context, perm_id)->0,
        ) is Some,
        book.replay is Some ==> (withdraws_by_perm_id(book, context, perm_id) is Unknown
            <==> perm_id_names(book, context, perm_id) is None),
        book.replay is None ==> withdraws_by_perm_id(book, context, perm_id) is Waits,
{
    let ids = named_by(book, perm_id);
    let carriers = carrying(book.open_orders@, perm_id);
    the_first_held_is_one_of_them(context, ids);
    a_carrier_is_open(book.open_orders@, perm_id, id);
    let ahead = ids.len() - carriers.len();
    assert forall|i: int| 0 <= i < ids.len() implies carriers.contains(#[trigger] ids[i]) by {
        if i >= ahead {
            assert(ids[i] == carriers[i - ahead]);
        }
    }
    match perm_id_names(book, context, perm_id) {
        Some(found) => {
            a_carrier_is_open(book.open_orders@, perm_id, found);
            assert(ids.contains(found) ==> carriers.contains(found)) by {
                if ids.contains(found) {
                    let i = choose|i: int| 0 <= i < ids.len() && ids[i] == found;
                    assert(carriers.contains(ids[i]));
                }
            }
        },
        None => {},
    }
    if carriers.contains(id) {
        let i = choose|i: int| 0 <= i < carriers.len() && carriers[i] == id;
        assert(ids[ahead + i] == id);
    }
}

/// Withdrawing everything withdraws on every slot there is, and on no other.
pub proof fn withdrawing_everything_names_every_slot(
    request: OrderRequest,
    count: u32,
    stated: OrderCancel,
    instrument: InstrumentId,
)
    requires
        withdraws_first(request, count, stated),
    ensures
        request matches OrderRequest::GlobalCancel { instruments, stated: said } && said == stated
            && (instruments@.contains(instrument) <==> instrument < count),
{
    match request {
        OrderRequest::GlobalCancel { instruments, .. } => {
            if instrument < count {
                assert(instruments@[instrument as int] == instrument);
            }
        },
        _ => {},
    }
}

/// An exercise goes out for the account it names, and for the session's own
/// where it names none.
pub proof fn an_exercise_is_for_the_account_it_names(session: Seq<char>, e: Exercise)
    ensures
        e.account@.len() > 0 ==> exercising_account(session, e) == e.account@,
        e.account@.len() == 0 ==> exercising_account(session, e) == session,
{
}

/// A holding is what the account's own row says, and what the slot says where
/// there is no row.
pub proof fn a_holding_is_what_the_row_says(row: Option<u64>, on_slot: u64)
    ensures
        row matches Some(held) ==> position(row, on_slot) == held,
        row is None ==> position(row, on_slot) == on_slot,
{
}

/// What stands in the money is the venue's first figure, judged by its second,
/// once both are in; a watch that was opened for it is then withdrawn. A watch
/// is opened once, and not by an engine that is stopping.
pub proof fn what_stands_in_the_money_is_what_the_venue_stated(
    watch: Option<i64>,
    figures: Seq<u64>,
    finishing: bool,
)
    ensures
        ({
            let standing = standing_in_the_money(watch, figures, finishing);
            &&& standing matches InTheMoney::Stated { value, attribute, withdraw } ==> figures.len()
                >= 2 && value == figures[0] && attribute == figures[1] && withdraw == watch
            &&& figures.len() >= 2 && watch is None ==> standing is Stated
            &&& figures.len() >= 2 && !is_nought(figures[1]) ==> standing is Stated
            &&& standing is Watch ==> watch is None && !finishing
            &&& figures.len() < 2 && watch is None && !finishing ==> standing is Watch
            &&& figures.len() < 2 && watch is Some ==> standing is Waits
        }),
{
}

/// Where the venue has not judged an option, exercising it goes against the
/// natural action and so does letting it lapse.
pub proof fn an_option_not_judged_stands(value: u64, attribute: u64)
    requires
        is_nought(attribute),
    ensures
        is_against(1, false, value, attribute),
        is_against(2, false, value, attribute),
        !is_against(1, true, value, attribute),
        !is_against(2, true, value, attribute),
{
}

/// An order placed here is recorded as the caller stated it, on its contract and
/// its slot. One recorded before keeps what it hung from and the group it was
/// in. A preview is recorded nowhere, and no other record changes.
pub proof fn an_order_is_recorded_as_stated(
    view: IntakeView,
    order_id: u64,
    order: OrderTerms,
    contract: Contract,
    instrument: InstrumentId,
    other: u64,
)
    requires
        other != order_id,
    ensures
        ({
            let after = view.recording(order_id, order, contract, instrument);
            &&& order.what_if ==> after == view
            &&& !order.what_if ==> {
                let kept = after.placed[order_id];
                &&& after.placed.dom().contains(order_id)
                &&& kept.instrument == instrument
                &&& *kept.contract == contract
                &&& kept.order.order_id == order.order_id
                &&& kept.order.action == order.action
                &&& kept.order.order_type == order.order_type
                &&& kept.order.qty == order.qty
                &&& kept.order.lmt_price == order.lmt_price
                &&& kept.order.aux_price == order.aux_price
                &&& kept.order.tif == order.tif
                &&& !view.placed.dom().contains(order_id) ==> *kept.order == order
                &&& view.placed.dom().contains(order_id) ==> {
                    &&& kept.order.parent_id == view.placed[order_id].order.parent_id
                    &&& kept.order.oca_group == view.placed[order_id].order.oca_group
                    &&& kept.order.oca_type == view.placed[order_id].order.oca_type
                }
            }
            &&& after.placed.dom().contains(other) <==> view.placed.dom().contains(other)
            &&& view.placed.dom().contains(other) ==> after.placed[other] == view.placed[other]
            &&& after.kept == view.kept
            &&& after.waiting == view.waiting
        }),
{
}

/// A number is remembered both ways: the caller's leads to the one that goes
/// out, and that one back. The highest is counted but of a preview. Forgetting
/// the order forgets both ways, and no other number's.
pub proof fn a_number_is_remembered_both_ways(
    view: IntakeView,
    wire: u64,
    api: i64,
    key: Option<String>,
    preview: bool,
    other: u64,
)
    requires
        other != wire,
    ensures
        ({
            let after = view.remembering(wire, api, key, preview).attached;
            &&& after.wire_number(api) == wire
            &&& after.api_number(wire) == api
            &&& after.api_number(other) == view.attached.api_number(other)
            &&& !preview ==> after.highest >= api && after.highest >= view.attached.highest && (
            after.highest == api || after.highest == view.attached.highest)
            &&& preview ==> after.highest == view.attached.highest
            &&& key matches Some(key) ==> after.family_keys.dom().contains(wire)
                && after.family_keys[wire] == key
            &&& key is None ==> after.family_keys == view.attached.family_keys
            &&& after.sent_api_ids == view.attached.sent_api_ids
            &&& !after.discarding(wire).wire_of.dom().contains(api)
            &&& !after.discarding(wire).api_of.dom().contains(wire)
            &&& !after.discarding(wire).family_keys.dom().contains(wire)
            &&& after.discarding(wire).api_number(other) == after.api_number(other)
        }),
{
}

/// A withdrawal is of the order that goes out under the caller's number; any
/// other command is taken as it was made.
pub proof fn a_command_is_taken_as_made(cmd: ControlCommand, book: Book)
    ensures
        cmd matches ControlCommand::CancelOrder { order_id, stated } ==> as_taken(cmd, book) == (
        ControlCommand::CancelOrder {
            order_id: if book.wire_numbers@.dom().contains(order_id as i64) {
                book.wire_numbers@[order_id as i64]
            } else {
                order_id
            },
            stated,
        }),
        !(cmd is CancelOrder) ==> as_taken(cmd, book) == cmd,
{
}

/// Once orders are finished, what changed them is kept no more, and what is
/// placed under their numbers is forgotten. What was never sent stays kept, and
/// so does all else.
pub proof fn the_finished_are_forgotten(view: IntakeView, book: Book, id: u64)
    ensures
        ({
            let after = view.at_the_start(book, true);
            &&& after.placed.dom().contains(id) <==> view.placed.dom().contains(id)
                && !book.finished@.contains(id)
            &&& after.placed.dom().contains(id) ==> after.placed[id] == view.placed[id]
            &&& view.at_the_start(book, false).placed == view.placed
            &&& view.at_the_start(book, false).kept == view.kept
            &&& after.waiting == view.waiting
        }),
{
    assert(book.finished@.to_set().contains(id) <==> book.finished@.contains(id));
}

} // verus!
