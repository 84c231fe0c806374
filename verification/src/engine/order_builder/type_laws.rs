//! What types, origins and instructions are written as, and what a replacement
//! writes into a shape.

use crate::engine::context::Context;
use crate::engine::order_builder::leftover::request_op;
use crate::engine::order_builder::shape::{
    instruction_of, limit_priced, needs_the_placed_record, origin_name, restated, trigger_only,
};
use crate::engine::order_builder::submit::parent_name;
use crate::types::attrs::OrderAttrs;
use crate::types::kinds::{AdaptivePriority, AdjustedOrderType, OrderKind, RiskAversion};
use crate::types::orders::{ord_type_name, OrderRequest, OrderStatus};
use crate::text::digits;
use vstd::prelude::*;

verus! {

/// The instruction each type goes out with: a peg to the market is a P, one to
/// the midpoint an M, one relative to its side an R, and a trail an a, unless
/// the trail goes out under a name of its own. A child's is the one it states,
/// and the other types have none.
pub proof fn a_type_has_its_instruction(kind: OrderKind, trail_as_t: bool)
    ensures
        ({
            let word = instruction_of(kind, trail_as_t);
            &&& kind is PegMkt ==> word == seq!['P']
            &&& kind is PegMid ==> word == seq!['M']
            &&& kind is Rel ==> word == seq!['R']
            &&& kind is TrailingStop || kind is TrailPct ==> (trail_as_t ==> word.len() == 0) && (
            !trail_as_t ==> word == seq!['a'])
            &&& kind matches OrderKind::Attached { exec_inst, .. } ==> word == exec_inst@
            &&& !(kind is PegMkt) && !(kind is PegMid) && !(kind is Rel) && !(kind is TrailingStop)
                && !(kind is TrailPct) && !(kind is Attached) ==> word.len() == 0
        }),
{
    reveal_strlit("P");
    reveal_strlit("M");
    reveal_strlit("R");
    reveal_strlit("a");
    assert("P"@ =~= seq!['P'] && "M"@ =~= seq!['M'] && "R"@ =~= seq!['R'] && "a"@ =~= seq!['a']);
}

/// Each origin has a letter of its own.
pub proof fn an_origin_has_its_letter()
    ensures
        origin_name(0) == seq!['c'],
        origin_name(1) == seq!['f'],
        origin_name(2) == seq!['b'],
        origin_name(3) == seq!['m'],
        origin_name(4) == seq!['n'],
        origin_name(5) == seq!['y'],
        origin_name(8) == seq!['v'],
        origin_name((-1) as i32) == seq!['p'],
        origin_name(9) == seq!['j'],
        forall|origin: i32|
            origin < -1 || origin > 9 || origin == 6 || origin == 7 ==> #[trigger] origin_name(
                origin,
            ) == seq!['?'],
{
    reveal_strlit("c");
    reveal_strlit("f");
    reveal_strlit("b");
    reveal_strlit("m");
    reveal_strlit("n");
    reveal_strlit("y");
    reveal_strlit("v");
    reveal_strlit("p");
    reveal_strlit("j");
    reveal_strlit("?");
    assert("c"@ =~= seq!['c'] && "f"@ =~= seq!['f'] && "b"@ =~= seq!['b'] && "m"@ =~= seq!['m']);
    assert("n"@ =~= seq!['n'] && "y"@ =~= seq!['y'] && "v"@ =~= seq!['v'] && "p"@ =~= seq!['p']);
    assert("j"@ =~= seq!['j'] && "?"@ =~= seq!['?']);
}

/// A child names its parent as a report of the child stated it; otherwise by
/// the name the venue holds the parent under; and not at all where it has none.
pub proof fn a_child_names_its_parent(context: Context, attrs: OrderAttrs)
    ensures
        attrs.attached is Some && attrs.attached->0.parent@.len() > 0 ==> parent_name(context, attrs)
            == Some(attrs.attached->0.parent@),
        (attrs.attached is None || attrs.attached->0.parent@.len() == 0) && attrs.parent_id > 0
            && context.last_clord@.dom().contains(attrs.parent_id) ==> parent_name(context, attrs)
            == Some(context.last_clord@[attrs.parent_id]@),
        (attrs.attached is None || attrs.attached->0.parent@.len() == 0) && attrs.parent_id > 0
            && !context.last_clord@.dom().contains(attrs.parent_id) ==> parent_name(context, attrs)
            == Some(
            digits(attrs.parent_id as nat) + "."@ + digits(
                context.version(attrs.parent_id) as nat,
            ),
        ),
        (attrs.attached is None || attrs.attached->0.parent@.len() == 0) && attrs.parent_id == 0
            ==> parent_name(context, attrs) is None,
{
}

/// What a replacement names is written into the shape: its price as the limit
/// offset or the cap, and its trigger as the trail or the offset.
pub proof fn what_is_named_is_written_in(kind: OrderKind, price: i64, trigger: i64)
    ensures
        ({
            let again = restated(kind, price, trigger);
            &&& again matches OrderKind::TrailingStop { trail_amt, .. } ==> trigger != 0
                ==> trail_amt == trigger
            &&& again matches OrderKind::TrailingStopLimit { lmt_offset, trail_amt, .. } ==> (price
                != 0 ==> lmt_offset == price) && (trigger != 0 ==> trail_amt == trigger)
            &&& again matches OrderKind::Rel { offset, price_cap } ==> (price != 0 ==> price_cap
                == price) && (trigger != 0 ==> offset == trigger)
            &&& again matches OrderKind::SnapMkt { offset } ==> trigger != 0 ==> offset == trigger
            &&& again matches OrderKind::SnapMid { offset } ==> trigger != 0 ==> offset == trigger
            &&& again matches OrderKind::SnapPri { offset } ==> trigger != 0 ==> offset == trigger
            &&& again matches OrderKind::PegMkt { offset, price_cap } ==> (price != 0 ==> price_cap
                == price) && (trigger != 0 ==> offset == trigger)
            &&& again matches OrderKind::PegMid { offset, price_cap } ==> (price != 0 ==> price_cap
                == price) && (trigger != 0 ==> offset == trigger)
            &&& again matches OrderKind::PassiveRel { offset, price_cap } ==> (price != 0
                ==> price_cap == price) && (trigger != 0 ==> offset == trigger)
            &&& again matches OrderKind::MidPrice { price_cap } ==> price != 0 ==> price_cap
                == price
            &&& kind is TrailingStop <==> again is TrailingStop
            &&& kind is Rel <==> again is Rel
            &&& kind is PegMkt <==> again is PegMkt
            &&& kind is PegMid <==> again is PegMid
            &&& kind is Limit || kind is Market || kind is Stop || kind is StopLimit || kind is Loc
                || kind is Moc || kind is Algo || kind is Adaptive ==> again == kind
        }),
{
}

/// The types that state a limit, those that are all trigger, and those a
/// replacement cannot restate without the record of how they were placed.
pub proof fn a_type_states_what_it_needs(ord_type: u8)
    ensures
        limit_priced(ord_type) <==> ord_type == 50 || ord_type == 52 || ord_type == 66 || ord_type
            == 128 || ord_type == 138,
        trigger_only(ord_type) <==> ord_type == 51 || ord_type == 74 || ord_type == 129,
        needs_the_placed_record(ord_type) <==> ord_type == 80 || ord_type == 84 || (130 <= ord_type
            <= 138),
{
}

/// The names types without a character of their own go out under; the others
/// go out as their character.
pub proof fn a_tracked_type_goes_out_under_its_name(ord_type: u8)
    ensures
        ord_type_name(128) == seq!['L', 'T'],
        ord_type_name(129) == seq!['S', 'P'],
        ord_type_name(130) == seq!['T', 'S', 'L'],
        ord_type_name(131) == seq!['P'],
        ord_type_name(132) == seq!['P'],
        ord_type_name(133) == seq!['P', 'B'],
        ord_type_name(134) == seq!['S', 'M', 'K', 'T'],
        ord_type_name(135) == seq!['S', 'M', 'I', 'D'],
        ord_type_name(136) == seq!['S', 'R', 'E', 'L'],
        ord_type_name(137) == seq!['P', 'S', 'V', 'R'],
        ord_type_name(138) == seq!['E', '2', 'M'],
        ord_type_name(139) == seq!['M', 'I', 'D', 'P', 'X'],
        ord_type < 128 ==> ord_type_name(ord_type) == seq![ord_type as char],
{
    crate::engine::order_builder::submit_laws::the_letters_of_names();
}

/// What an instruction was is what it is said to have been.
pub proof fn an_instruction_is_said_as_what_it_was(request: OrderRequest)
    ensures
        request is Cancel <==> request_op(request) is Cancel,
        request is Modify <==> request_op(request) is Modify,
        request is SubmitEx || request is SubmitBracket ==> request_op(request) is Place,
{
}

/// An order that is filled, cancelled or rejected trades no more; any other may.
pub proof fn an_order_trades_until_it_ends(status: OrderStatus)
    ensures
        status.terminal() <==> status is Filled || status is Cancelled || status is Rejected,
{
}

/// An instruction is addressed by the order it names, and names each order it
/// is about.
pub proof fn an_instruction_names_its_orders(request: OrderRequest)
    ensures
        request matches OrderRequest::SubmitEx { order_id, .. } ==> request.id() == order_id
            && request.ids() == seq![order_id] && request.places(),
        request matches OrderRequest::Modify { order_id, .. } ==> request.id() == order_id
            && request.ids() == seq![order_id] && !request.places(),
        request matches OrderRequest::Cancel { order_id, .. } ==> request.id() == order_id
            && request.ids() == seq![order_id] && !request.places(),
        request matches OrderRequest::SubmitBracket { parent_id, tp_id, sl_id, .. } ==> request.id()
            == parent_id && request.ids() == seq![parent_id, tp_id, sl_id] && request.places(),
        request is CancelAll || request is GlobalCancel ==> request.id() == 0 && request.ids().len()
            == 0 && !request.places(),
{
}

/// How urgent, how averse to risk and of what type are spelled each its own way.
pub proof fn each_word_is_spelled_its_own_way()
    ensures
        AdaptivePriority::Urgent.spelled() == "Urgent"@,
        AdaptivePriority::Normal.spelled() == "Normal"@,
        AdaptivePriority::Patient.spelled() == "Patient"@,
        RiskAversion::GetDone.spelled() == "Get Done"@,
        RiskAversion::Aggressive.spelled() == "Aggressive"@,
        RiskAversion::Neutral.spelled() == "Neutral"@,
        RiskAversion::Passive.spelled() == "Passive"@,
        AdjustedOrderType::Stop.code() == seq!['3'],
        AdjustedOrderType::StopLimit.code() == seq!['4'],
        AdjustedOrderType::Trail.code() == seq!['T'],
        AdjustedOrderType::TrailLimit.code() == seq!['T', 'S', 'L'],
{
    crate::engine::order_builder::submit_laws::the_letters_of_names();
}

} // verus!
