//! What the legs of a bracket are stated and tracked as.

use crate::engine::context::Context;
use crate::engine::known::Known;
use crate::engine::order_builder::bracket::{bracket_fields, leg_held, BracketOrder, Leg};
use crate::engine::order_builder::cancel::revision_name;
use crate::engine::order_builder::fields::Stated;
use crate::engine::order_builder::identity::currency_stated;
use crate::engine::order_builder::shape::side_code;
use crate::engine::order_builder::submit_laws::{
    an_identity_keeps, identity_tag, side_text, the_letters_of_names,
};
use crate::engine::order_builder::wire::{
    a_tag_stated_nowhere, a_tag_stated_once, group_said, says, silent, texts_under,
};
use crate::text::{digits, price_text, qty_text};
use crate::types::kinds::{OrderKind, Side};
use crate::types::orders::byte_text;
use vstd::prelude::*;

verus! {

spec fn leg_start(
    context: Context,
    known: Known,
    session: Seq<char>,
    bracket: BracketOrder,
    leg: Leg,
    now: Seq<char>,
) -> Stated {
    let order = bracket.leg_order(leg);
    let routing = context.routing(bracket.instrument);
    seq![
        (35u32, "D"@),
        (52u32, now),
        (11u32, revision_name(order.order_id, 0)),
        (1u32, session),
        (55u32, context.symbol(bracket.instrument)),
        (54u32, side_code(order.side)),
        (38u32, qty_text(bracket.qty as int)),
        (40u32, byte_text(order.ord_type)),
        (
            if leg is StopLoss {
                99u32
            } else {
                44u32
            },
            price_text(order.price as int),
        ),
        (59u32, byte_text(order.tif)),
        (60u32, now),
        (167u32, routing.0),
        (100u32, routing.1),
        (6210u32, routing.1),
        (15u32, currency_stated(context, known, bracket.instrument)),
        (204u32, "0"@),
        (6122u32, "c"@),
    ]
}

#[verifier::spinoff_prover]
proof fn a_leg_keeps(
    context: Context,
    known: Known,
    session: Seq<char>,
    bracket: BracketOrder,
    leg: Leg,
    now: Seq<char>,
    tag: u32,
)
    requires
        !identity_tag(tag),
    ensures
        tag != 6107 && tag != 583 && tag != 6209 ==> texts_under(
            bracket_fields(context, known, session, bracket, leg, now),
            tag,
        ) == texts_under(leg_start(context, known, session, bracket, leg, now), tag),
        leg is Entry ==> texts_under(
            bracket_fields(context, known, session, bracket, leg, now),
            tag,
        ) == texts_under(leg_start(context, known, session, bracket, leg, now), tag),
        !(leg is Entry) && tag == 6107 ==> texts_under(
            bracket_fields(context, known, session, bracket, leg, now),
            tag,
        ) == texts_under(leg_start(context, known, session, bracket, leg, now), tag).push(
            revision_name(bracket.parent_id, 0),
        ),
        !(leg is Entry) && tag == 583 ==> texts_under(
            bracket_fields(context, known, session, bracket, leg, now),
            tag,
        ) == texts_under(leg_start(context, known, session, bracket, leg, now), tag).push(
            bracket.group(),
        ),
{
    broadcast use group_said;

    let f = leg_start(context, known, session, bracket, leg, now);
    let g = if leg is Entry {
        f
    } else {
        f.push((6107, revision_name(bracket.parent_id, 0))).push((583, bracket.group())).push(
            (6209, "ReduceOnFillNonBlock"@),
        )
    };
    an_identity_keeps(g, context, bracket.instrument, None, tag);
    assert(bracket_fields(context, known, session, bracket, leg, now)
        == crate::engine::order_builder::identity::identity_fields(
        g,
        context,
        bracket.instrument,
        None,
    ));
}

#[verifier::spinoff_prover]
#[verifier::rlimit(60)]
proof fn a_leg_begins(
    context: Context,
    known: Known,
    session: Seq<char>,
    bracket: BracketOrder,
    leg: Leg,
    now: Seq<char>,
)
    ensures
        ({
            let f = leg_start(context, known, session, bracket, leg, now);
            let order = bracket.leg_order(leg);
            &&& says(f, 35, "D"@)
            &&& says(f, 52, now)
            &&& says(f, 11, revision_name(order.order_id, 0))
            &&& says(f, 1, session)
            &&& says(f, 55, context.symbol(bracket.instrument))
            &&& says(f, 54, side_code(order.side))
            &&& says(f, 38, qty_text(bracket.qty as int))
            &&& says(f, 40, byte_text(order.ord_type))
            &&& leg is StopLoss ==> says(f, 99, price_text(order.price as int)) && silent(f, 44)
            &&& !(leg is StopLoss) ==> says(f, 44, price_text(order.price as int)) && silent(f, 99)
            &&& says(f, 59, byte_text(order.tif))
            &&& says(f, 60, now)
            &&& says(f, 167, context.routing(bracket.instrument).0)
            &&& says(f, 100, context.routing(bracket.instrument).1)
            &&& says(f, 6210, context.routing(bracket.instrument).1)
            &&& silent(f, 6107)
            &&& silent(f, 583)
        }),
{
    let f = leg_start(context, known, session, bracket, leg, now);
    a_tag_stated_once(f, 0);
    a_tag_stated_once(f, 1);
    a_tag_stated_once(f, 2);
    a_tag_stated_once(f, 3);
    a_tag_stated_once(f, 4);
    a_tag_stated_once(f, 5);
    a_tag_stated_once(f, 6);
    a_tag_stated_once(f, 7);
    a_tag_stated_once(f, 8);
    a_tag_stated_once(f, 9);
    a_tag_stated_once(f, 10);
    a_tag_stated_once(f, 11);
    a_tag_stated_once(f, 12);
    a_tag_stated_once(f, 13);
    a_tag_stated_nowhere(
        f,
        if leg is StopLoss {
            44
        } else {
            99
        },
    );
    a_tag_stated_nowhere(f, 6107);
    a_tag_stated_nowhere(f, 583);
}

/// The side that closes what another opens: what was bought is sold, and what
/// was sold, short or not, is bought.
pub open spec fn opposite(entry: Side, exit: Side) -> bool {
    &&& entry is Buy ==> exit is Sell
    &&& entry is Sell ==> exit is Buy
    &&& entry is ShortSell ==> exit is Buy
}

/// Each leg of a bracket is stated under its own number, for the session's
/// account, on the bracket's contract and for its quantity. The entry is a
/// limit at the entry price that lives a day; the exits live until they are
/// cancelled, one a limit at the profit to take and one a stop at the loss to
/// stop. An exit closes what the entry opens, hangs from the entry and cancels
/// with the other exit; the entry hangs from nothing.
#[verifier::spinoff_prover]
pub proof fn a_leg_is_stated_as_asked(
    context: Context,
    known: Known,
    session: Seq<char>,
    bracket: BracketOrder,
    leg: Leg,
    now: Seq<char>,
)
    requires
        (bracket.instrument as int) < context.slots@.len(),
    ensures
        ({
            let m = bracket_fields(context, known, session, bracket, leg, now);
            let slot = context.slots@[bracket.instrument as int];
            &&& says(m, 35, seq!['D'])
            &&& says(m, 52, now) && says(m, 60, now)
            &&& says(m, 1, session)
            &&& says(m, 55, slot.symbol@)
            &&& says(m, 38, qty_text(bracket.qty as int))
            &&& says(m, 167, slot.sec_type@)
            &&& says(m, 100, slot.destination@) && says(m, 6210, slot.destination@)
            &&& match leg {
                Leg::Entry => {
                    &&& says(m, 11, digits(bracket.parent_id as nat) + "."@ + digits(0))
                    &&& says(m, 54, side_text(bracket.side))
                    &&& says(m, 40, seq!['2'])
                    &&& says(m, 44, price_text(bracket.entry_price as int))
                    &&& silent(m, 99)
                    &&& says(m, 59, seq!['0'])
                    &&& silent(m, 6107)
                    &&& silent(m, 583)
                },
                Leg::TakeProfit => {
                    &&& says(m, 11, digits(bracket.tp_id as nat) + "."@ + digits(0))
                    &&& says(m, 40, seq!['2'])
                    &&& says(m, 44, price_text(bracket.take_profit as int))
                    &&& silent(m, 99)
                },
                Leg::StopLoss => {
                    &&& says(m, 11, digits(bracket.sl_id as nat) + "."@ + digits(0))
                    &&& says(m, 40, seq!['3'])
                    &&& says(m, 99, price_text(bracket.stop_loss as int))
                    &&& silent(m, 44)
                },
            }
            &&& !(leg is Entry) ==> {
                &&& bracket.side is Buy ==> says(m, 54, seq!['2'])
                &&& bracket.side is Sell ==> says(m, 54, seq!['1'])
                &&& bracket.side is ShortSell ==> says(m, 54, seq!['1'])
                &&& says(m, 59, seq!['1'])
                &&& says(m, 6107, digits(bracket.parent_id as nat) + "."@ + digits(0))
                &&& says(m, 583, "OCA_"@ + digits(bracket.parent_id as nat))
            }
        }),
{
    the_letters_of_names();
    let m = bracket_fields(context, known, session, bracket, leg, now);
    let f = leg_start(context, known, session, bracket, leg, now);
    a_leg_begins(context, known, session, bracket, leg, now);
    assert forall|tag: u32|
        !identity_tag(tag) && tag != 6107 && tag != 583 && tag != 6209 implies #[trigger] texts_under(
        m,
        tag,
    ) == texts_under(f, tag) by {
        a_leg_keeps(context, known, session, bracket, leg, now, tag);
    }
    a_leg_keeps(context, known, session, bracket, leg, now, 6107);
    a_leg_keeps(context, known, session, bracket, leg, now, 583);
    assert(byte_text(50) =~= seq!['2']);
    assert(byte_text(51) =~= seq!['3']);
    assert(byte_text(48) =~= seq!['0']);
    assert(byte_text(49) =~= seq!['1']);
    if !(leg is Entry) {
        assert(texts_under(m, 6107) =~= seq![revision_name(bracket.parent_id, 0)]);
        assert(texts_under(m, 583) =~= seq![bracket.group()]);
    }
}

/// Each leg of a bracket is tracked as it is stated: under its own number, on
/// the bracket's contract, for its quantity, unfilled and not yet taken. The
/// exits are on the side opposite the entry's, and never on the entry's own.
/// The exits are recorded as hanging from the entry and cancelling together.
/// Nothing is changed of any other order.
pub proof fn a_leg_is_tracked_as_asked(
    before: Context,
    after: Context,
    bracket: BracketOrder,
    leg: Leg,
    id: u64,
    other: u64,
)
    requires
        leg_held(before, after, bracket, leg),
        leg is Entry ==> id == bracket.parent_id,
        leg is TakeProfit ==> id == bracket.tp_id,
        leg is StopLoss ==> id == bracket.sl_id,
        other != id,
    ensures
        after.held(id) matches Some(order) && {
            &&& order.order_id == id
            &&& order.instrument == bracket.instrument
            &&& order.qty == bracket.qty
            &&& order.filled == 0
            &&& order.status is PendingSubmit
            &&& leg is Entry ==> order.side == bracket.side && order.price == bracket.entry_price
                && order.stop_price == 0 && order.ord_type == 50 && order.tif == 48
            &&& !(leg is Entry) ==> opposite(bracket.side, order.side) && order.side
                != bracket.side && order.tif == 49
            &&& leg is TakeProfit ==> order.price == bracket.take_profit && order.stop_price == 0
                && order.ord_type == 50
            &&& leg is StopLoss ==> order.price == bracket.stop_loss && order.stop_price
                == bracket.stop_loss && order.ord_type == 51
        },
        after.placed(id) matches Some(placed) && {
            &&& leg is Entry ==> placed.kind == (OrderKind::Limit { price: bracket.entry_price })
            &&& leg is TakeProfit ==> placed.kind == (OrderKind::Limit {
                price: bracket.take_profit,
            })
            &&& leg is StopLoss ==> placed.kind == (OrderKind::Stop {
                stop_price: bracket.stop_loss,
            })
            &&& leg is Entry ==> placed.attrs.parent_id == 0 && placed.attrs.oca_group_str@.len()
                == 0
            &&& !(leg is Entry) ==> placed.attrs.parent_id == bracket.parent_id
                && placed.attrs.oca_type == 3 && placed.attrs.oca_group_str@ == "OCA_"@ + digits(
                bracket.parent_id as nat,
            )
        },
        after.held(other) == before.held(other),
        after.placed(other) == before.placed(other),
        after.version(other) == before.version(other),
        after.last_clord@ == before.last_clord@,
        after.cancel_attempts@ == before.cancel_attempts@,
{
    let rest = before.submitted@.remove(id);
    let rest_after = after.submitted@.remove(id);
    assert(rest_after.dom().contains(other) <==> after.submitted@.dom().contains(other));
    assert(rest.dom().contains(other) <==> before.submitted@.dom().contains(other));
    if before.submitted@.dom().contains(other) {
        assert(rest_after[other] == after.submitted@[other]);
        assert(rest[other] == before.submitted@[other]);
    }
}

/// What an exit states as its side is never what its entry states.
pub proof fn an_exit_never_states_the_side_of_its_entry(
    at_entry: Context,
    at_exit: Context,
    known: Known,
    session: Seq<char>,
    bracket: BracketOrder,
    exit: Leg,
    now: Seq<char>,
    later: Seq<char>,
)
    requires
        (bracket.instrument as int) < at_entry.slots@.len(),
        (bracket.instrument as int) < at_exit.slots@.len(),
        !(exit is Entry),
    ensures
        texts_under(bracket_fields(at_entry, known, session, bracket, Leg::Entry, now), 54)
            != texts_under(bracket_fields(at_exit, known, session, bracket, exit, later), 54),
{
    a_leg_is_stated_as_asked(at_entry, known, session, bracket, Leg::Entry, now);
    a_leg_is_stated_as_asked(at_exit, known, session, bracket, exit, later);
    let one = texts_under(bracket_fields(at_entry, known, session, bracket, Leg::Entry, now), 54);
    let two = texts_under(bracket_fields(at_exit, known, session, bracket, exit, later), 54);
    assert(one[0][0] == side_text(bracket.side)[0]);
    assert(two[0][0] == if bracket.side is Buy {
        '2'
    } else {
        '1'
    });
}

} // verus!
