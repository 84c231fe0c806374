//! What a withdrawal is stated as.

use crate::engine::context::Context;
use crate::engine::known::Known;
use crate::engine::order_builder::cancel::{
    attempt_of, cancel_account, cancel_con_id, cancel_fields, cancel_name, venue_name,
    withdrawal_counted,
};
use crate::engine::order_builder::fields::{also, also_named, Stated};
use crate::engine::order_builder::submit_laws::{side_text, the_letters_of_names};
use crate::engine::order_builder::wire::{
    a_tag_stated_nowhere, a_tag_stated_once, group_said, more, says, silent, texts_under,
};
use crate::text::{decimal, digits, qty_text};
use crate::types::orders::OrderCancel;
use vstd::prelude::*;

verus! {

spec fn withdrawal_start(
    context: Context,
    known: Known,
    session: Seq<char>,
    order_id: u64,
    now: Seq<char>,
) -> Stated {
    seq![
        (35u32, "F"@),
        (52u32, now),
        (11u32, cancel_name(order_id, attempt_of(context, order_id))),
        (41u32, venue_name(context, order_id)),
        (1u32, cancel_account(context, known, order_id, session)),
        (6088u32, "Socket"@),
    ]
}

#[verifier::spinoff_prover]
#[verifier::rlimit(60)]
proof fn a_withdrawal_goes_on(
    context: Context,
    known: Known,
    session: Seq<char>,
    order_id: u64,
    withdrawal: OrderCancel,
    now: Seq<char>,
    tag: u32,
)
    ensures
        ({
            let f = withdrawal_start(context, known, session, order_id, now);
            let m = cancel_fields(context, known, session, order_id, withdrawal, now);
            &&& tag != 6700 && tag != 38 && tag != 54 && tag != 6008 && tag != 8089 && tag != 1028
                ==> texts_under(m, tag) == texts_under(f, tag)
            &&& tag == 38 ==> texts_under(m, tag) == (match context.held(order_id) {
                Some(order) => more(
                    texts_under(f, tag),
                    order.qty > 0,
                    qty_text(order.qty as int),
                ),
                None => texts_under(f, tag),
            })
            &&& tag == 54 ==> texts_under(m, tag) == (match context.held(order_id) {
                Some(order) => texts_under(f, tag).push(
                    crate::engine::order_builder::shape::side_code(order.side),
                ),
                None => texts_under(f, tag),
            })
            &&& tag == 6008 ==> texts_under(m, tag) == more(
                texts_under(f, tag),
                cancel_con_id(context, order_id) != 0,
                decimal(cancel_con_id(context, order_id) as int),
            )
            &&& tag == 8089 ==> texts_under(m, tag) == more(
                texts_under(f, tag),
                withdrawal.ext_operator@.len() > 0,
                withdrawal.ext_operator@,
            )
            &&& tag == 1028 ==> texts_under(m, tag) == more(
                more(texts_under(f, tag), withdrawal.manual_order_indicator == 1, "Y"@),
                withdrawal.manual_order_indicator == 0,
                "N"@,
            )
        }),
{
    broadcast use group_said;

    let f = withdrawal_start(context, known, session, order_id, now);
    let g = match context.placed(order_id) {
        Some(placed) => also(
            f,
            crate::engine::order_builder::attrs::names_a_model(placed.attrs.model_code@),
            6700,
            placed.attrs.model_code@,
        ),
        None => f,
    };
    assert(tag != 6700 ==> texts_under(g, tag) == texts_under(f, tag));
    let h = match context.held(order_id) {
        Some(order) => also(g, order.qty > 0, 38, qty_text(order.qty as int)).push(
            (54, crate::engine::order_builder::shape::side_code(order.side)),
        ),
        None => g,
    };
    assert(tag != 38 && tag != 54 ==> texts_under(h, tag) == texts_under(g, tag));
    let con_id = cancel_con_id(context, order_id);
    let k = also(h, con_id != 0, 6008, decimal(con_id as int));
    assert(tag != 6008 ==> texts_under(k, tag) == texts_under(h, tag));
    let l = also_named(k, 8089, withdrawal.ext_operator@);
    assert(tag != 8089 ==> texts_under(l, tag) == texts_under(k, tag));
}

/// A withdrawal names the order by the name the venue holds it under, and
/// itself by the order's number. It states the account the order went out for,
/// the quantity and the side the order is tracked with, and the contract, each
/// once, and what it says of itself.
#[verifier::spinoff_prover]
pub proof fn a_withdrawal_is_stated_as_asked(
    context: Context,
    known: Known,
    session: Seq<char>,
    order_id: u64,
    withdrawal: OrderCancel,
    now: Seq<char>,
)
    ensures
        ({
            let m = cancel_fields(context, known, session, order_id, withdrawal, now);
            &&& says(m, 35, seq!['F'])
            &&& says(m, 52, now)
            &&& says(
                m,
                41,
                if context.last_clord@.dom().contains(order_id) {
                    context.last_clord@[order_id]@
                } else {
                    digits(order_id as nat) + "."@ + digits(context.version(order_id) as nat)
                },
            )
            &&& !context.cancel_attempts@.dom().contains(order_id) ==> says(
                m,
                11,
                "C"@ + digits(order_id as nat),
            )
            &&& context.cancel_attempts@.dom().contains(order_id)
                && context.cancel_attempts@[order_id] < u64::MAX ==> says(
                m,
                11,
                "C"@ + digits(order_id as nat) + ("."@ + digits(
                    (context.cancel_attempts@[order_id] + 1) as nat,
                )),
            )
            &&& match context.placed(order_id) {
                Some(placed) => says(
                    m,
                    1,
                    if placed.attrs.account@.len() > 0 {
                        placed.attrs.account@
                    } else {
                        session
                    },
                ),
                None => match known.info(order_id) {
                    Some(info) if info.account@.len() > 0 => says(m, 1, info.account@),
                    _ => says(m, 1, session),
                },
            }
            &&& match context.held(order_id) {
                Some(order) => {
                    &&& says(m, 54, side_text(order.side))
                    &&& order.qty > 0 ==> says(m, 38, qty_text(order.qty as int))
                    &&& order.qty <= 0 ==> silent(m, 38)
                },
                None => silent(m, 54) && silent(m, 38),
            }
            &&& context.placed(order_id) is None ==> match context.held(order_id) {
                Some(order) => match context.slot(order.instrument) {
                    Some(slot) => match slot.con_id {
                        Some(con_id) if con_id != 0 => says(m, 6008, decimal(con_id as int)),
                        _ => silent(m, 6008),
                    },
                    None => silent(m, 6008),
                },
                None => silent(m, 6008),
            }
            &&& withdrawal.ext_operator@.len() > 0 ==> says(m, 8089, withdrawal.ext_operator@)
            &&& withdrawal.ext_operator@.len() == 0 ==> silent(m, 8089)
            &&& withdrawal.manual_order_indicator == 1 ==> says(m, 1028, "Y"@)
            &&& withdrawal.manual_order_indicator == 0 ==> says(m, 1028, "N"@)
            &&& withdrawal.manual_order_indicator != 0 && withdrawal.manual_order_indicator != 1
                ==> silent(m, 1028)
        }),
{
    the_letters_of_names();
    let f = withdrawal_start(context, known, session, order_id, now);
    let m = cancel_fields(context, known, session, order_id, withdrawal, now);
    a_tag_stated_once(f, 0);
    a_tag_stated_once(f, 1);
    a_tag_stated_once(f, 2);
    a_tag_stated_once(f, 3);
    a_tag_stated_once(f, 4);
    a_tag_stated_nowhere(f, 38);
    a_tag_stated_nowhere(f, 54);
    a_tag_stated_nowhere(f, 6008);
    a_tag_stated_nowhere(f, 8089);
    a_tag_stated_nowhere(f, 1028);
    a_withdrawal_goes_on(context, known, session, order_id, withdrawal, now, 35);
    a_withdrawal_goes_on(context, known, session, order_id, withdrawal, now, 52);
    a_withdrawal_goes_on(context, known, session, order_id, withdrawal, now, 11);
    a_withdrawal_goes_on(context, known, session, order_id, withdrawal, now, 41);
    a_withdrawal_goes_on(context, known, session, order_id, withdrawal, now, 1);
    a_withdrawal_goes_on(context, known, session, order_id, withdrawal, now, 38);
    a_withdrawal_goes_on(context, known, session, order_id, withdrawal, now, 54);
    a_withdrawal_goes_on(context, known, session, order_id, withdrawal, now, 6008);
    a_withdrawal_goes_on(context, known, session, order_id, withdrawal, now, 8089);
    a_withdrawal_goes_on(context, known, session, order_id, withdrawal, now, 1028);
    match context.held(order_id) {
        Some(order) => {
            assert(texts_under(m, 54) =~= seq![side_text(order.side)]);
            if order.qty > 0 {
                assert(texts_under(m, 38) =~= seq![qty_text(order.qty as int)]);
            }
        },
        None => {},
    }
    let con_id = cancel_con_id(context, order_id);
    if con_id != 0 {
        assert(texts_under(m, 6008) =~= seq![decimal(con_id as int)]);
    }
    if withdrawal.ext_operator@.len() > 0 {
        assert(texts_under(m, 8089) =~= seq![withdrawal.ext_operator@]);
    }
    if withdrawal.manual_order_indicator == 1 {
        assert(texts_under(m, 1028) =~= seq!["Y"@]);
    }
    if withdrawal.manual_order_indicator == 0 {
        assert(texts_under(m, 1028) =~= seq!["N"@]);
    }
}

/// Each withdrawal of an order goes out under another name: the next one is
/// counted one further, and no other order's count changes. The order stays as
/// it is tracked.
pub proof fn a_withdrawal_is_counted(before: Context, after: Context, order_id: u64, other: u64)
    requires
        withdrawal_counted(before, after, order_id),
        other != order_id,
    ensures
        after.cancel_attempts@.dom().contains(order_id),
        !before.cancel_attempts@.dom().contains(order_id) ==> after.cancel_attempts@[order_id] == 0,
        before.cancel_attempts@.dom().contains(order_id) && before.cancel_attempts@[order_id]
            < u64::MAX ==> after.cancel_attempts@[order_id] == before.cancel_attempts@[order_id]
            + 1,
        after.cancel_attempts@.dom().contains(other) <==> before.cancel_attempts@.dom().contains(
            other,
        ),
        before.cancel_attempts@.dom().contains(other) ==> after.cancel_attempts@[other]
            == before.cancel_attempts@[other],
        after.held(order_id) == before.held(order_id),
        after.held(other) == before.held(other),
        after.placed(order_id) == before.placed(order_id),
        after.last_clord@ == before.last_clord@,
        after.version(order_id) == before.version(order_id),
{
}

} // verus!
