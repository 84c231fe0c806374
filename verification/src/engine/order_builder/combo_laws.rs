//! What a combination and its legs are stated as beside their contracts.

use crate::engine::order_builder::attrs::{
    companion_fields, leg_price_fields, link_fields, scale_fields, short_leg_fields,
};
use crate::engine::order_builder::fields::Stated;
use crate::engine::order_builder::wire::{
    more, one_is_said_where_stated, one_more_is_said, texts_under,
};
use crate::text::{decimal, digits, price_text};
use crate::types::attrs::{ComboLegSpec, OrderAttrs};
use crate::types::kinds::OrderKind;
use vstd::prelude::*;

verus! {

/// Where each leg of a combination borrows, one entry for every leg and in
/// their order: its place among the legs, a mark and its location and its
/// exemption where it is sold short, and empty where it is not.
pub open spec fn short_legs_said(before: Stated, after: Stated, legs: Seq<ComboLegSpec>) -> bool {
    &&& texts_under(after, 654).len() == texts_under(before, 654).len() + legs.len()
    &&& texts_under(after, 6215).len() == texts_under(before, 6215).len() + legs.len()
    &&& texts_under(after, 6216).len() == texts_under(before, 6216).len() + legs.len()
    &&& texts_under(after, 1689).len() == texts_under(before, 1689).len() + legs.len()
    &&& forall|i: int|
        0 <= i < legs.len() ==> {
            let leg = #[trigger] legs[i];
            &&& texts_under(after, 654)[texts_under(before, 654).len() + i] == digits(i as nat)
            &&& texts_under(after, 6215)[texts_under(before, 6215).len() + i] == (
            if leg.short_sale_slot != 0 {
                "N"@
            } else {
                Seq::empty()
            })
            &&& texts_under(after, 6216)[texts_under(before, 6216).len() + i] == (
            if leg.short_sale_slot != 0 {
                leg.designated_location@
            } else {
                Seq::empty()
            })
            &&& texts_under(after, 1689)[texts_under(before, 1689).len() + i] == (
            if leg.short_sale_slot != 0 && leg.exempt_code != -1 {
                decimal(leg.exempt_code as int)
            } else {
                Seq::empty()
            })
        }
}

/// Each leg of a combination states where it borrows.
#[verifier::spinoff_prover]
#[verifier::rlimit(40)]
pub proof fn each_leg_states_where_it_borrows(f: Stated, legs: Seq<ComboLegSpec>)
    ensures
        short_legs_said(f, short_leg_fields(f, legs), legs),
    decreases legs.len(),
{
    broadcast use {one_is_said_where_stated, one_more_is_said};

    if legs.len() > 0 {
        let less = legs.drop_last();
        each_leg_states_where_it_borrows(f, less);
        let before = short_leg_fields(f, less);
        let after = short_leg_fields(f, legs);
        assert forall|i: int| 0 <= i < legs.len() implies {
            let leg = #[trigger] legs[i];
            &&& texts_under(after, 654)[texts_under(f, 654).len() + i] == digits(i as nat)
            &&& texts_under(after, 6215)[texts_under(f, 6215).len() + i] == (
            if leg.short_sale_slot != 0 {
                "N"@
            } else {
                Seq::empty()
            })
            &&& texts_under(after, 6216)[texts_under(f, 6216).len() + i] == (
            if leg.short_sale_slot != 0 {
                leg.designated_location@
            } else {
                Seq::empty()
            })
            &&& texts_under(after, 1689)[texts_under(f, 1689).len() + i] == (
            if leg.short_sale_slot != 0 && leg.exempt_code != -1 {
                decimal(leg.exempt_code as int)
            } else {
                Seq::empty()
            })
        } by {
            if i < less.len() {
                assert(less[i] == legs[i]);
            }
        }
    }
}

/// The prices of the legs that have one, in order.
pub open spec fn leg_prices(legs: Seq<ComboLegSpec>) -> Seq<Seq<char>>
    decreases legs.len(),
{
    if legs.len() == 0 {
        Seq::empty()
    } else {
        match legs.last().price {
            Some(price) => leg_prices(legs.drop_last()).push(price_text(price as int)),
            None => leg_prices(legs.drop_last()),
        }
    }
}

/// Each leg that has a price states it, in the order of the legs.
pub proof fn each_leg_states_its_price(f: Stated, legs: Seq<ComboLegSpec>)
    ensures
        texts_under(leg_price_fields(f, legs), 6879) == texts_under(f, 6879) + leg_prices(legs),
    decreases legs.len(),
{
    broadcast use {one_is_said_where_stated, one_more_is_said};

    if legs.len() > 0 {
        each_leg_states_its_price(f, legs.drop_last());
    }
    assert(texts_under(leg_price_fields(f, legs), 6879) =~= texts_under(f, 6879) + leg_prices(
        legs,
    ));
}

/// What a midpoint peg, and a peg to the best that has them, state as their
/// offsets at a whole and at a half tick: nought where one is not set.
#[verifier::spinoff_prover]
pub proof fn a_peg_states_its_two_offsets(f: Stated, attrs: OrderAttrs, kind: OrderKind)
    ensures
        ({
            let m = companion_fields(f, attrs, kind);
            let unset = attrs.mid_offset_at_whole.standing is Unset
                && attrs.mid_offset_at_half.standing is Unset;
            let stated = kind is PegMid || (kind is PegBest && !unset);
            let whole = if attrs.mid_offset_at_whole.standing is Unset {
                "0.000000"@
            } else {
                attrs.mid_offset_at_whole.text@
            };
            let half = if attrs.mid_offset_at_half.standing is Unset {
                "0.000000"@
            } else {
                attrs.mid_offset_at_half.text@
            };
            &&& texts_under(m, 8403) == more(texts_under(f, 8403), stated, whole)
            &&& texts_under(m, 8404) == more(texts_under(f, 8404), stated, half)
        }),
{
    broadcast use {one_is_said_where_stated, one_more_is_said};

}

/// What a ladder, or the family a child belongs to, states as the profit it
/// goes for: the family's where the child takes its parent's price, and the
/// ladder's where the family states none.
#[verifier::spinoff_prover]
pub proof fn a_profit_offset_is_stated(
    f: Stated,
    attrs: OrderAttrs,
    parent: Option<Seq<char>>,
)
    ensures
        ({
            let family = attrs.attached is Some && attrs.attached->0.use_parent_price
                && attrs.attached->0.profit_offset is Some;
            &&& texts_under(link_fields(f, attrs, parent), 6446) == more(
                texts_under(f, 6446),
                family,
                attrs.attached->0.profit_offset->0@,
            )
            &&& texts_under(scale_fields(f, attrs), 6446) == more(
                texts_under(f, 6446),
                attrs.scale is Some && attrs.scale->0.profit_offset > 0 && !family,
                price_text(attrs.scale->0.profit_offset as int),
            )
        }),
{
    broadcast use {one_is_said_where_stated, one_more_is_said};

}

} // verus!
