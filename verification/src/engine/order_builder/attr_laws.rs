//! What an order's attributes are stated as, tag by tag.

use crate::engine::order_builder::algos::pair_fields;
use crate::engine::order_builder::attrs::{
    account_fields, adjustable_fields, attr_fields, bounds, closing_fields, combo_fields,
    companion_fields, delta_neutral_fields, exceeds_nought, execution_fields, family_states_profit,
    hedge_fields, instruction_fields, leg_fields, leg_price_fields, life_fields, lifecycle_fields,
    link_fields, names_a_model, pricing_fields, scale_fields, short_leg_fields, short_sale_fields,
    soft_dollar_fields, strategy_fields, two_part_mid,
};
use crate::engine::order_builder::conditions::{
    condition_fields, condition_row, conditions_upto,
};
use crate::engine::order_builder::fields::{also, also_flag, also_named, Stated};
use crate::engine::order_builder::wire::{
    more, one_is_said_where_stated, one_more_is_said, texts_under,
};
use crate::protocol::datetime::ib_utc_dash;
use crate::text::{decimal, digits, padded, price_text};
use crate::types::attrs::{ComboLegSpec, OrderAttrs, OrderCondition};
use crate::types::kinds::{OrderKind, Side};
use vstd::prelude::*;

verus! {

proof fn legs_keep(f: Stated, legs: Seq<ComboLegSpec>, venues: bool, tag: u32)
    ensures
        tag != 6080 && tag != 6081 && tag != 6082 && tag != 616 && tag != 6087 ==> texts_under(
            leg_fields(f, legs, venues),
            tag,
        ) == texts_under(f, tag),
        tag != 654 && tag != 6215 && tag != 6216 && tag != 1689 ==> texts_under(
            short_leg_fields(f, legs),
            tag,
        ) == texts_under(f, tag),
        tag != 6879 ==> texts_under(leg_price_fields(f, legs), tag) == texts_under(f, tag),
    decreases legs.len(),
{
    broadcast use {one_is_said_where_stated, one_more_is_said};

    if legs.len() > 0 {
        legs_keep(f, legs.drop_last(), venues, tag);
    }
}

proof fn pairs_keep(f: Stated, params: Seq<Seq<char>>, pairs: nat, tag: u32)
    ensures
        tag != 5958 && tag != 5960 ==> texts_under(pair_fields(f, params, pairs), tag)
            == texts_under(f, tag),
    decreases pairs,
{
    broadcast use {one_is_said_where_stated, one_more_is_said};

    if pairs > 0 {
        pairs_keep(f, params, (pairs - 1) as nat, tag);
    }
}

proof fn rows_keep(f: Stated, conditions: Seq<OrderCondition>, upto: nat, tag: u32)
    ensures
        tag != 6222 && tag != 6137 && tag != 6126 && tag != 6123 && tag != 6124 && tag != 6127
            && tag != 6125 && tag != 6223 && tag != 6245 && tag != 6263 && tag != 6246
            ==> texts_under(conditions_upto(f, conditions, upto), tag) == texts_under(f, tag),
    decreases upto,
{
    broadcast use {one_is_said_where_stated, one_more_is_said};

    if upto > 0 {
        rows_keep(f, conditions, (upto - 1) as nat, tag);
    }
}

#[verifier::spinoff_prover]
#[verifier::rlimit(60)]
proof fn life_keeps(f: Stated, attrs: OrderAttrs, tag: u32)
    requires
        !life_tag(tag),
    ensures
        texts_under(life_fields(f, attrs), tag) == texts_under(f, tag),
{
    broadcast use {one_is_said_where_stated, one_more_is_said};

}

#[verifier::spinoff_prover]
#[verifier::rlimit(60)]
proof fn link_keeps(f: Stated, attrs: OrderAttrs, parent: Option<Seq<char>>, tag: u32)
    requires
        !link_tag(tag),
    ensures
        texts_under(link_fields(f, attrs, parent), tag) == texts_under(f, tag),
{
    broadcast use {one_is_said_where_stated, one_more_is_said};

}

#[verifier::spinoff_prover]
#[verifier::rlimit(60)]
proof fn execution_keeps(f: Stated, attrs: OrderAttrs, kind: OrderKind, exec_inst: Seq<char>, tag: u32)
    requires
        !execution_tag(tag),
    ensures
        texts_under(execution_fields(f, attrs, kind, exec_inst), tag) == texts_under(f, tag),
{
    broadcast use {one_is_said_where_stated, one_more_is_said};

}

#[verifier::spinoff_prover]
#[verifier::rlimit(60)]
proof fn instruction_keeps(f: Stated, attrs: OrderAttrs, tag: u32)
    requires
        !instruction_tag(tag),
    ensures
        texts_under(instruction_fields(f, attrs), tag) == texts_under(f, tag),
{
    broadcast use {one_is_said_where_stated, one_more_is_said};

    let mid = instruction_half(f, attrs);
    assert(texts_under(mid, tag) == texts_under(f, tag));
}

#[verifier::spinoff_prover]
#[verifier::rlimit(60)]
proof fn account_keeps(f: Stated, attrs: OrderAttrs, tag: u32)
    requires
        !account_tag(tag),
    ensures
        texts_under(account_fields(f, attrs), tag) == texts_under(f, tag),
{
    broadcast use {one_is_said_where_stated, one_more_is_said};

    let mid = account_half(f, attrs);
    assert(texts_under(mid, tag) == texts_under(f, tag));
}

#[verifier::spinoff_prover]
#[verifier::rlimit(60)]
proof fn pricing_keeps(f: Stated, attrs: OrderAttrs, tag: u32)
    requires
        !pricing_tag(tag),
    ensures
        texts_under(pricing_fields(f, attrs), tag) == texts_under(f, tag),
{
    broadcast use {one_is_said_where_stated, one_more_is_said};

    let mid = pricing_half(f, attrs);
    assert(texts_under(mid, tag) == texts_under(f, tag));
}

#[verifier::spinoff_prover]
#[verifier::rlimit(60)]
proof fn combo_keeps(f: Stated, attrs: OrderAttrs, tag: u32)
    requires
        !combo_tag(tag),
    ensures
        texts_under(combo_fields(f, attrs), tag) == texts_under(f, tag),
{
    broadcast use {one_is_said_where_stated, one_more_is_said};

    let legs = attrs.combo_legs@;
    assert forall|g: Stated, venues: bool|
        #![trigger leg_fields(g, legs, venues)]
        texts_under(leg_fields(g, legs, venues), tag) == texts_under(g, tag) by {
        legs_keep(g, legs, venues, tag);
    }
    assert forall|g: Stated| texts_under(#[trigger] short_leg_fields(g, legs), tag)
        == texts_under(g, tag) by {
        legs_keep(g, legs, true, tag);
    }
    assert forall|g: Stated| texts_under(#[trigger] leg_price_fields(g, legs), tag)
        == texts_under(g, tag) by {
        legs_keep(g, legs, true, tag);
    }
}

#[verifier::spinoff_prover]
#[verifier::rlimit(60)]
proof fn lifecycle_keeps(f: Stated, attrs: OrderAttrs, tag: u32)
    requires
        !lifecycle_tag(tag),
    ensures
        texts_under(lifecycle_fields(f, attrs), tag) == texts_under(f, tag),
{
    broadcast use {one_is_said_where_stated, one_more_is_said};

    let mid = lifecycle_half(f, attrs);
    assert(texts_under(mid, tag) == texts_under(f, tag));
}

#[verifier::spinoff_prover]
#[verifier::rlimit(60)]
proof fn short_sale_keeps(f: Stated, attrs: OrderAttrs, side: Side, tag: u32)
    requires
        !short_sale_tag(tag),
    ensures
        texts_under(short_sale_fields(f, attrs, side), tag) == texts_under(f, tag),
{
    broadcast use {one_is_said_where_stated, one_more_is_said};

}

#[verifier::spinoff_prover]
#[verifier::rlimit(60)]
proof fn hedge_keeps(f: Stated, attrs: OrderAttrs, tag: u32)
    requires
        !hedge_tag(tag),
    ensures
        texts_under(hedge_fields(f, attrs), tag) == texts_under(f, tag),
{
    broadcast use {one_is_said_where_stated, one_more_is_said};

}

#[verifier::spinoff_prover]
#[verifier::rlimit(60)]
proof fn delta_neutral_keeps(f: Stated, attrs: OrderAttrs, tag: u32)
    requires
        !delta_neutral_tag(tag),
    ensures
        texts_under(delta_neutral_fields(f, attrs), tag) == texts_under(f, tag),
{
    broadcast use {one_is_said_where_stated, one_more_is_said};

}

#[verifier::spinoff_prover]
#[verifier::rlimit(60)]
proof fn scale_keeps(f: Stated, attrs: OrderAttrs, tag: u32)
    requires
        !scale_tag(tag),
    ensures
        texts_under(scale_fields(f, attrs), tag) == texts_under(f, tag),
{
    broadcast use {one_is_said_where_stated, one_more_is_said};

    let mid = scale_half(f, attrs);
    assert(texts_under(mid, tag) == texts_under(f, tag));
}

#[verifier::spinoff_prover]
#[verifier::rlimit(60)]
proof fn soft_dollar_keeps(f: Stated, attrs: OrderAttrs, tag: u32)
    requires
        !soft_dollar_tag(tag),
    ensures
        texts_under(soft_dollar_fields(f, attrs), tag) == texts_under(f, tag),
{
    broadcast use {one_is_said_where_stated, one_more_is_said};

}

#[verifier::spinoff_prover]
#[verifier::rlimit(60)]
proof fn closing_keeps(f: Stated, attrs: OrderAttrs, tag: u32)
    requires
        !closing_tag(tag),
    ensures
        texts_under(closing_fields(f, attrs), tag) == texts_under(f, tag),
{
    broadcast use {one_is_said_where_stated, one_more_is_said};

}

#[verifier::spinoff_prover]
#[verifier::rlimit(60)]
proof fn condition_keeps(f: Stated, attrs: OrderAttrs, tag: u32)
    requires
        !condition_tag(tag),
    ensures
        texts_under(condition_fields(f, attrs), tag) == texts_under(f, tag),
{
    broadcast use {one_is_said_where_stated, one_more_is_said};

    assert forall|g: Stated|
        texts_under(
            #[trigger] conditions_upto(g, attrs.conditions@, attrs.conditions@.len()),
            tag,
        ) == texts_under(g, tag) by {
        rows_keep(g, attrs.conditions@, attrs.conditions@.len(), tag);
    }
}

#[verifier::spinoff_prover]
#[verifier::rlimit(60)]
proof fn adjustable_keeps(f: Stated, kind: OrderKind, tag: u32)
    requires
        !adjustable_tag(tag),
    ensures
        texts_under(adjustable_fields(f, kind), tag) == texts_under(f, tag),
{
    broadcast use {one_is_said_where_stated, one_more_is_said};

}

#[verifier::spinoff_prover]
#[verifier::rlimit(60)]
proof fn companion_keeps(f: Stated, attrs: OrderAttrs, kind: OrderKind, tag: u32)
    requires
        !companion_tag(tag),
    ensures
        texts_under(companion_fields(f, attrs, kind), tag) == texts_under(f, tag),
{
    broadcast use {one_is_said_where_stated, one_more_is_said};

}

#[verifier::spinoff_prover]
#[verifier::rlimit(60)]
proof fn strategy_keeps(f: Stated, attrs: OrderAttrs, kind: OrderKind, tag: u32)
    requires
        !strategy_tag(tag),
    ensures
        texts_under(strategy_fields(f, attrs, kind), tag) == texts_under(f, tag),
{
    broadcast use {one_is_said_where_stated, one_more_is_said};

    assert forall|g: Stated, params: Seq<Seq<char>>, pairs: nat|
        texts_under(#[trigger] pair_fields(g, params, pairs), tag) == texts_under(g, tag) by {
        pairs_keep(g, params, pairs, tag);
    }
}

spec fn instruction_rest(f: Stated, attrs: OrderAttrs) -> Stated {
    let f = also_flag(f, attrs.post_only, 6605);
    let f = also_flag(f, attrs.solicited, 6488);
    let f = also(f, attrs.manual_order_indicator == 1, 1028, "Y"@);
    let f = also(f, attrs.manual_order_indicator == 0, 1028, "N"@);
    let f = also_flag(f, attrs.route_marketable_to_bbo, 8265);
    let f = also_flag(f, attrs.imbalance_only, 6737);
    let f = also_flag(f, attrs.allow_pre_open, 6524);
    let f = also_flag(f, attrs.ignore_open_auction, 6562);
    let f = also_flag(f, attrs.is_oms_container, 6406);
    f
}

#[verifier::spinoff_prover]
#[verifier::rlimit(60)]
proof fn instruction_begins(f: Stated, attrs: OrderAttrs)
    ensures
        ({
            let m = instruction_half(f, attrs);
            &&& texts_under(m, 9816) == more(texts_under(f, 9816), attrs.volatility.standing is Above || attrs.volatility.standing is Unset, attrs.volatility.text@)
            &&& texts_under(m, 6280) == more(texts_under(f, 6280), attrs.volatility_type > 0, decimal(attrs.volatility_type as int))
            &&& texts_under(m, 6557) == more(texts_under(f, 6557), attrs.seek_price_improvement, "1"@)
            &&& texts_under(m, 6532) == more(texts_under(f, 6532), attrs.manual_order_time@.len() > 0, attrs.manual_order_time@)
            &&& texts_under(m, 8229) == more(texts_under(f, 8229), attrs.advanced_error_override@.len() > 0, attrs.advanced_error_override@)
            &&& texts_under(m, 6670) == more(texts_under(f, 6670), attrs.active_start_time@.len() > 0, attrs.active_start_time@)
            &&& texts_under(m, 6671) == more(texts_under(f, 6671), attrs.active_stop_time@.len() > 0, attrs.active_stop_time@)
            &&& texts_under(m, 6605) == texts_under(f, 6605)
            &&& texts_under(m, 6488) == texts_under(f, 6488)
            &&& texts_under(m, 1028) == texts_under(f, 1028)
            &&& texts_under(m, 8265) == texts_under(f, 8265)
            &&& texts_under(m, 6737) == texts_under(f, 6737)
            &&& texts_under(m, 6524) == texts_under(f, 6524)
            &&& texts_under(m, 6562) == texts_under(f, 6562)
            &&& texts_under(m, 6406) == texts_under(f, 6406)
        }),
{
    broadcast use {one_is_said_where_stated, one_more_is_said};

}

#[verifier::spinoff_prover]
#[verifier::rlimit(60)]
proof fn instruction_ends(f: Stated, attrs: OrderAttrs)
    ensures
        ({
            let m = instruction_rest(f, attrs);
            &&& texts_under(m, 6605) == more(texts_under(f, 6605), attrs.post_only, "1"@)
            &&& texts_under(m, 6488) == more(texts_under(f, 6488), attrs.solicited, "1"@)
            &&& texts_under(m, 1028) == more(more(texts_under(f, 1028), attrs.manual_order_indicator == 1, "Y"@), attrs.manual_order_indicator == 0, "N"@)
            &&& texts_under(m, 8265) == more(texts_under(f, 8265), attrs.route_marketable_to_bbo, "1"@)
            &&& texts_under(m, 6737) == more(texts_under(f, 6737), attrs.imbalance_only, "1"@)
            &&& texts_under(m, 6524) == more(texts_under(f, 6524), attrs.allow_pre_open, "1"@)
            &&& texts_under(m, 6562) == more(texts_under(f, 6562), attrs.ignore_open_auction, "1"@)
            &&& texts_under(m, 6406) == more(texts_under(f, 6406), attrs.is_oms_container, "1"@)
            &&& texts_under(m, 9816) == texts_under(f, 9816)
            &&& texts_under(m, 6280) == texts_under(f, 6280)
            &&& texts_under(m, 6557) == texts_under(f, 6557)
            &&& texts_under(m, 6532) == texts_under(f, 6532)
            &&& texts_under(m, 8229) == texts_under(f, 8229)
            &&& texts_under(m, 6670) == texts_under(f, 6670)
            &&& texts_under(m, 6671) == texts_under(f, 6671)
        }),
{
    broadcast use {one_is_said_where_stated, one_more_is_said};

}

spec fn instruction_half(f: Stated, attrs: OrderAttrs) -> Stated {
    let f = also(f, exceeds_nought(attrs.volatility), 9816, attrs.volatility.text@);
    let f = also(f, attrs.volatility_type > 0, 6280, decimal(attrs.volatility_type as int));
    let f = also_flag(f, attrs.seek_price_improvement, 6557);
    let f = also_named(f, 6532, attrs.manual_order_time@);
    let f = also_named(f, 8229, attrs.advanced_error_override@);
    let f = also_named(f, 6670, attrs.active_start_time@);
    let f = also_named(f, 6671, attrs.active_stop_time@);
    f
}

spec fn account_half(f: Stated, attrs: OrderAttrs) -> Stated {
    let f = also_named(f, 8089, attrs.ext_operator@);
    let f = also_named(f, 6207, attrs.customer_account@);
    let f = also(f, names_a_model(attrs.model_code@), 6700, attrs.model_code@);
    let f = also_named(f, 6160, attrs.fa_group@);
    let f = also_named(f, 6159, attrs.fa_method@);
    let f = also_named(f, 6164, attrs.fa_percentage@);
    f
}

spec fn pricing_rest(f: Stated, attrs: OrderAttrs) -> Stated {
    let f = also(f, bounds(attrs.stock_range_upper), 6153, attrs.stock_range_upper.text@);
    let f = also(f, !(attrs.percent_offset.standing is Unset), 9822, attrs.percent_offset.text@);
    let f = also_flag(f, attrs.not_held, 6287);
    let f = also_named(f, 6010, attrs.order_ref@);
    let f = also_named(f, 77, attrs.open_close@);
    let f = also(f, attrs.exercise_action != 0, 6809, digits(attrs.exercise_action as nat));
    f
}

#[verifier::spinoff_prover]
#[verifier::rlimit(60)]
proof fn pricing_begins(f: Stated, attrs: OrderAttrs)
    ensures
        ({
            let m = pricing_half(f, attrs);
            &&& texts_under(m, 8339) == more(texts_under(f, 8339), attrs.use_price_mgmt_algo > 0, decimal(attrs.use_price_mgmt_algo as int))
            &&& texts_under(m, 8402) == more(texts_under(f, 8402), attrs.duration != i32::MAX && attrs.duration > 0, decimal(attrs.duration as int))
            &&& texts_under(m, 8411) == more(texts_under(f, 8411), attrs.min_compete_size > 0, decimal(attrs.min_compete_size as int))
            &&& texts_under(m, 8412) == more(texts_under(f, 8412), !(attrs.compete_against_best_offset.standing is Unset), attrs.compete_against_best_offset.text@)
            &&& texts_under(m, 6275) == more(texts_under(f, 6275), attrs.continuous_update, "1"@)
            &&& texts_under(m, 6279) == more(texts_under(f, 6279), attrs.reference_price_type > 0, decimal(attrs.reference_price_type as int))
            &&& texts_under(m, 6152) == more(texts_under(f, 6152), !(attrs.stock_range_lower.standing is Unset) && !(attrs.stock_range_lower.standing is Nought), attrs.stock_range_lower.text@)
            &&& texts_under(m, 6153) == texts_under(f, 6153)
            &&& texts_under(m, 9822) == texts_under(f, 9822)
            &&& texts_under(m, 6287) == texts_under(f, 6287)
            &&& texts_under(m, 6010) == texts_under(f, 6010)
            &&& texts_under(m, 77) == texts_under(f, 77)
            &&& texts_under(m, 6809) == texts_under(f, 6809)
        }),
{
    broadcast use {one_is_said_where_stated, one_more_is_said};

}

#[verifier::spinoff_prover]
#[verifier::rlimit(60)]
proof fn pricing_ends(f: Stated, attrs: OrderAttrs)
    ensures
        ({
            let m = pricing_rest(f, attrs);
            &&& texts_under(m, 6153) == more(texts_under(f, 6153), !(attrs.stock_range_upper.standing is Unset) && !(attrs.stock_range_upper.standing is Nought), attrs.stock_range_upper.text@)
            &&& texts_under(m, 9822) == more(texts_under(f, 9822), !(attrs.percent_offset.standing is Unset), attrs.percent_offset.text@)
            &&& texts_under(m, 6287) == more(texts_under(f, 6287), attrs.not_held, "1"@)
            &&& texts_under(m, 6010) == more(texts_under(f, 6010), attrs.order_ref@.len() > 0, attrs.order_ref@)
            &&& texts_under(m, 77) == more(texts_under(f, 77), attrs.open_close@.len() > 0, attrs.open_close@)
            &&& texts_under(m, 6809) == more(texts_under(f, 6809), attrs.exercise_action != 0, digits(attrs.exercise_action as nat))
            &&& texts_under(m, 8339) == texts_under(f, 8339)
            &&& texts_under(m, 8402) == texts_under(f, 8402)
            &&& texts_under(m, 8411) == texts_under(f, 8411)
            &&& texts_under(m, 8412) == texts_under(f, 8412)
            &&& texts_under(m, 6275) == texts_under(f, 6275)
            &&& texts_under(m, 6279) == texts_under(f, 6279)
            &&& texts_under(m, 6152) == texts_under(f, 6152)
        }),
{
    broadcast use {one_is_said_where_stated, one_more_is_said};

}

spec fn pricing_half(f: Stated, attrs: OrderAttrs) -> Stated {
    let f = also(f, attrs.use_price_mgmt_algo > 0, 8339, decimal(attrs.use_price_mgmt_algo as int));
    let f = also(f, attrs.duration != i32::MAX && attrs.duration > 0, 8402, decimal(attrs.duration as int));
    let f = also(f, attrs.min_compete_size > 0, 8411, decimal(attrs.min_compete_size as int));
    let f = also(f, !(attrs.compete_against_best_offset.standing is Unset), 8412, attrs.compete_against_best_offset.text@);
    let f = also_flag(f, attrs.continuous_update, 6275);
    let f = also(f, attrs.reference_price_type > 0, 6279, decimal(attrs.reference_price_type as int));
    let f = also(f, bounds(attrs.stock_range_lower), 6152, attrs.stock_range_lower.text@);
    f
}

spec fn lifecycle_half(f: Stated, attrs: OrderAttrs) -> Stated {
    let f = also_named(f, 440, attrs.clearing_account@);
    let f = also_named(f, 6419, attrs.clearing_intent@);
    let f = also_flag(f, attrs.deactivate, 6521);
    let f = also_flag(f, attrs.deactivate_on_disconnect, 6661);
    let f = also_flag(f, attrs.include_overnight, 8534);
    let f = also_flag(f, attrs.auto_cancel_parent, 6965);
    f
}

spec fn scale_half(f: Stated, attrs: OrderAttrs) -> Stated {
    match attrs.scale {
        Some(scale) => {
            let f = also(f, scale.init_level_size > 0, 6403, digits(scale.init_level_size as nat));
            let f = also(f, scale.subs_level_size > 0, 6445, digits(scale.subs_level_size as nat));
            let f = also(
                f,
                scale.price_increment > 0,
                6405,
                price_text(scale.price_increment as int),
            );
            let f = also(
                f,
                scale.profit_offset > 0 && !family_states_profit(attrs),
                6446,
                price_text(scale.profit_offset as int),
            );
            also(
                f,
                scale.price_adjust_value != 0,
                6527,
                price_text(scale.price_adjust_value as int),
            )
        },
        None => f,
    }
}

/// Whether these attributes are stated under a tag.
pub open spec fn life_tag(tag: u32) -> bool {
    tag == 111 || tag == 110 || tag == 6433 || tag == 6135 || tag == 168 || tag == 432 || tag == 126 || tag == 6436
}

/// Whether these attributes are stated under a tag.
pub open spec fn link_tag(tag: u32) -> bool {
    tag == 583 || tag == 6209 || tag == 6531 || tag == 6724 || tag == 6704 || tag == 6446 || tag == 6107
}

/// Whether these attributes are stated under a tag.
pub open spec fn execution_tag(tag: u32) -> bool {
    tag == 9813 || tag == 6102 || tag == 18
}

/// Whether these attributes are stated under a tag.
pub open spec fn instruction_tag(tag: u32) -> bool {
    tag == 9816 || tag == 6280 || tag == 6557 || tag == 6532 || tag == 8229 || tag == 6670 || tag == 6671 || tag == 6605 || tag == 6488 || tag == 1028 || tag == 8265 || tag == 6737 || tag == 6524 || tag == 6562 || tag == 6406
}

/// Whether these attributes are stated under a tag.
pub open spec fn account_tag(tag: u32) -> bool {
    tag == 8089 || tag == 6207 || tag == 6700 || tag == 6160 || tag == 6159 || tag == 6164 || tag == 6636 || tag == 6564 || tag == 8237 || tag == 8243 || tag == 8254 || tag == 8255
}

/// Whether these attributes are stated under a tag.
pub open spec fn pricing_tag(tag: u32) -> bool {
    tag == 8339 || tag == 8402 || tag == 8411 || tag == 8412 || tag == 6275 || tag == 6279 || tag == 6152 || tag == 6153 || tag == 9822 || tag == 6287 || tag == 6010 || tag == 77 || tag == 6809
}

/// Whether these attributes are stated under a tag.
pub open spec fn combo_tag(tag: u32) -> bool {
    tag == 231 || tag == 6079 || tag == 6080 || tag == 6081 || tag == 6082 || tag == 616 || tag == 6087 || tag == 6175 || tag == 6134 || tag == 6147 || tag == 6086 || tag == 654 || tag == 6215 || tag == 6216 || tag == 1689 || tag == 6879
}

/// Whether these attributes are stated under a tag.
pub open spec fn lifecycle_tag(tag: u32) -> bool {
    tag == 440 || tag == 6419 || tag == 6521 || tag == 6661 || tag == 8534 || tag == 6965 || tag == 8415 || tag == 9801 || tag == 6596 || tag == 47 || tag == 8405
}

/// Whether these attributes are stated under a tag.
pub open spec fn short_sale_tag(tag: u32) -> bool {
    tag == 114 || tag == 5700 || tag == 6086 || tag == 1688
}

/// Whether these attributes are stated under a tag.
pub open spec fn hedge_tag(tag: u32) -> bool {
    tag == 6665 || tag == 6703 || tag == 6690 || tag == 6666 || tag == 207
}

/// Whether these attributes are stated under a tag.
pub open spec fn delta_neutral_tag(tag: u32) -> bool {
    tag == 6150 || tag == 6148 || tag == 6149 || tag == 6290 || tag == 6291
}

/// Whether these attributes are stated under a tag.
pub open spec fn scale_tag(tag: u32) -> bool {
    tag == 6403 || tag == 6445 || tag == 6405 || tag == 6446 || tag == 6527 || tag == 6526 || tag == 6461 || tag == 6795 || tag == 6485 || tag == 6486
}

/// Whether these attributes are stated under a tag.
pub open spec fn soft_dollar_tag(tag: u32) -> bool {
    tag == 6519 || tag == 6520
}

/// Whether these attributes are stated under a tag.
pub open spec fn closing_tag(tag: u32) -> bool {
    tag == 8016 || tag == 6282 || tag == 8165 || tag == 6115 || tag == 152
}

/// Whether these attributes are stated under a tag.
pub open spec fn condition_tag(tag: u32) -> bool {
    tag == 6136 || tag == 6128 || tag == 6151 || tag == 8612 || tag == 6222 || tag == 6137 || tag == 6126 || tag == 6123 || tag == 6124 || tag == 6127 || tag == 6125 || tag == 6223 || tag == 6245 || tag == 6263 || tag == 6246
}

/// Whether these attributes are stated under a tag.
pub open spec fn adjustable_tag(tag: u32) -> bool {
    tag == 6257 || tag == 6261 || tag == 6258 || tag == 6259 || tag == 6262 || tag == 6260 || tag == 6269
}

/// Whether these attributes are stated under a tag.
pub open spec fn companion_tag(tag: u32) -> bool {
    tag == 44 || tag == 211 || tag == 99 || tag == 8403 || tag == 8404 || tag == 6117
}

/// Whether these attributes are stated under a tag.
pub open spec fn strategy_tag(tag: u32) -> bool {
    tag == 847 || tag == 5957 || tag == 5958 || tag == 5960 || tag == 849 || tag == 6091
}

/// Whether an attribute is ever stated under a tag.
pub open spec fn attribute_tag(tag: u32) -> bool {
    ||| life_tag(tag)
    ||| link_tag(tag)
    ||| execution_tag(tag)
    ||| instruction_tag(tag)
    ||| account_tag(tag)
    ||| pricing_tag(tag)
    ||| combo_tag(tag)
    ||| lifecycle_tag(tag)
    ||| short_sale_tag(tag)
    ||| hedge_tag(tag)
    ||| delta_neutral_tag(tag)
    ||| scale_tag(tag)
    ||| soft_dollar_tag(tag)
    ||| closing_tag(tag)
    ||| condition_tag(tag)
    ||| adjustable_tag(tag)
    ||| companion_tag(tag)
    ||| strategy_tag(tag)
}

#[verifier::opaque]
spec fn stage(
    at: nat,
    f: Stated,
    attrs: OrderAttrs,
    kind: OrderKind,
    side: Side,
    exec_inst: Seq<char>,
    parent: Option<Seq<char>>,
) -> Stated {
    if at == 0 {
        life_fields(f, attrs)
    } else if at == 1 {
        link_fields(f, attrs, parent)
    } else if at == 2 {
        execution_fields(f, attrs, kind, exec_inst)
    } else if at == 3 {
        instruction_fields(f, attrs)
    } else if at == 4 {
        account_fields(f, attrs)
    } else if at == 5 {
        pricing_fields(f, attrs)
    } else if at == 6 {
        combo_fields(f, attrs)
    } else if at == 7 {
        lifecycle_fields(f, attrs)
    } else if at == 8 {
        short_sale_fields(f, attrs, side)
    } else if at == 9 {
        hedge_fields(f, attrs)
    } else if at == 10 {
        delta_neutral_fields(f, attrs)
    } else if at == 11 {
        scale_fields(f, attrs)
    } else if at == 12 {
        soft_dollar_fields(f, attrs)
    } else if at == 13 {
        closing_fields(f, attrs)
    } else if at == 14 {
        condition_fields(f, attrs)
    } else if at == 15 {
        adjustable_fields(f, kind)
    } else if at == 16 {
        companion_fields(f, attrs, kind)
    } else if at == 17 {
        strategy_fields(f, attrs, kind)
    } else {
        f
    }
}

/// Whether these attributes are stated under a tag.
pub open spec fn stage_tag(at: nat, tag: u32) -> bool {
    if at == 0 {
        life_tag(tag)
    } else if at == 1 {
        link_tag(tag)
    } else if at == 2 {
        execution_tag(tag)
    } else if at == 3 {
        instruction_tag(tag)
    } else if at == 4 {
        account_tag(tag)
    } else if at == 5 {
        pricing_tag(tag)
    } else if at == 6 {
        combo_tag(tag)
    } else if at == 7 {
        lifecycle_tag(tag)
    } else if at == 8 {
        short_sale_tag(tag)
    } else if at == 9 {
        hedge_tag(tag)
    } else if at == 10 {
        delta_neutral_tag(tag)
    } else if at == 11 {
        scale_tag(tag)
    } else if at == 12 {
        soft_dollar_tag(tag)
    } else if at == 13 {
        closing_tag(tag)
    } else if at == 14 {
        condition_tag(tag)
    } else if at == 15 {
        adjustable_tag(tag)
    } else if at == 16 {
        companion_tag(tag)
    } else if at == 17 {
        strategy_tag(tag)
    } else {
        false
    }
}

spec fn upto(
    at: nat,
    f: Stated,
    attrs: OrderAttrs,
    kind: OrderKind,
    side: Side,
    exec_inst: Seq<char>,
    parent: Option<Seq<char>>,
) -> Stated
    decreases at,
{
    if at == 0 {
        f
    } else {
        stage((at - 1) as nat, upto((at - 1) as nat, f, attrs, kind, side, exec_inst, parent), attrs, kind, side, exec_inst, parent)
    }
}

#[verifier::spinoff_prover]
proof fn stage_by_stage(
    f: Stated,
    attrs: OrderAttrs,
    kind: OrderKind,
    side: Side,
    exec_inst: Seq<char>,
    parent: Option<Seq<char>>,
)
    ensures
        attr_fields(f, attrs, kind, side, exec_inst, parent) == upto(18, f, attrs, kind, side, exec_inst, parent),
{
    reveal(stage);
    reveal_with_fuel(upto, 19);
}

#[verifier::spinoff_prover]
proof fn stage_keeps(
    at: nat,
    f: Stated,
    attrs: OrderAttrs,
    kind: OrderKind,
    side: Side,
    exec_inst: Seq<char>,
    parent: Option<Seq<char>>,
    tag: u32,
)
    requires
        !stage_tag(at, tag),
    ensures
        texts_under(stage(at, f, attrs, kind, side, exec_inst, parent), tag) == texts_under(f, tag),
{
    reveal(stage);
    if at == 0 {
        life_keeps(f, attrs, tag);
    }     else if at == 1 {
        link_keeps(f, attrs, parent, tag);
    }     else if at == 2 {
        execution_keeps(f, attrs, kind, exec_inst, tag);
    }     else if at == 3 {
        instruction_keeps(f, attrs, tag);
    }     else if at == 4 {
        account_keeps(f, attrs, tag);
    }     else if at == 5 {
        pricing_keeps(f, attrs, tag);
    }     else if at == 6 {
        combo_keeps(f, attrs, tag);
    }     else if at == 7 {
        lifecycle_keeps(f, attrs, tag);
    }     else if at == 8 {
        short_sale_keeps(f, attrs, side, tag);
    }     else if at == 9 {
        hedge_keeps(f, attrs, tag);
    }     else if at == 10 {
        delta_neutral_keeps(f, attrs, tag);
    }     else if at == 11 {
        scale_keeps(f, attrs, tag);
    }     else if at == 12 {
        soft_dollar_keeps(f, attrs, tag);
    }     else if at == 13 {
        closing_keeps(f, attrs, tag);
    }     else if at == 14 {
        condition_keeps(f, attrs, tag);
    }     else if at == 15 {
        adjustable_keeps(f, kind, tag);
    }     else if at == 16 {
        companion_keeps(f, attrs, kind, tag);
    }     else if at == 17 {
        strategy_keeps(f, attrs, kind, tag);
    }
}

proof fn upto_keeps(
    from: nat,
    at: nat,
    f: Stated,
    attrs: OrderAttrs,
    kind: OrderKind,
    side: Side,
    exec_inst: Seq<char>,
    parent: Option<Seq<char>>,
    tag: u32,
)
    requires
        from <= at,
        forall|k: nat| from <= k < at ==> !#[trigger] stage_tag(k, tag),
    ensures
        texts_under(upto(at, f, attrs, kind, side, exec_inst, parent), tag) == texts_under(
            upto(from, f, attrs, kind, side, exec_inst, parent),
            tag,
        ),
    decreases at,
{
    if from < at {
        upto_keeps(from, (at - 1) as nat, f, attrs, kind, side, exec_inst, parent, tag);
        assert(!stage_tag((at - 1) as nat, tag));
        stage_keeps((at - 1) as nat, upto((at - 1) as nat, f, attrs, kind, side, exec_inst, parent), attrs, kind, side, exec_inst, parent, tag);
    }
}

/// The one stage that states a tag says all of it that the attributes say.
proof fn said_at(
    at: nat,
    f: Stated,
    attrs: OrderAttrs,
    kind: OrderKind,
    side: Side,
    exec_inst: Seq<char>,
    parent: Option<Seq<char>>,
    tag: u32,
) -> (g: Stated)
    requires
        at < 18,
        forall|k: nat| k < 18 && k != at ==> !#[trigger] stage_tag(k, tag),
    ensures
        texts_under(g, tag) == texts_under(f, tag),
        g == upto(at, f, attrs, kind, side, exec_inst, parent),
        texts_under(attr_fields(f, attrs, kind, side, exec_inst, parent), tag) == texts_under(
            stage(at, g, attrs, kind, side, exec_inst, parent),
            tag,
        ),
{
    stage_by_stage(f, attrs, kind, side, exec_inst, parent);
    upto_keeps(0, at, f, attrs, kind, side, exec_inst, parent, tag);
    upto_keeps(at + 1, 18, f, attrs, kind, side, exec_inst, parent, tag);
    upto(at, f, attrs, kind, side, exec_inst, parent)
}

/// Nothing an order's attributes state is under a tag no attribute has.
pub proof fn attributes_say_nothing_else(
    f: Stated,
    attrs: OrderAttrs,
    kind: OrderKind,
    side: Side,
    exec_inst: Seq<char>,
    parent: Option<Seq<char>>,
    tag: u32,
)
    requires
        !attribute_tag(tag),
    ensures
        texts_under(attr_fields(f, attrs, kind, side, exec_inst, parent), tag) == texts_under(
            f,
            tag,
        ),
{
    stage_by_stage(f, attrs, kind, side, exec_inst, parent);
    assert forall|k: nat| 0 <= k < 18 implies !#[trigger] stage_tag(k, tag) by {}
    upto_keeps(0, 18, f, attrs, kind, side, exec_inst, parent, tag);
}

/// The words of an instruction, a space between each two.
pub open spec fn spaced(words: Seq<Seq<char>>) -> Seq<char>
    decreases words.len(),
{
    if words.len() == 0 {
        Seq::empty()
    } else if words.len() == 1 {
        words[0]
    } else {
        spaced(words.drop_last()) + " "@ + words.last()
    }
}

proof fn word_by_word(words: Seq<Seq<char>>, word: Seq<char>)
    ensures
        spaced(words.push(word)) == (if words.len() == 0 {
            word
        } else {
            spaced(words) + " "@ + word
        }),
{
    if words.len() > 0 {
        assert(words.push(word).drop_last() =~= words);
    }
}

/// How much of an order shows, and when it begins and ends.
pub open spec fn how_an_order_lives(before: Stated, after: Stated, attrs: OrderAttrs) -> bool {
    &&& texts_under(after, 111) == more(texts_under(before, 111), attrs.display_size > 0, digits(attrs.display_size as nat))
    &&& texts_under(after, 110) == more(texts_under(before, 110), attrs.min_qty > 0, digits(attrs.min_qty as nat))
    &&& texts_under(after, 6433) == more(texts_under(before, 6433), attrs.outside_rth, "1"@)
    &&& texts_under(after, 6135) == more(texts_under(before, 6135), attrs.hidden, "1"@)
    &&& texts_under(after, 168) == more(texts_under(before, 168), attrs.good_after > 0, ib_utc_dash(attrs.good_after as nat))
    &&& texts_under(after, 432) == more(texts_under(before, 432), attrs.good_till_date_ymd > 0, padded(attrs.good_till_date_ymd as nat, 8))
    &&& texts_under(after, 126) == more(texts_under(before, 126), attrs.good_till_date_ymd == 0 && attrs.good_till > 0, ib_utc_dash(attrs.good_till as nat))
    &&& texts_under(after, 6436) == more(texts_under(before, 6436), attrs.deactivate_at_close, "1"@)
}

#[verifier::spinoff_prover]
#[verifier::rlimit(40)]
proof fn life_says(f: Stated, attrs: OrderAttrs)
    ensures
        how_an_order_lives(f, life_fields(f, attrs), attrs),
{
    broadcast use {one_is_said_where_stated, one_more_is_said};

}

/// How much of an order shows, and when it begins and ends.
#[verifier::spinoff_prover]
pub proof fn an_order_states_how_an_order_lives(
    f: Stated,
    attrs: OrderAttrs,
    kind: OrderKind,
    side: Side,
    exec_inst: Seq<char>,
    parent: Option<Seq<char>>,
)
    ensures
        how_an_order_lives(f, attr_fields(f, attrs, kind, side, exec_inst, parent), attrs),
{
    let g = upto(0, f, attrs, kind, side, exec_inst, parent);
    assert(stage(0, g, attrs, kind, side, exec_inst, parent) == life_fields(g, attrs)) by {
        reveal(stage);
    }
    life_says(g, attrs);
    said_at(0, f, attrs, kind, side, exec_inst, parent, 111);
    said_at(0, f, attrs, kind, side, exec_inst, parent, 110);
    said_at(0, f, attrs, kind, side, exec_inst, parent, 6433);
    said_at(0, f, attrs, kind, side, exec_inst, parent, 6135);
    said_at(0, f, attrs, kind, side, exec_inst, parent, 168);
    said_at(0, f, attrs, kind, side, exec_inst, parent, 432);
    said_at(0, f, attrs, kind, side, exec_inst, parent, 126);
    said_at(0, f, attrs, kind, side, exec_inst, parent, 6436);
}

/// The group an order cancels with and how, unless it is a preview; the family
/// it is attached to; and the order it hangs from.
pub open spec fn what_an_order_hangs_from(before: Stated, after: Stated, attrs: OrderAttrs, parent: Option<Seq<char>>) -> bool {
    let group = if attrs.oca_group_str@.len() > 0 {
        attrs.oca_group_str@
    } else if attrs.oca_group > 0 {
        "OCA_"@ + digits(attrs.oca_group as nat)
    } else {
        Seq::empty()
    };
    let how = if attrs.oca_type == 1 {
        "CancelOnFillWBlock"@
    } else if attrs.oca_type == 2 {
        "ReduceOnFillWBlock"@
    } else if attrs.oca_type == 4 {
        "ReduceOnFillWBlockFromTotal"@
    } else {
        "ReduceOnFillNonBlock"@
    };
    &&& texts_under(after, 583) == more(texts_under(before, 583), group.len() > 0 && !attrs.what_if, group)
    &&& texts_under(after, 6209) == more(texts_under(before, 6209), group.len() > 0 && !attrs.what_if, how)
    &&& texts_under(after, 6531) == more(texts_under(before, 6531), attrs.attached is Some && attrs.attached->0.family_key@.len() > 0, attrs.attached->0.family_key@)
    &&& texts_under(after, 6724) == more(texts_under(before, 6724), attrs.attached is Some && attrs.attached->0.ratio_factor is Some, attrs.attached->0.ratio_factor->0@)
    &&& texts_under(after, 6704) == more(texts_under(before, 6704), attrs.attached is Some && attrs.attached->0.use_parent_price, "1"@)
    &&& texts_under(after, 6107) == more(texts_under(before, 6107), parent is Some, parent->0)
}

#[verifier::spinoff_prover]
#[verifier::rlimit(40)]
proof fn link_says(f: Stated, attrs: OrderAttrs, parent: Option<Seq<char>>)
    ensures
        what_an_order_hangs_from(f, link_fields(f, attrs, parent), attrs, parent),
{
    broadcast use {one_is_said_where_stated, one_more_is_said};

}

/// The group an order cancels with and how, unless it is a preview; the family
/// it is attached to; and the order it hangs from.
#[verifier::spinoff_prover]
pub proof fn an_order_states_what_an_order_hangs_from(
    f: Stated,
    attrs: OrderAttrs,
    kind: OrderKind,
    side: Side,
    exec_inst: Seq<char>,
    parent: Option<Seq<char>>,
)
    ensures
        what_an_order_hangs_from(f, attr_fields(f, attrs, kind, side, exec_inst, parent), attrs, parent),
{
    let g = upto(1, f, attrs, kind, side, exec_inst, parent);
    assert(stage(1, g, attrs, kind, side, exec_inst, parent) == link_fields(g, attrs, parent)) by {
        reveal(stage);
    }
    link_says(g, attrs, parent);
    said_at(1, f, attrs, kind, side, exec_inst, parent, 583);
    said_at(1, f, attrs, kind, side, exec_inst, parent, 6209);
    said_at(1, f, attrs, kind, side, exec_inst, parent, 6531);
    said_at(1, f, attrs, kind, side, exec_inst, parent, 6724);
    said_at(1, f, attrs, kind, side, exec_inst, parent, 6704);
    said_at(1, f, attrs, kind, side, exec_inst, parent, 6107);
}

/// How much an order may give up beyond its price, whether it sweeps, and the
/// words of its instruction: its type's own; that it fills whole or not at all,
/// which no grouped or hedged order states; that a strategy works it; that it is
/// pegged to a benchmark.
pub open spec fn how_an_order_is_executed(before: Stated, after: Stated, attrs: OrderAttrs, kind: OrderKind, exec_inst: Seq<char>) -> bool {
    let words = more(
        Seq::empty(),
        exec_inst.len() > 0 && !two_part_mid(attrs, kind),
        exec_inst,
    );
    let words = more(
        words,
        attrs.all_or_none && attrs.oca_group_str@.len() == 0 && attrs.oca_group == 0
            && attrs.hedge_type == 0,
        "G"@,
    );
    let words = more(words, kind is Adaptive || kind is Algo, "e"@);
    let words = more(words, kind is PegBench, "R"@);
    &&& texts_under(after, 9813) == more(texts_under(before, 9813), attrs.discretionary_amt > 0, price_text(attrs.discretionary_amt as int))
    &&& texts_under(after, 6102) == more(texts_under(before, 6102), attrs.sweep_to_fill, "1"@)
    &&& texts_under(after, 18) == more(texts_under(before, 18), words.len() > 0, spaced(words))
}

#[verifier::spinoff_prover]
#[verifier::rlimit(40)]
proof fn execution_says(f: Stated, attrs: OrderAttrs, kind: OrderKind, exec_inst: Seq<char>)
    ensures
        how_an_order_is_executed(f, execution_fields(f, attrs, kind, exec_inst), attrs, kind, exec_inst),
{
    broadcast use {one_is_said_where_stated, one_more_is_said};

    reveal_strlit("G");
    reveal_strlit("e");
    reveal_strlit("R");
    reveal_strlit("OCA_");
    let none = Seq::<Seq<char>>::empty();
    let one = more(none, exec_inst.len() > 0 && !two_part_mid(attrs, kind), exec_inst);
    let two = more(
        one,
        attrs.all_or_none && attrs.oca_group_str@.len() == 0 && attrs.oca_group == 0
            && attrs.hedge_type == 0,
        "G"@,
    );
    let three = more(two, kind is Adaptive || kind is Algo, "e"@);
    word_by_word(none, exec_inst);
    word_by_word(one, "G"@);
    word_by_word(two, "e"@);
    word_by_word(three, "R"@);
}

/// How much an order may give up beyond its price, whether it sweeps, and the
/// words of its instruction: its type's own; that it fills whole or not at all,
/// which no grouped or hedged order states; that a strategy works it; that it is
/// pegged to a benchmark.
#[verifier::spinoff_prover]
pub proof fn an_order_states_how_an_order_is_executed(
    f: Stated,
    attrs: OrderAttrs,
    kind: OrderKind,
    side: Side,
    exec_inst: Seq<char>,
    parent: Option<Seq<char>>,
)
    ensures
        how_an_order_is_executed(f, attr_fields(f, attrs, kind, side, exec_inst, parent), attrs, kind, exec_inst),
{
    let g = upto(2, f, attrs, kind, side, exec_inst, parent);
    assert(stage(2, g, attrs, kind, side, exec_inst, parent) == execution_fields(g, attrs, kind, exec_inst)) by {
        reveal(stage);
    }
    execution_says(g, attrs, kind, exec_inst);
    said_at(2, f, attrs, kind, side, exec_inst, parent, 9813);
    said_at(2, f, attrs, kind, side, exec_inst, parent, 6102);
    said_at(2, f, attrs, kind, side, exec_inst, parent, 18);
}

/// What the venue is asked to do with an order.
pub open spec fn what_is_asked_of_the_venue(before: Stated, after: Stated, attrs: OrderAttrs) -> bool {
    &&& texts_under(after, 9816) == more(texts_under(before, 9816), attrs.volatility.standing is Above || attrs.volatility.standing is Unset, attrs.volatility.text@)
    &&& texts_under(after, 6280) == more(texts_under(before, 6280), attrs.volatility_type > 0, decimal(attrs.volatility_type as int))
    &&& texts_under(after, 6557) == more(texts_under(before, 6557), attrs.seek_price_improvement, "1"@)
    &&& texts_under(after, 6532) == more(texts_under(before, 6532), attrs.manual_order_time@.len() > 0, attrs.manual_order_time@)
    &&& texts_under(after, 8229) == more(texts_under(before, 8229), attrs.advanced_error_override@.len() > 0, attrs.advanced_error_override@)
    &&& texts_under(after, 6670) == more(texts_under(before, 6670), attrs.active_start_time@.len() > 0, attrs.active_start_time@)
    &&& texts_under(after, 6671) == more(texts_under(before, 6671), attrs.active_stop_time@.len() > 0, attrs.active_stop_time@)
    &&& texts_under(after, 6605) == more(texts_under(before, 6605), attrs.post_only, "1"@)
    &&& texts_under(after, 6488) == more(texts_under(before, 6488), attrs.solicited, "1"@)
    &&& texts_under(after, 1028) == more(more(texts_under(before, 1028), attrs.manual_order_indicator == 1, "Y"@), attrs.manual_order_indicator == 0, "N"@)
    &&& texts_under(after, 8265) == more(texts_under(before, 8265), attrs.route_marketable_to_bbo, "1"@)
    &&& texts_under(after, 6737) == more(texts_under(before, 6737), attrs.imbalance_only, "1"@)
    &&& texts_under(after, 6524) == more(texts_under(before, 6524), attrs.allow_pre_open, "1"@)
    &&& texts_under(after, 6562) == more(texts_under(before, 6562), attrs.ignore_open_auction, "1"@)
    &&& texts_under(after, 6406) == more(texts_under(before, 6406), attrs.is_oms_container, "1"@)
}

#[verifier::spinoff_prover]
#[verifier::rlimit(40)]
proof fn instruction_says(f: Stated, attrs: OrderAttrs)
    ensures
        what_is_asked_of_the_venue(f, instruction_fields(f, attrs), attrs),
{
    instruction_begins(f, attrs);
    instruction_ends(instruction_half(f, attrs), attrs);
}

/// What the venue is asked to do with an order.
#[verifier::spinoff_prover]
pub proof fn an_order_states_what_is_asked_of_the_venue(
    f: Stated,
    attrs: OrderAttrs,
    kind: OrderKind,
    side: Side,
    exec_inst: Seq<char>,
    parent: Option<Seq<char>>,
)
    ensures
        what_is_asked_of_the_venue(f, attr_fields(f, attrs, kind, side, exec_inst, parent), attrs),
{
    let g = upto(3, f, attrs, kind, side, exec_inst, parent);
    assert(stage(3, g, attrs, kind, side, exec_inst, parent) == instruction_fields(g, attrs)) by {
        reveal(stage);
    }
    instruction_says(g, attrs);
    said_at(3, f, attrs, kind, side, exec_inst, parent, 9816);
    said_at(3, f, attrs, kind, side, exec_inst, parent, 6280);
    said_at(3, f, attrs, kind, side, exec_inst, parent, 6557);
    said_at(3, f, attrs, kind, side, exec_inst, parent, 6532);
    said_at(3, f, attrs, kind, side, exec_inst, parent, 8229);
    said_at(3, f, attrs, kind, side, exec_inst, parent, 6670);
    said_at(3, f, attrs, kind, side, exec_inst, parent, 6671);
    said_at(3, f, attrs, kind, side, exec_inst, parent, 6605);
    said_at(3, f, attrs, kind, side, exec_inst, parent, 6488);
    said_at(3, f, attrs, kind, side, exec_inst, parent, 1028);
    said_at(3, f, attrs, kind, side, exec_inst, parent, 8265);
    said_at(3, f, attrs, kind, side, exec_inst, parent, 6737);
    said_at(3, f, attrs, kind, side, exec_inst, parent, 6524);
    said_at(3, f, attrs, kind, side, exec_inst, parent, 6562);
    said_at(3, f, attrs, kind, side, exec_inst, parent, 6406);
}

/// Who an order is for and how it is split. The default model is not stated.
pub open spec fn who_an_order_is_for(before: Stated, after: Stated, attrs: OrderAttrs) -> bool {
    &&& texts_under(after, 8089) == more(texts_under(before, 8089), attrs.ext_operator@.len() > 0, attrs.ext_operator@)
    &&& texts_under(after, 6207) == more(texts_under(before, 6207), attrs.customer_account@.len() > 0, attrs.customer_account@)
    &&& texts_under(after, 6700) == more(texts_under(before, 6700), attrs.model_code@.len() > 0 && attrs.model_code@ != "Core"@, attrs.model_code@)
    &&& texts_under(after, 6160) == more(texts_under(before, 6160), attrs.fa_group@.len() > 0, attrs.fa_group@)
    &&& texts_under(after, 6159) == more(texts_under(before, 6159), attrs.fa_method@.len() > 0, attrs.fa_method@)
    &&& texts_under(after, 6164) == more(texts_under(before, 6164), attrs.fa_percentage@.len() > 0, attrs.fa_percentage@)
    &&& texts_under(after, 6636) == more(texts_under(before, 6636), attrs.professional_customer, "1"@)
    &&& texts_under(after, 6564) == more(texts_under(before, 6564), attrs.ref_futures_con_id > 0, decimal(attrs.ref_futures_con_id as int))
    &&& texts_under(after, 8237) == more(texts_under(before, 8237), attrs.mifid2_decision_maker@.len() > 0, attrs.mifid2_decision_maker@)
    &&& texts_under(after, 8243) == more(texts_under(before, 8243), attrs.mifid2_decision_algo@.len() > 0, attrs.mifid2_decision_algo@)
    &&& texts_under(after, 8254) == more(texts_under(before, 8254), attrs.mifid2_execution_trader@.len() > 0, attrs.mifid2_execution_trader@)
    &&& texts_under(after, 8255) == more(texts_under(before, 8255), attrs.mifid2_execution_algo@.len() > 0, attrs.mifid2_execution_algo@)
}

#[verifier::spinoff_prover]
#[verifier::rlimit(40)]
proof fn account_says(f: Stated, attrs: OrderAttrs)
    ensures
        who_an_order_is_for(f, account_fields(f, attrs), attrs),
{
    broadcast use {one_is_said_where_stated, one_more_is_said};

    let mid = account_half(f, attrs);
    assert(texts_under(mid, 8089) == texts_under(mid, 8089));
    assert(texts_under(mid, 6207) == texts_under(mid, 6207));
    assert(texts_under(mid, 6700) == texts_under(mid, 6700));
    assert(texts_under(mid, 6160) == texts_under(mid, 6160));
    assert(texts_under(mid, 6159) == texts_under(mid, 6159));
    assert(texts_under(mid, 6164) == texts_under(mid, 6164));
    assert(texts_under(mid, 6636) == texts_under(mid, 6636));
    assert(texts_under(mid, 6564) == texts_under(mid, 6564));
    assert(texts_under(mid, 8237) == texts_under(mid, 8237));
    assert(texts_under(mid, 8243) == texts_under(mid, 8243));
    assert(texts_under(mid, 8254) == texts_under(mid, 8254));
    assert(texts_under(mid, 8255) == texts_under(mid, 8255));
}

/// Who an order is for and how it is split. The default model is not stated.
#[verifier::spinoff_prover]
pub proof fn an_order_states_who_an_order_is_for(
    f: Stated,
    attrs: OrderAttrs,
    kind: OrderKind,
    side: Side,
    exec_inst: Seq<char>,
    parent: Option<Seq<char>>,
)
    ensures
        who_an_order_is_for(f, attr_fields(f, attrs, kind, side, exec_inst, parent), attrs),
{
    let g = upto(4, f, attrs, kind, side, exec_inst, parent);
    assert(stage(4, g, attrs, kind, side, exec_inst, parent) == account_fields(g, attrs)) by {
        reveal(stage);
    }
    account_says(g, attrs);
    said_at(4, f, attrs, kind, side, exec_inst, parent, 8089);
    said_at(4, f, attrs, kind, side, exec_inst, parent, 6207);
    said_at(4, f, attrs, kind, side, exec_inst, parent, 6700);
    said_at(4, f, attrs, kind, side, exec_inst, parent, 6160);
    said_at(4, f, attrs, kind, side, exec_inst, parent, 6159);
    said_at(4, f, attrs, kind, side, exec_inst, parent, 6164);
    said_at(4, f, attrs, kind, side, exec_inst, parent, 6636);
    said_at(4, f, attrs, kind, side, exec_inst, parent, 6564);
    said_at(4, f, attrs, kind, side, exec_inst, parent, 8237);
    said_at(4, f, attrs, kind, side, exec_inst, parent, 8243);
    said_at(4, f, attrs, kind, side, exec_inst, parent, 8254);
    said_at(4, f, attrs, kind, side, exec_inst, parent, 8255);
}

/// How the venue prices an order, and its caller's own name for it.
pub open spec fn how_an_order_is_priced(before: Stated, after: Stated, attrs: OrderAttrs) -> bool {
    &&& texts_under(after, 8339) == more(texts_under(before, 8339), attrs.use_price_mgmt_algo > 0, decimal(attrs.use_price_mgmt_algo as int))
    &&& texts_under(after, 8402) == more(texts_under(before, 8402), attrs.duration != i32::MAX && attrs.duration > 0, decimal(attrs.duration as int))
    &&& texts_under(after, 8411) == more(texts_under(before, 8411), attrs.min_compete_size > 0, decimal(attrs.min_compete_size as int))
    &&& texts_under(after, 8412) == more(texts_under(before, 8412), !(attrs.compete_against_best_offset.standing is Unset), attrs.compete_against_best_offset.text@)
    &&& texts_under(after, 6275) == more(texts_under(before, 6275), attrs.continuous_update, "1"@)
    &&& texts_under(after, 6279) == more(texts_under(before, 6279), attrs.reference_price_type > 0, decimal(attrs.reference_price_type as int))
    &&& texts_under(after, 6152) == more(texts_under(before, 6152), !(attrs.stock_range_lower.standing is Unset) && !(attrs.stock_range_lower.standing is Nought), attrs.stock_range_lower.text@)
    &&& texts_under(after, 6153) == more(texts_under(before, 6153), !(attrs.stock_range_upper.standing is Unset) && !(attrs.stock_range_upper.standing is Nought), attrs.stock_range_upper.text@)
    &&& texts_under(after, 9822) == more(texts_under(before, 9822), !(attrs.percent_offset.standing is Unset), attrs.percent_offset.text@)
    &&& texts_under(after, 6287) == more(texts_under(before, 6287), attrs.not_held, "1"@)
    &&& texts_under(after, 6010) == more(texts_under(before, 6010), attrs.order_ref@.len() > 0, attrs.order_ref@)
    &&& texts_under(after, 77) == more(texts_under(before, 77), attrs.open_close@.len() > 0, attrs.open_close@)
    &&& texts_under(after, 6809) == more(texts_under(before, 6809), attrs.exercise_action != 0, digits(attrs.exercise_action as nat))
}

#[verifier::spinoff_prover]
#[verifier::rlimit(40)]
proof fn pricing_says(f: Stated, attrs: OrderAttrs)
    ensures
        how_an_order_is_priced(f, pricing_fields(f, attrs), attrs),
{
    pricing_begins(f, attrs);
    pricing_ends(pricing_half(f, attrs), attrs);
}

/// How the venue prices an order, and its caller's own name for it.
#[verifier::spinoff_prover]
pub proof fn an_order_states_how_an_order_is_priced(
    f: Stated,
    attrs: OrderAttrs,
    kind: OrderKind,
    side: Side,
    exec_inst: Seq<char>,
    parent: Option<Seq<char>>,
)
    ensures
        how_an_order_is_priced(f, attr_fields(f, attrs, kind, side, exec_inst, parent), attrs),
{
    let g = upto(5, f, attrs, kind, side, exec_inst, parent);
    assert(stage(5, g, attrs, kind, side, exec_inst, parent) == pricing_fields(g, attrs)) by {
        reveal(stage);
    }
    pricing_says(g, attrs);
    said_at(5, f, attrs, kind, side, exec_inst, parent, 8339);
    said_at(5, f, attrs, kind, side, exec_inst, parent, 8402);
    said_at(5, f, attrs, kind, side, exec_inst, parent, 8411);
    said_at(5, f, attrs, kind, side, exec_inst, parent, 8412);
    said_at(5, f, attrs, kind, side, exec_inst, parent, 6275);
    said_at(5, f, attrs, kind, side, exec_inst, parent, 6279);
    said_at(5, f, attrs, kind, side, exec_inst, parent, 6152);
    said_at(5, f, attrs, kind, side, exec_inst, parent, 6153);
    said_at(5, f, attrs, kind, side, exec_inst, parent, 9822);
    said_at(5, f, attrs, kind, side, exec_inst, parent, 6287);
    said_at(5, f, attrs, kind, side, exec_inst, parent, 6010);
    said_at(5, f, attrs, kind, side, exec_inst, parent, 77);
    said_at(5, f, attrs, kind, side, exec_inst, parent, 6809);
}

/// Where an order clears and what becomes of it.
pub open spec fn what_becomes_of_an_order(before: Stated, after: Stated, attrs: OrderAttrs) -> bool {
    &&& texts_under(after, 440) == more(texts_under(before, 440), attrs.clearing_account@.len() > 0, attrs.clearing_account@)
    &&& texts_under(after, 6419) == more(texts_under(before, 6419), attrs.clearing_intent@.len() > 0, attrs.clearing_intent@)
    &&& texts_under(after, 6521) == more(texts_under(before, 6521), attrs.deactivate, "1"@)
    &&& texts_under(after, 6661) == more(texts_under(before, 6661), attrs.deactivate_on_disconnect, "1"@)
    &&& texts_under(after, 8534) == more(texts_under(before, 8534), attrs.include_overnight, "1"@)
    &&& texts_under(after, 6965) == more(texts_under(before, 6965), attrs.auto_cancel_parent, "1"@)
    &&& texts_under(after, 8415) == more(texts_under(before, 8415), attrs.min_trade_qty > 0, digits(attrs.min_trade_qty as nat))
    &&& texts_under(after, 9801) == more(texts_under(before, 9801), attrs.block_order, "Y"@)
    &&& texts_under(after, 6596) == more(texts_under(before, 6596), attrs.auto_cancel_date@.len() > 0, attrs.auto_cancel_date@)
    &&& texts_under(after, 47) == more(texts_under(before, 47), attrs.rule80a@.len() > 0, attrs.rule80a@)
    &&& texts_under(after, 8405) == more(texts_under(before, 8405), attrs.post_to_ats != 0, digits(attrs.post_to_ats as nat))
}

#[verifier::spinoff_prover]
#[verifier::rlimit(40)]
proof fn lifecycle_says(f: Stated, attrs: OrderAttrs)
    ensures
        what_becomes_of_an_order(f, lifecycle_fields(f, attrs), attrs),
{
    broadcast use {one_is_said_where_stated, one_more_is_said};

    let mid = lifecycle_half(f, attrs);
    assert(texts_under(mid, 440) == texts_under(mid, 440));
    assert(texts_under(mid, 6419) == texts_under(mid, 6419));
    assert(texts_under(mid, 6521) == texts_under(mid, 6521));
    assert(texts_under(mid, 6661) == texts_under(mid, 6661));
    assert(texts_under(mid, 8534) == texts_under(mid, 8534));
    assert(texts_under(mid, 6965) == texts_under(mid, 6965));
    assert(texts_under(mid, 8415) == texts_under(mid, 8415));
    assert(texts_under(mid, 9801) == texts_under(mid, 9801));
    assert(texts_under(mid, 6596) == texts_under(mid, 6596));
    assert(texts_under(mid, 47) == texts_under(mid, 47));
    assert(texts_under(mid, 8405) == texts_under(mid, 8405));
}

/// Where an order clears and what becomes of it.
#[verifier::spinoff_prover]
pub proof fn an_order_states_what_becomes_of_an_order(
    f: Stated,
    attrs: OrderAttrs,
    kind: OrderKind,
    side: Side,
    exec_inst: Seq<char>,
    parent: Option<Seq<char>>,
)
    ensures
        what_becomes_of_an_order(f, attr_fields(f, attrs, kind, side, exec_inst, parent), attrs),
{
    let g = upto(7, f, attrs, kind, side, exec_inst, parent);
    assert(stage(7, g, attrs, kind, side, exec_inst, parent) == lifecycle_fields(g, attrs)) by {
        reveal(stage);
    }
    lifecycle_says(g, attrs);
    said_at(7, f, attrs, kind, side, exec_inst, parent, 440);
    said_at(7, f, attrs, kind, side, exec_inst, parent, 6419);
    said_at(7, f, attrs, kind, side, exec_inst, parent, 6521);
    said_at(7, f, attrs, kind, side, exec_inst, parent, 6661);
    said_at(7, f, attrs, kind, side, exec_inst, parent, 8534);
    said_at(7, f, attrs, kind, side, exec_inst, parent, 6965);
    said_at(7, f, attrs, kind, side, exec_inst, parent, 8415);
    said_at(7, f, attrs, kind, side, exec_inst, parent, 9801);
    said_at(7, f, attrs, kind, side, exec_inst, parent, 6596);
    said_at(7, f, attrs, kind, side, exec_inst, parent, 47);
    said_at(7, f, attrs, kind, side, exec_inst, parent, 8405);
}

/// Where a short sale borrows. No other side states it.
pub open spec fn where_a_short_sale_borrows(before: Stated, after: Stated, attrs: OrderAttrs, side: Side) -> bool {
    &&& texts_under(after, 114) == more(texts_under(before, 114), side is ShortSell, if attrs.designated_location@ == "TMBR"@ || attrs.designated_location@ == "IBKR"@ { "Y"@ } else { "N"@ })
    &&& texts_under(after, 5700) == more(texts_under(before, 5700), side is ShortSell && attrs.short_sale_slot == 2 && attrs.designated_location@.len() > 0, attrs.designated_location@)
    &&& texts_under(after, 1688) == more(texts_under(before, 1688), side is ShortSell && attrs.exempt_code != -1, decimal(attrs.exempt_code as int))
}

#[verifier::spinoff_prover]
#[verifier::rlimit(40)]
proof fn short_sale_says(f: Stated, attrs: OrderAttrs, side: Side)
    ensures
        where_a_short_sale_borrows(f, short_sale_fields(f, attrs, side), attrs, side),
{
    broadcast use {one_is_said_where_stated, one_more_is_said};

}

/// Where a short sale borrows. No other side states it.
#[verifier::spinoff_prover]
pub proof fn an_order_states_where_a_short_sale_borrows(
    f: Stated,
    attrs: OrderAttrs,
    kind: OrderKind,
    side: Side,
    exec_inst: Seq<char>,
    parent: Option<Seq<char>>,
)
    ensures
        where_a_short_sale_borrows(f, attr_fields(f, attrs, kind, side, exec_inst, parent), attrs, side),
{
    let g = upto(8, f, attrs, kind, side, exec_inst, parent);
    assert(stage(8, g, attrs, kind, side, exec_inst, parent) == short_sale_fields(g, attrs, side)) by {
        reveal(stage);
    }
    short_sale_says(g, attrs, side);
    said_at(8, f, attrs, kind, side, exec_inst, parent, 114);
    said_at(8, f, attrs, kind, side, exec_inst, parent, 5700);
    said_at(8, f, attrs, kind, side, exec_inst, parent, 1688);
}

/// What an order is hedged by.
pub open spec fn what_hedges_an_order(before: Stated, after: Stated, attrs: OrderAttrs) -> bool {
    &&& texts_under(after, 6665) == more(texts_under(before, 6665), attrs.hedge_type != 0, digits(attrs.hedge_type as nat))
    &&& texts_under(after, 6703) == more(texts_under(before, 6703), attrs.hedge_type != 0 && !(attrs.hedge_beta.standing is Nought), attrs.hedge_beta.text@)
    &&& texts_under(after, 6690) == more(texts_under(before, 6690), attrs.hedge_type != 0 && attrs.hedge_max_size is Some, decimal(attrs.hedge_max_size->0 as int))
    &&& texts_under(after, 6666) == more(texts_under(before, 6666), attrs.hedge_type != 0 && !(attrs.hedge_ratio.standing is Nought), attrs.hedge_ratio.text@)
    &&& texts_under(after, 207) == more(texts_under(before, 207), attrs.primary_exchange@.len() > 0, attrs.primary_exchange@)
}

#[verifier::spinoff_prover]
#[verifier::rlimit(40)]
proof fn hedge_says(f: Stated, attrs: OrderAttrs)
    ensures
        what_hedges_an_order(f, hedge_fields(f, attrs), attrs),
{
    broadcast use {one_is_said_where_stated, one_more_is_said};

}

/// What an order is hedged by.
#[verifier::spinoff_prover]
pub proof fn an_order_states_what_hedges_an_order(
    f: Stated,
    attrs: OrderAttrs,
    kind: OrderKind,
    side: Side,
    exec_inst: Seq<char>,
    parent: Option<Seq<char>>,
)
    ensures
        what_hedges_an_order(f, attr_fields(f, attrs, kind, side, exec_inst, parent), attrs),
{
    let g = upto(9, f, attrs, kind, side, exec_inst, parent);
    assert(stage(9, g, attrs, kind, side, exec_inst, parent) == hedge_fields(g, attrs)) by {
        reveal(stage);
    }
    hedge_says(g, attrs);
    said_at(9, f, attrs, kind, side, exec_inst, parent, 6665);
    said_at(9, f, attrs, kind, side, exec_inst, parent, 6703);
    said_at(9, f, attrs, kind, side, exec_inst, parent, 6690);
    said_at(9, f, attrs, kind, side, exec_inst, parent, 6666);
    said_at(9, f, attrs, kind, side, exec_inst, parent, 207);
}

/// The contract that keeps an order neutral, and the order that hedges it.
pub open spec fn what_keeps_an_order_neutral(before: Stated, after: Stated, attrs: OrderAttrs) -> bool {
    let hedging = if attrs.attached is Some && attrs.attached->0.combo is Some {
        attrs.attached->0.combo->0.delta_neutral_contract
    } else {
        attrs.delta_neutral_contract
    };
    let con_id = if hedging is Some && hedging->0.con_id != 0 {
        hedging->0.con_id
    } else if attrs.delta_neutral is Some {
        attrs.delta_neutral->0.con_id
    } else {
        0
    };
    &&& texts_under(after, 6148) == more(texts_under(before, 6148), hedging is Some, hedging->0.delta.text@)
    &&& texts_under(after, 6149) == more(texts_under(before, 6149), hedging is Some, hedging->0.price.text@)
    &&& texts_under(after, 6290) == more(texts_under(before, 6290), attrs.delta_neutral is Some, attrs.delta_neutral->0.order_type@)
    &&& texts_under(after, 6291) == more(texts_under(before, 6291), attrs.delta_neutral is Some && attrs.delta_neutral->0.aux_price != 0, price_text(attrs.delta_neutral->0.aux_price as int))
    &&& texts_under(after, 6150) == more(texts_under(before, 6150), con_id != 0, decimal(con_id as int))
}

#[verifier::spinoff_prover]
#[verifier::rlimit(40)]
proof fn delta_neutral_says(f: Stated, attrs: OrderAttrs)
    ensures
        what_keeps_an_order_neutral(f, delta_neutral_fields(f, attrs), attrs),
{
    broadcast use {one_is_said_where_stated, one_more_is_said};

}

/// The contract that keeps an order neutral, and the order that hedges it.
#[verifier::spinoff_prover]
pub proof fn an_order_states_what_keeps_an_order_neutral(
    f: Stated,
    attrs: OrderAttrs,
    kind: OrderKind,
    side: Side,
    exec_inst: Seq<char>,
    parent: Option<Seq<char>>,
)
    ensures
        what_keeps_an_order_neutral(f, attr_fields(f, attrs, kind, side, exec_inst, parent), attrs),
{
    let g = upto(10, f, attrs, kind, side, exec_inst, parent);
    assert(stage(10, g, attrs, kind, side, exec_inst, parent) == delta_neutral_fields(g, attrs)) by {
        reveal(stage);
    }
    delta_neutral_says(g, attrs);
    said_at(10, f, attrs, kind, side, exec_inst, parent, 6148);
    said_at(10, f, attrs, kind, side, exec_inst, parent, 6149);
    said_at(10, f, attrs, kind, side, exec_inst, parent, 6290);
    said_at(10, f, attrs, kind, side, exec_inst, parent, 6291);
    said_at(10, f, attrs, kind, side, exec_inst, parent, 6150);
}

/// The levels a ladder of components is worked by.
pub open spec fn how_a_ladder_steps(before: Stated, after: Stated, attrs: OrderAttrs) -> bool {
    let scale = attrs.scale->0;
    &&& texts_under(after, 6403) == more(texts_under(before, 6403), attrs.scale is Some && scale.init_level_size > 0, digits(scale.init_level_size as nat))
    &&& texts_under(after, 6445) == more(texts_under(before, 6445), attrs.scale is Some && scale.subs_level_size > 0, digits(scale.subs_level_size as nat))
    &&& texts_under(after, 6405) == more(texts_under(before, 6405), attrs.scale is Some && scale.price_increment > 0, price_text(scale.price_increment as int))
    &&& texts_under(after, 6527) == more(texts_under(before, 6527), attrs.scale is Some && scale.price_adjust_value != 0, price_text(scale.price_adjust_value as int))
    &&& texts_under(after, 6526) == more(texts_under(before, 6526), attrs.scale is Some && scale.price_adjust_interval > 0, digits(scale.price_adjust_interval as nat))
    &&& texts_under(after, 6461) == more(texts_under(before, 6461), attrs.scale is Some && scale.auto_reset, "1"@)
    &&& texts_under(after, 6795) == more(texts_under(before, 6795), attrs.scale is Some && scale.random_percent, "1"@)
    &&& texts_under(after, 6485) == more(texts_under(before, 6485), attrs.scale is Some && scale.init_position != 0, decimal(scale.init_position as int))
    &&& texts_under(after, 6486) == more(texts_under(before, 6486), attrs.scale is Some && scale.init_fill_qty is Some, decimal(scale.init_fill_qty->0 as int))
}

#[verifier::spinoff_prover]
#[verifier::rlimit(40)]
proof fn scale_says(f: Stated, attrs: OrderAttrs)
    ensures
        how_a_ladder_steps(f, scale_fields(f, attrs), attrs),
{
    broadcast use {one_is_said_where_stated, one_more_is_said};

    let mid = scale_half(f, attrs);
    assert(texts_under(mid, 6403) == texts_under(mid, 6403));
    assert(texts_under(mid, 6445) == texts_under(mid, 6445));
    assert(texts_under(mid, 6405) == texts_under(mid, 6405));
    assert(texts_under(mid, 6527) == texts_under(mid, 6527));
    assert(texts_under(mid, 6526) == texts_under(mid, 6526));
    assert(texts_under(mid, 6461) == texts_under(mid, 6461));
    assert(texts_under(mid, 6795) == texts_under(mid, 6795));
    assert(texts_under(mid, 6485) == texts_under(mid, 6485));
    assert(texts_under(mid, 6486) == texts_under(mid, 6486));
}

/// The levels a ladder of components is worked by.
#[verifier::spinoff_prover]
pub proof fn an_order_states_how_a_ladder_steps(
    f: Stated,
    attrs: OrderAttrs,
    kind: OrderKind,
    side: Side,
    exec_inst: Seq<char>,
    parent: Option<Seq<char>>,
)
    ensures
        how_a_ladder_steps(f, attr_fields(f, attrs, kind, side, exec_inst, parent), attrs),
{
    let g = upto(11, f, attrs, kind, side, exec_inst, parent);
    assert(stage(11, g, attrs, kind, side, exec_inst, parent) == scale_fields(g, attrs)) by {
        reveal(stage);
    }
    scale_says(g, attrs);
    said_at(11, f, attrs, kind, side, exec_inst, parent, 6403);
    said_at(11, f, attrs, kind, side, exec_inst, parent, 6445);
    said_at(11, f, attrs, kind, side, exec_inst, parent, 6405);
    said_at(11, f, attrs, kind, side, exec_inst, parent, 6527);
    said_at(11, f, attrs, kind, side, exec_inst, parent, 6526);
    said_at(11, f, attrs, kind, side, exec_inst, parent, 6461);
    said_at(11, f, attrs, kind, side, exec_inst, parent, 6795);
    said_at(11, f, attrs, kind, side, exec_inst, parent, 6485);
    said_at(11, f, attrs, kind, side, exec_inst, parent, 6486);
}

/// The soft-dollar arrangement, both parts of it or neither.
pub open spec fn how_an_order_is_paid_for(before: Stated, after: Stated, attrs: OrderAttrs) -> bool {
    &&& texts_under(after, 6519) == more(texts_under(before, 6519), attrs.soft_dollar_tier_name@.len() > 0 && attrs.soft_dollar_tier_val@.len() > 0, attrs.soft_dollar_tier_name@)
    &&& texts_under(after, 6520) == more(texts_under(before, 6520), attrs.soft_dollar_tier_name@.len() > 0 && attrs.soft_dollar_tier_val@.len() > 0, attrs.soft_dollar_tier_val@)
}

#[verifier::spinoff_prover]
#[verifier::rlimit(40)]
proof fn soft_dollar_says(f: Stated, attrs: OrderAttrs)
    ensures
        how_an_order_is_paid_for(f, soft_dollar_fields(f, attrs), attrs),
{
    broadcast use {one_is_said_where_stated, one_more_is_said};

}

/// The soft-dollar arrangement, both parts of it or neither.
#[verifier::spinoff_prover]
pub proof fn an_order_states_how_an_order_is_paid_for(
    f: Stated,
    attrs: OrderAttrs,
    kind: OrderKind,
    side: Side,
    exec_inst: Seq<char>,
    parent: Option<Seq<char>>,
)
    ensures
        how_an_order_is_paid_for(f, attr_fields(f, attrs, kind, side, exec_inst, parent), attrs),
{
    let g = upto(12, f, attrs, kind, side, exec_inst, parent);
    assert(stage(12, g, attrs, kind, side, exec_inst, parent) == soft_dollar_fields(g, attrs)) by {
        reveal(stage);
    }
    soft_dollar_says(g, attrs);
    said_at(12, f, attrs, kind, side, exec_inst, parent, 6519);
    said_at(12, f, attrs, kind, side, exec_inst, parent, 6520);
}

/// What settles an order and triggers it.
pub open spec fn what_triggers_an_order(before: Stated, after: Stated, attrs: OrderAttrs) -> bool {
    &&& texts_under(after, 8016) == more(texts_under(before, 8016), attrs.algo_id@.len() > 0, attrs.algo_id@)
    &&& texts_under(after, 6282) == more(texts_under(before, 6282), attrs.settling_firm@.len() > 0, attrs.settling_firm@)
    &&& texts_under(after, 8165) == more(texts_under(before, 8165), attrs.discretionary_up_to_limit, "1"@)
    &&& texts_under(after, 6115) == more(texts_under(before, 6115), attrs.trigger_method > 0, decimal(attrs.trigger_method as int))
    &&& texts_under(after, 152) == more(texts_under(before, 152), attrs.cash_qty > 0, price_text(attrs.cash_qty as int))
}

#[verifier::spinoff_prover]
#[verifier::rlimit(40)]
proof fn closing_says(f: Stated, attrs: OrderAttrs)
    ensures
        what_triggers_an_order(f, closing_fields(f, attrs), attrs),
{
    broadcast use {one_is_said_where_stated, one_more_is_said};

}

/// What settles an order and triggers it.
#[verifier::spinoff_prover]
pub proof fn an_order_states_what_triggers_an_order(
    f: Stated,
    attrs: OrderAttrs,
    kind: OrderKind,
    side: Side,
    exec_inst: Seq<char>,
    parent: Option<Seq<char>>,
)
    ensures
        what_triggers_an_order(f, attr_fields(f, attrs, kind, side, exec_inst, parent), attrs),
{
    let g = upto(13, f, attrs, kind, side, exec_inst, parent);
    assert(stage(13, g, attrs, kind, side, exec_inst, parent) == closing_fields(g, attrs)) by {
        reveal(stage);
    }
    closing_says(g, attrs);
    said_at(13, f, attrs, kind, side, exec_inst, parent, 8016);
    said_at(13, f, attrs, kind, side, exec_inst, parent, 6282);
    said_at(13, f, attrs, kind, side, exec_inst, parent, 8165);
    said_at(13, f, attrs, kind, side, exec_inst, parent, 6115);
    said_at(13, f, attrs, kind, side, exec_inst, parent, 152);
}

/// What an adjustable stop turns into, and at which price.
pub open spec fn what_a_stop_becomes(before: Stated, after: Stated, kind: OrderKind) -> bool {
    let trails = kind->adjusted_order_type is Trail || kind->adjusted_order_type is TrailLimit;
    &&& texts_under(after, 6257) == more(texts_under(before, 6257), kind is AdjustableStop, "1"@)
    &&& texts_under(after, 6261) == more(texts_under(before, 6261), kind is AdjustableStop, kind->adjusted_order_type.code())
    &&& texts_under(after, 6258) == more(texts_under(before, 6258), kind is AdjustableStop, price_text(kind->trigger_price as int))
    &&& texts_under(after, 6259) == more(texts_under(before, 6259), kind is AdjustableStop, price_text(kind->adjusted_stop_price as int))
    &&& texts_under(after, 6262) == more(texts_under(before, 6262), kind is AdjustableStop && kind->adjusted_stop_limit_price > 0, price_text(kind->adjusted_stop_limit_price as int))
    &&& texts_under(after, 6260) == more(texts_under(before, 6260), kind is AdjustableStop && trails, price_text(kind->adjusted_trailing_amount as int))
    &&& texts_under(after, 6269) == more(texts_under(before, 6269), kind is AdjustableStop && trails, decimal(kind->adjustable_trailing_unit as int))
}

#[verifier::spinoff_prover]
#[verifier::rlimit(40)]
proof fn adjustable_says(f: Stated, kind: OrderKind)
    ensures
        what_a_stop_becomes(f, adjustable_fields(f, kind), kind),
{
    broadcast use {one_is_said_where_stated, one_more_is_said};

}

/// What an adjustable stop turns into, and at which price.
#[verifier::spinoff_prover]
pub proof fn an_order_states_what_a_stop_becomes(
    f: Stated,
    attrs: OrderAttrs,
    kind: OrderKind,
    side: Side,
    exec_inst: Seq<char>,
    parent: Option<Seq<char>>,
)
    ensures
        what_a_stop_becomes(f, attr_fields(f, attrs, kind, side, exec_inst, parent), kind),
{
    let g = upto(15, f, attrs, kind, side, exec_inst, parent);
    assert(stage(15, g, attrs, kind, side, exec_inst, parent) == adjustable_fields(g, kind)) by {
        reveal(stage);
    }
    adjustable_says(g, kind);
    said_at(15, f, attrs, kind, side, exec_inst, parent, 6257);
    said_at(15, f, attrs, kind, side, exec_inst, parent, 6261);
    said_at(15, f, attrs, kind, side, exec_inst, parent, 6258);
    said_at(15, f, attrs, kind, side, exec_inst, parent, 6259);
    said_at(15, f, attrs, kind, side, exec_inst, parent, 6262);
    said_at(15, f, attrs, kind, side, exec_inst, parent, 6260);
    said_at(15, f, attrs, kind, side, exec_inst, parent, 6269);
}

/// The cap, the offset and the first trigger a type states behind the rest.
pub open spec fn what_a_type_states_last(before: Stated, after: Stated, attrs: OrderAttrs, kind: OrderKind) -> bool {
    let (caps, cap) = match kind {
        OrderKind::MidPrice { price_cap } => (price_cap != 0, price_cap),
        OrderKind::PegMkt { price_cap, .. } => (price_cap != 0, price_cap),
        OrderKind::PassiveRel { price_cap, .. } => (price_cap != 0, price_cap),
        OrderKind::PegMid { price_cap, .. } => (price_cap != 0, price_cap),
        _ => (false, 0),
    };
    let (pegs, peg) = match kind {
        OrderKind::PegMkt { offset, .. } => (true, offset),
        OrderKind::PassiveRel { offset, .. } => (true, offset),
        OrderKind::PegMid { offset, .. } => (true, offset),
        _ => (false, 0),
    };
    let first = match kind {
        OrderKind::TrailingStop { trail_stop_price, .. } => trail_stop_price,
        OrderKind::TrailingStopLimit { trail_stop_price, .. } => trail_stop_price,
        OrderKind::TrailPct { trail_stop_price, .. } => trail_stop_price,
        _ => None,
    };
    &&& texts_under(after, 44) == more(texts_under(before, 44), caps, price_text(cap as int))
    &&& texts_under(after, 211) == more(texts_under(before, 211), pegs, price_text(peg as int))
    &&& texts_under(after, 99) == more(texts_under(before, 99), pegs && !(kind is PegMid), price_text(peg as int))
    &&& texts_under(after, 6117) == more(texts_under(before, 6117), first is Some, price_text(first->0 as int))
}

#[verifier::spinoff_prover]
#[verifier::rlimit(40)]
proof fn companion_says(f: Stated, attrs: OrderAttrs, kind: OrderKind)
    ensures
        what_a_type_states_last(f, companion_fields(f, attrs, kind), attrs, kind),
{
    broadcast use {one_is_said_where_stated, one_more_is_said};

}

/// The cap, the offset and the first trigger a type states behind the rest.
#[verifier::spinoff_prover]
pub proof fn an_order_states_what_a_type_states_last(
    f: Stated,
    attrs: OrderAttrs,
    kind: OrderKind,
    side: Side,
    exec_inst: Seq<char>,
    parent: Option<Seq<char>>,
)
    ensures
        what_a_type_states_last(f, attr_fields(f, attrs, kind, side, exec_inst, parent), attrs, kind),
{
    let g = upto(16, f, attrs, kind, side, exec_inst, parent);
    assert(stage(16, g, attrs, kind, side, exec_inst, parent) == companion_fields(g, attrs, kind)) by {
        reveal(stage);
    }
    companion_says(g, attrs, kind);
    said_at(16, f, attrs, kind, side, exec_inst, parent, 44);
    said_at(16, f, attrs, kind, side, exec_inst, parent, 211);
    said_at(16, f, attrs, kind, side, exec_inst, parent, 99);
    said_at(16, f, attrs, kind, side, exec_inst, parent, 6117);
}

spec fn legs_said(f: Stated, legs: Seq<ComboLegSpec>, venues: bool) -> bool {
    let m = leg_fields(f, legs, venues);
    &&& texts_under(m, 6080) == texts_under(f, 6080) + legs.map_values(
        |leg: ComboLegSpec| decimal(leg.con_id as int),
    )
    &&& texts_under(m, 6081) == texts_under(f, 6081) + legs.map_values(
        |leg: ComboLegSpec| digits(leg.ratio as nat),
    )
    &&& texts_under(m, 6082) == texts_under(f, 6082) + legs.map_values(
        |leg: ComboLegSpec|
            if leg.is_sell {
                "0"@
            } else {
                "1"@
            },
    )
    &&& texts_under(m, 616) == (if venues {
        texts_under(f, 616) + legs.map_values(|leg: ComboLegSpec| leg.exchange@)
    } else {
        texts_under(f, 616)
    })
    &&& texts_under(m, 6087) == texts_under(f, 6087) + legs.map_values(
        |leg: ComboLegSpec| decimal(leg.open_close as int),
    )
}

proof fn each_leg_is_said(f: Stated, legs: Seq<ComboLegSpec>, venues: bool)
    ensures
        legs_said(f, legs, venues),
    decreases legs.len(),
{
    broadcast use {one_is_said_where_stated, one_more_is_said};

    let m = leg_fields(f, legs, venues);
    if legs.len() > 0 {
        each_leg_is_said(f, legs.drop_last(), venues);
    }
    assert(texts_under(m, 6080) =~= texts_under(f, 6080) + legs.map_values(
        |leg: ComboLegSpec| decimal(leg.con_id as int),
    ));
    assert(texts_under(m, 6081) =~= texts_under(f, 6081) + legs.map_values(
        |leg: ComboLegSpec| digits(leg.ratio as nat),
    ));
    assert(texts_under(m, 6082) =~= texts_under(f, 6082) + legs.map_values(
        |leg: ComboLegSpec|
            if leg.is_sell {
                "0"@
            } else {
                "1"@
            },
    ));
    assert(texts_under(m, 616) =~= (if venues {
        texts_under(f, 616) + legs.map_values(|leg: ComboLegSpec| leg.exchange@)
    } else {
        texts_under(f, 616)
    }));
    assert(texts_under(m, 6087) =~= texts_under(f, 6087) + legs.map_values(
        |leg: ComboLegSpec| decimal(leg.open_close as int),
    ));
}

/// A combination states how many legs it has and each of them, in order: its
/// contract, its ratio, whether it buys or sells, and what it opens or closes.
#[verifier::spinoff_prover]
pub proof fn a_combination_states_each_leg(
    f: Stated,
    attrs: OrderAttrs,
    kind: OrderKind,
    side: Side,
    exec_inst: Seq<char>,
    parent: Option<Seq<char>>,
)
    requires
        attrs.combo_legs@.len() > 0,
    ensures
        ({
            let m = attr_fields(f, attrs, kind, side, exec_inst, parent);
            let legs = attrs.combo_legs@;
            let venues = attrs.attached is Some && attrs.attached->0.combo is Some
                ==> attrs.attached->0.combo->0.include_leg_exchanges;
            &&& texts_under(m, 6079) == texts_under(f, 6079).push(digits(legs.len()))
            &&& texts_under(m, 6080) == texts_under(f, 6080) + legs.map_values(
                |leg: ComboLegSpec| decimal(leg.con_id as int),
            )
            &&& texts_under(m, 6081) == texts_under(f, 6081) + legs.map_values(
                |leg: ComboLegSpec| digits(leg.ratio as nat),
            )
            &&& texts_under(m, 6082) == texts_under(f, 6082) + legs.map_values(
                |leg: ComboLegSpec|
                    if leg.is_sell {
                        "0"@
                    } else {
                        "1"@
                    },
            )
            &&& texts_under(m, 616) == (if venues {
                texts_under(f, 616) + legs.map_values(|leg: ComboLegSpec| leg.exchange@)
            } else {
                texts_under(f, 616)
            })
            &&& texts_under(m, 6087) == texts_under(f, 6087) + legs.map_values(
                |leg: ComboLegSpec| decimal(leg.open_close as int),
            )
        }),
{
    broadcast use {one_is_said_where_stated, one_more_is_said};

    assert forall|k: nat, tag: u32| k >= 18 implies !#[trigger] stage_tag(k, tag) by {}
    let legs = attrs.combo_legs@;
    let a = said_at(6, f, attrs, kind, side, exec_inst, parent, 6079);
    let b = said_at(6, f, attrs, kind, side, exec_inst, parent, 6080);
    let c = said_at(6, f, attrs, kind, side, exec_inst, parent, 6081);
    let d = said_at(6, f, attrs, kind, side, exec_inst, parent, 6082);
    let e = said_at(6, f, attrs, kind, side, exec_inst, parent, 616);
    let h = said_at(6, f, attrs, kind, side, exec_inst, parent, 6087);
    reveal(stage);
    assert forall|g: Stated, venues: bool|
        #![trigger leg_fields(g, legs, venues)]
        texts_under(leg_fields(g, legs, venues), 6079) == texts_under(g, 6079) by {
        legs_keep(g, legs, venues, 6079);
    }
    assert forall|g: Stated, tag: u32|
        #![trigger texts_under(short_leg_fields(g, legs), tag)]
        tag == 6079 || tag == 6080 || tag == 6081 || tag == 6082 || tag == 616 || tag
            == 6087 implies texts_under(short_leg_fields(g, legs), tag) == texts_under(g, tag) by {
        legs_keep(g, legs, true, tag);
    }
    assert forall|g: Stated, tag: u32|
        #![trigger texts_under(leg_price_fields(g, legs), tag)]
        tag == 6079 || tag == 6080 || tag == 6081 || tag == 6082 || tag == 616 || tag
            == 6087 implies texts_under(leg_price_fields(g, legs), tag) == texts_under(g, tag) by {
        legs_keep(g, legs, true, tag);
    }
    assert forall|g: Stated, venues: bool|
        #![trigger leg_fields(g, legs, venues)]
        legs_said(g, legs, venues) by {
        each_leg_is_said(g, legs, venues);
    }
}

proof fn each_condition_is_said(f: Stated, conditions: Seq<OrderCondition>, upto: nat, i: int)
    requires
        upto <= conditions.len(),
        0 <= i < upto,
    ensures
        ({
            let m = conditions_upto(f, conditions, upto);
            let row = condition_row(conditions[i], i + 1 == conditions.len());
            &&& texts_under(m, 6222)[texts_under(f, 6222).len() + i] == row[0]
            &&& texts_under(m, 6137)[texts_under(f, 6137).len() + i] == row[1]
            &&& texts_under(m, 6126)[texts_under(f, 6126).len() + i] == row[2]
            &&& texts_under(m, 6123)[texts_under(f, 6123).len() + i] == row[3]
            &&& texts_under(m, 6124)[texts_under(f, 6124).len() + i] == row[4]
            &&& texts_under(m, 6127)[texts_under(f, 6127).len() + i] == row[5]
            &&& texts_under(m, 6125)[texts_under(f, 6125).len() + i] == row[6]
            &&& texts_under(m, 6223)[texts_under(f, 6223).len() + i] == row[7]
            &&& texts_under(m, 6245)[texts_under(f, 6245).len() + i] == row[8]
            &&& texts_under(m, 6263)[texts_under(f, 6263).len() + i] == row[9]
            &&& texts_under(m, 6246)[texts_under(f, 6246).len() + i] == row[10]
        }),
    decreases upto,
{
    broadcast use {one_is_said_where_stated, one_more_is_said};

    as_many_as_conditions(f, conditions, (upto - 1) as nat);
    if i < upto - 1 {
        each_condition_is_said(f, conditions, (upto - 1) as nat, i);
    }
}

proof fn as_many_as_conditions(f: Stated, conditions: Seq<OrderCondition>, upto: nat)
    ensures
        ({
            let m = conditions_upto(f, conditions, upto);
            &&& texts_under(m, 6222).len() == texts_under(f, 6222).len() + upto
            &&& texts_under(m, 6137).len() == texts_under(f, 6137).len() + upto
            &&& texts_under(m, 6126).len() == texts_under(f, 6126).len() + upto
            &&& texts_under(m, 6123).len() == texts_under(f, 6123).len() + upto
            &&& texts_under(m, 6124).len() == texts_under(f, 6124).len() + upto
            &&& texts_under(m, 6127).len() == texts_under(f, 6127).len() + upto
            &&& texts_under(m, 6125).len() == texts_under(f, 6125).len() + upto
            &&& texts_under(m, 6223).len() == texts_under(f, 6223).len() + upto
            &&& texts_under(m, 6245).len() == texts_under(f, 6245).len() + upto
            &&& texts_under(m, 6263).len() == texts_under(f, 6263).len() + upto
            &&& texts_under(m, 6246).len() == texts_under(f, 6246).len() + upto
        }),
    decreases upto,
{
    broadcast use {one_is_said_where_stated, one_more_is_said};

    if upto > 0 {
        as_many_as_conditions(f, conditions, (upto - 1) as nat);
    }
}

/// An order that waits on conditions states how many there are, whether it is
/// withdrawn where they fail and which sessions they count, and each of them in
/// order: what it is on, how it joins the next, which way it looks, and its
/// figure, with nothing stated that is another kind's.
#[verifier::spinoff_prover]
pub proof fn each_condition_is_stated(f: Stated, attrs: OrderAttrs, i: int)
    requires
        0 <= i < attrs.conditions@.len(),
        forall|tag: u32| condition_tag(tag) ==> #[trigger] texts_under(f, tag).len() == 0,
    ensures
        ({
            let m = condition_fields(f, attrs);
            let one = attrs.conditions@[i];
            let last = i + 1 == attrs.conditions@.len();
            let none = Seq::<char>::empty();
            &&& texts_under(m, 6136) == seq![digits(attrs.conditions@.len())]
            &&& texts_under(m, 6128) == more(Seq::empty(), attrs.conditions_cancel_order, "1"@)
            &&& texts_under(m, 6151) == more(Seq::empty(), attrs.conditions_ignore_rth, "1"@)
            &&& texts_under(m, 8612) == more(
                Seq::empty(),
                attrs.conditions_include_overnight,
                "1"@,
            )
            &&& texts_under(m, 6222).len() == attrs.conditions@.len()
            &&& texts_under(m, 6137)[i] == (if last {
                "n"@
            } else if one.joins_with_and() {
                "a"@
            } else {
                "o"@
            })
            &&& match one {
                OrderCondition::Price { con_id, exchange, price, is_more, trigger_method, .. } => {
                    &&& texts_under(m, 6222)[i] == "1"@
                    &&& texts_under(m, 6126)[i] == (if is_more { ">="@ } else { "<="@ })
                    &&& texts_under(m, 6123)[i] == decimal(con_id as int)
                    &&& texts_under(m, 6124)[i] == exchange@
                    &&& texts_under(m, 6127)[i] == decimal(trigger_method as int)
                    &&& texts_under(m, 6125)[i] == price_text(price as int)
                    &&& texts_under(m, 6223)[i] == none && texts_under(m, 6245)[i] == none
                    &&& texts_under(m, 6263)[i] == none && texts_under(m, 6246)[i] == none
                },
                OrderCondition::Time { time, is_more, .. } => {
                    &&& texts_under(m, 6222)[i] == "3"@
                    &&& texts_under(m, 6126)[i] == (if is_more { ">="@ } else { "<="@ })
                    &&& texts_under(m, 6223)[i] == time@
                    &&& texts_under(m, 6123)[i] == none && texts_under(m, 6125)[i] == none
                    &&& texts_under(m, 6245)[i] == none && texts_under(m, 6263)[i] == none
                },
                OrderCondition::Margin { percent, is_more, .. } => {
                    &&& texts_under(m, 6222)[i] == "4"@
                    &&& texts_under(m, 6126)[i] == (if is_more { ">="@ } else { "<="@ })
                    &&& texts_under(m, 6245)[i] == decimal(percent as int)
                    &&& texts_under(m, 6123)[i] == none && texts_under(m, 6125)[i] == none
                    &&& texts_under(m, 6223)[i] == none && texts_under(m, 6263)[i] == none
                },
                OrderCondition::Execution { symbol, exchange, sec_type, .. } => {
                    &&& texts_under(m, 6222)[i] == "5"@
                    &&& texts_under(m, 6246)[i] == "symbol="@ + symbol@ + ";exchange="@ + (if exchange@
                        == "SMART"@ || exchange@ == "BEST"@ {
                        "*"@
                    } else {
                        exchange@
                    }) + ";securityType="@ + sec_type@ + ";"@
                    &&& texts_under(m, 6126)[i] == none && texts_under(m, 6123)[i] == none
                },
                OrderCondition::Volume { con_id, exchange, volume, is_more, .. } => {
                    &&& texts_under(m, 6222)[i] == "6"@
                    &&& texts_under(m, 6126)[i] == (if is_more { ">="@ } else { "<="@ })
                    &&& texts_under(m, 6123)[i] == decimal(con_id as int)
                    &&& texts_under(m, 6124)[i] == exchange@
                    &&& texts_under(m, 6263)[i] == decimal(volume as int)
                    &&& texts_under(m, 6125)[i] == none && texts_under(m, 6245)[i] == none
                },
                OrderCondition::PercentChange { con_id, exchange, percent, is_more, .. } => {
                    &&& texts_under(m, 6222)[i] == "7"@
                    &&& texts_under(m, 6126)[i] == (if is_more { ">="@ } else { "<="@ })
                    &&& texts_under(m, 6123)[i] == decimal(con_id as int)
                    &&& texts_under(m, 6124)[i] == exchange@
                    &&& texts_under(m, 6245)[i] == percent@
                    &&& texts_under(m, 6125)[i] == none && texts_under(m, 6263)[i] == none
                },
            }
        }),
{
    broadcast use {one_is_said_where_stated, one_more_is_said};

    let n = attrs.conditions@.len();
    let g1 = f.push((6136, digits(n)));
    let g2 = also(g1, attrs.conditions_cancel_order, 6128, "1"@);
    let g3 = also(g2, attrs.conditions_ignore_rth, 6151, "1"@);
    let g4 = also(g3, attrs.conditions_include_overnight, 8612, "1"@);
    each_condition_is_said(g4, attrs.conditions@, n, i);
    as_many_as_conditions(g4, attrs.conditions@, n);
    rows_keep(g4, attrs.conditions@, n, 6136);
    rows_keep(g4, attrs.conditions@, n, 6128);
    rows_keep(g4, attrs.conditions@, n, 6151);
    rows_keep(g4, attrs.conditions@, n, 8612);
    assert(texts_under(f, 6136).len() == 0 && texts_under(f, 6128).len() == 0);
    assert(texts_under(f, 6151).len() == 0 && texts_under(f, 8612).len() == 0);
    assert(texts_under(f, 6222).len() == 0 && texts_under(f, 6137).len() == 0);
    assert(texts_under(f, 6126).len() == 0 && texts_under(f, 6123).len() == 0);
    assert(texts_under(f, 6124).len() == 0 && texts_under(f, 6127).len() == 0);
    assert(texts_under(f, 6125).len() == 0 && texts_under(f, 6223).len() == 0);
    assert(texts_under(f, 6245).len() == 0 && texts_under(f, 6263).len() == 0);
    assert(texts_under(f, 6246).len() == 0);
    assert(texts_under(f, 6136) =~= Seq::empty() && texts_under(f, 6128) =~= Seq::empty());
    assert(texts_under(f, 6151) =~= Seq::empty() && texts_under(f, 8612) =~= Seq::empty());
}

} // verus!
