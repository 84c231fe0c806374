//! What a replacement of an order goes out with.

use crate::types::attrs::{shared_copy, AttachedAttrs, OrderAttrs};
use crate::types::orders::OrderSpec;
use std::sync::Arc;
use vstd::prelude::*;

verus! {

/// What is stated, or what is held where nothing is.
pub open spec fn stated_or_held(stated: String, held: String) -> String {
    if stated@.len() == 0 {
        held
    } else {
        stated
    }
}

/// What is stated, or what is held where nothing is.
pub open spec fn some_or_held<T>(stated: Option<T>, held: Option<T>) -> Option<T> {
    if stated is Some {
        stated
    } else {
        held
    }
}

/// What an attached family carries after a restatement: each term that is
/// stated, and the term that was held where it is not.
pub open spec fn merged_family(stated: AttachedAttrs, held: AttachedAttrs) -> AttachedAttrs {
    AttachedAttrs {
        api_identity: some_or_held(stated.api_identity, held.api_identity),
        contract_id: some_or_held(stated.contract_id, held.contract_id),
        ratio_factor: some_or_held(stated.ratio_factor, held.ratio_factor),
        family_key: stated_or_held(stated.family_key, held.family_key),
        parent: stated_or_held(stated.parent, held.parent),
        use_parent_price: stated.use_parent_price || held.use_parent_price,
        profit_offset: some_or_held(stated.profit_offset, held.profit_offset),
        combo: some_or_held(stated.combo, held.combo),
    }
}

/// What an order carries of its attached family after a restatement.
pub open spec fn family_after(
    stated: Option<Arc<AttachedAttrs>>,
    held: Option<Arc<AttachedAttrs>>,
) -> Option<Arc<AttachedAttrs>> {
    match (stated, held) {
        (Some(stated), Some(held)) => Some(Arc::new(merged_family(*stated, *held))),
        (None, Some(held)) => Some(held),
        (stated, None) => stated,
    }
}

fn kept_where_unstated(stated: String, held: &String) -> (kept: String)
    ensures
        kept == stated_or_held(stated, *held),
{
    if stated.as_str().is_empty() {
        held.clone()
    } else {
        stated
    }
}

fn keep_attached(
    stated: Option<Arc<AttachedAttrs>>,
    held: &Option<Arc<AttachedAttrs>>,
) -> (kept: Option<Arc<AttachedAttrs>>)
    ensures
        kept == family_after(stated, *held),
{
    match (stated, held) {
        (Some(stated), Some(held)) => {
            let merged: AttachedAttrs = AttachedAttrs {
                api_identity: if stated.api_identity.is_some() {
                    stated.api_identity
                } else {
                    held.api_identity
                },
                contract_id: if stated.contract_id.is_some() {
                    stated.contract_id
                } else {
                    held.contract_id
                },
                ratio_factor: if stated.ratio_factor.is_some() {
                    stated.ratio_factor.clone()
                } else {
                    held.ratio_factor.clone()
                },
                family_key: kept_where_unstated(stated.family_key.clone(), &held.family_key),
                parent: kept_where_unstated(stated.parent.clone(), &held.parent),
                use_parent_price: stated.use_parent_price || held.use_parent_price,
                profit_offset: if stated.profit_offset.is_some() {
                    stated.profit_offset.clone()
                } else {
                    held.profit_offset.clone()
                },
                combo: if stated.combo.is_some() {
                    shared_copy(&stated.combo)
                } else {
                    shared_copy(&held.combo)
                },
            };
            Some(Arc::new(merged))
        },
        (None, Some(held)) => Some(held.clone()),
        (stated, None) => stated,
    }
}

/// What a replacement of an order carries, from what the order is working
/// under and what the replacement states.
///
/// The group, the way it cancels, the parent, the session it trades in and the
/// pre-open auction are the order's own. A reference it was placed with stands
/// until another is stated, and so do the terms of its attached family.
pub open spec fn merged_attrs(resting: OrderAttrs, stated: OrderAttrs) -> OrderAttrs {
    OrderAttrs {
        oca_group: resting.oca_group,
        oca_group_str: resting.oca_group_str,
        oca_type: resting.oca_type,
        parent_id: resting.parent_id,
        outside_rth: resting.outside_rth,
        allow_pre_open: resting.allow_pre_open,
        attached: family_after(stated.attached, resting.attached),
        order_ref: stated_or_held(stated.order_ref, resting.order_ref),
        algo_id: stated_or_held(stated.algo_id, resting.algo_id),
        mifid2_decision_maker: stated_or_held(
            stated.mifid2_decision_maker,
            resting.mifid2_decision_maker,
        ),
        mifid2_decision_algo: stated_or_held(
            stated.mifid2_decision_algo,
            resting.mifid2_decision_algo,
        ),
        mifid2_execution_trader: stated_or_held(
            stated.mifid2_execution_trader,
            resting.mifid2_execution_trader,
        ),
        mifid2_execution_algo: stated_or_held(
            stated.mifid2_execution_algo,
            resting.mifid2_execution_algo,
        ),
        ..stated
    }
}

/// Merge what a replacement carries onto what the order is working under.
pub fn merge_attrs(resting: &OrderAttrs, stated: OrderAttrs) -> (merged: OrderAttrs)
    ensures
        merged == merged_attrs(*resting, stated),
{
    let attached: Option<Arc<AttachedAttrs>> = keep_attached(stated.attached, &resting.attached);
    let order_ref: String = kept_where_unstated(stated.order_ref, &resting.order_ref);
    let algo_id: String = kept_where_unstated(stated.algo_id, &resting.algo_id);
    let decision_maker: String = kept_where_unstated(
        stated.mifid2_decision_maker,
        &resting.mifid2_decision_maker,
    );
    let decision_algo: String = kept_where_unstated(
        stated.mifid2_decision_algo,
        &resting.mifid2_decision_algo,
    );
    let execution_trader: String = kept_where_unstated(
        stated.mifid2_execution_trader,
        &resting.mifid2_execution_trader,
    );
    let execution_algo: String = kept_where_unstated(
        stated.mifid2_execution_algo,
        &resting.mifid2_execution_algo,
    );
    OrderAttrs {
        oca_group: resting.oca_group,
        oca_group_str: resting.oca_group_str.clone(),
        oca_type: resting.oca_type,
        parent_id: resting.parent_id,
        outside_rth: resting.outside_rth,
        allow_pre_open: resting.allow_pre_open,
        attached,
        order_ref,
        algo_id,
        mifid2_decision_maker: decision_maker,
        mifid2_decision_algo: decision_algo,
        mifid2_execution_trader: execution_trader,
        mifid2_execution_algo: execution_algo,
        ..stated
    }
}

/// Merge what a replacement states onto the order the venue is already
/// working. The shape is the one stated.
pub fn merge_statement(resting: &mut OrderSpec, stated: OrderSpec)
    ensures
        final(resting).kind == stated.kind,
        final(resting).attrs == merged_attrs(old(resting).attrs, stated.attrs),
{
    let OrderSpec { kind, attrs } = stated;
    let merged: OrderAttrs = merge_attrs(&resting.attrs, attrs);
    *resting = OrderSpec { kind, attrs: merged };
}

/// What a replacement carries with the attached terms that are known of an
/// order nothing here recorded.
pub open spec fn with_family(stated: OrderAttrs, held: Option<Arc<AttachedAttrs>>) -> OrderAttrs {
    OrderAttrs { attached: family_after(stated.attached, held), ..stated }
}

/// Give a replacement the attached terms that are known of an order nothing
/// here recorded.
pub fn keep_known_family(stated: OrderAttrs, held: Option<Arc<AttachedAttrs>>) -> (kept: OrderAttrs)
    ensures
        kept == with_family(stated, held),
{
    let attached: Option<Arc<AttachedAttrs>> = keep_attached(stated.attached, &held);
    OrderAttrs { attached, ..stated }
}

/// A replacement leaves alone what it cannot change: the group and how it
/// cancels, the parent, the session and the pre-open auction.
pub proof fn a_replacement_keeps_what_is_the_orders_own(resting: OrderAttrs, stated: OrderAttrs)
    ensures
        merged_attrs(resting, stated).oca_group == resting.oca_group,
        merged_attrs(resting, stated).oca_group_str == resting.oca_group_str,
        merged_attrs(resting, stated).oca_type == resting.oca_type,
        merged_attrs(resting, stated).parent_id == resting.parent_id,
        merged_attrs(resting, stated).outside_rth == resting.outside_rth,
        merged_attrs(resting, stated).allow_pre_open == resting.allow_pre_open,
{
}

/// A replacement that states no reference, no algorithm of its caller's naming
/// and no regulatory party keeps the ones the order was placed with, and one
/// that states no attached term keeps those.
pub proof fn what_is_not_stated_is_not_cleared(resting: OrderAttrs, stated: OrderAttrs)
    ensures
        stated.order_ref@.len() == 0 ==> merged_attrs(resting, stated).order_ref
            == resting.order_ref,
        stated.algo_id@.len() == 0 ==> merged_attrs(resting, stated).algo_id == resting.algo_id,
        stated.mifid2_decision_maker@.len() == 0 ==> merged_attrs(
            resting,
            stated,
        ).mifid2_decision_maker == resting.mifid2_decision_maker,
        stated.mifid2_decision_algo@.len() == 0 ==> merged_attrs(
            resting,
            stated,
        ).mifid2_decision_algo == resting.mifid2_decision_algo,
        stated.mifid2_execution_trader@.len() == 0 ==> merged_attrs(
            resting,
            stated,
        ).mifid2_execution_trader == resting.mifid2_execution_trader,
        stated.mifid2_execution_algo@.len() == 0 ==> merged_attrs(
            resting,
            stated,
        ).mifid2_execution_algo == resting.mifid2_execution_algo,
        stated.attached is None ==> merged_attrs(resting, stated).attached == resting.attached,
{
}

/// Merging the same statement again changes nothing.
pub proof fn merging_again_changes_nothing(resting: OrderAttrs, stated: OrderAttrs)
    ensures
        merged_attrs(merged_attrs(resting, stated), stated) == merged_attrs(resting, stated),
{
}

/// What a replacement states is taken: each attribute that is not the order's
/// own and not held until another is stated, as it is stated or left out; and
/// each of those held, where another is.
pub proof fn what_is_stated_is_taken(resting: OrderAttrs, stated: OrderAttrs)
    ensures
        merged_attrs(resting, stated).display_size == stated.display_size,
        merged_attrs(resting, stated).min_qty == stated.min_qty,
        merged_attrs(resting, stated).hidden == stated.hidden,
        merged_attrs(resting, stated).good_after == stated.good_after,
        merged_attrs(resting, stated).good_till_date_ymd == stated.good_till_date_ymd,
        merged_attrs(resting, stated).good_till == stated.good_till,
        merged_attrs(resting, stated).deactivate_at_close == stated.deactivate_at_close,
        merged_attrs(resting, stated).what_if == stated.what_if,
        merged_attrs(resting, stated).account == stated.account,
        merged_attrs(resting, stated).origin == stated.origin,
        merged_attrs(resting, stated).discretionary_amt == stated.discretionary_amt,
        merged_attrs(resting, stated).sweep_to_fill == stated.sweep_to_fill,
        merged_attrs(resting, stated).all_or_none == stated.all_or_none,
        merged_attrs(resting, stated).hedge_type == stated.hedge_type,
        merged_attrs(resting, stated).hedge_beta == stated.hedge_beta,
        merged_attrs(resting, stated).hedge_max_size == stated.hedge_max_size,
        merged_attrs(resting, stated).hedge_ratio == stated.hedge_ratio,
        merged_attrs(resting, stated).dont_use_auto_price_for_hedge == stated.dont_use_auto_price_for_hedge,
        merged_attrs(resting, stated).volatility == stated.volatility,
        merged_attrs(resting, stated).volatility_type == stated.volatility_type,
        merged_attrs(resting, stated).seek_price_improvement == stated.seek_price_improvement,
        merged_attrs(resting, stated).manual_order_time == stated.manual_order_time,
        merged_attrs(resting, stated).advanced_error_override == stated.advanced_error_override,
        merged_attrs(resting, stated).active_start_time == stated.active_start_time,
        merged_attrs(resting, stated).active_stop_time == stated.active_stop_time,
        merged_attrs(resting, stated).post_only == stated.post_only,
        merged_attrs(resting, stated).solicited == stated.solicited,
        merged_attrs(resting, stated).manual_order_indicator == stated.manual_order_indicator,
        merged_attrs(resting, stated).route_marketable_to_bbo == stated.route_marketable_to_bbo,
        merged_attrs(resting, stated).imbalance_only == stated.imbalance_only,
        merged_attrs(resting, stated).ignore_open_auction == stated.ignore_open_auction,
        merged_attrs(resting, stated).is_oms_container == stated.is_oms_container,
        merged_attrs(resting, stated).ext_operator == stated.ext_operator,
        merged_attrs(resting, stated).customer_account == stated.customer_account,
        merged_attrs(resting, stated).model_code == stated.model_code,
        merged_attrs(resting, stated).fa_group == stated.fa_group,
        merged_attrs(resting, stated).fa_method == stated.fa_method,
        merged_attrs(resting, stated).fa_percentage == stated.fa_percentage,
        merged_attrs(resting, stated).professional_customer == stated.professional_customer,
        merged_attrs(resting, stated).ref_futures_con_id == stated.ref_futures_con_id,
        merged_attrs(resting, stated).use_price_mgmt_algo == stated.use_price_mgmt_algo,
        merged_attrs(resting, stated).duration == stated.duration,
        merged_attrs(resting, stated).min_compete_size == stated.min_compete_size,
        merged_attrs(resting, stated).compete_against_best_offset == stated.compete_against_best_offset,
        merged_attrs(resting, stated).continuous_update == stated.continuous_update,
        merged_attrs(resting, stated).reference_price_type == stated.reference_price_type,
        merged_attrs(resting, stated).stock_range_lower == stated.stock_range_lower,
        merged_attrs(resting, stated).stock_range_upper == stated.stock_range_upper,
        merged_attrs(resting, stated).percent_offset == stated.percent_offset,
        merged_attrs(resting, stated).not_held == stated.not_held,
        merged_attrs(resting, stated).open_close == stated.open_close,
        merged_attrs(resting, stated).exercise_action == stated.exercise_action,
        merged_attrs(resting, stated).combo_legs == stated.combo_legs,
        merged_attrs(resting, stated).clearing_account == stated.clearing_account,
        merged_attrs(resting, stated).clearing_intent == stated.clearing_intent,
        merged_attrs(resting, stated).deactivate == stated.deactivate,
        merged_attrs(resting, stated).deactivate_on_disconnect == stated.deactivate_on_disconnect,
        merged_attrs(resting, stated).include_overnight == stated.include_overnight,
        merged_attrs(resting, stated).auto_cancel_parent == stated.auto_cancel_parent,
        merged_attrs(resting, stated).min_trade_qty == stated.min_trade_qty,
        merged_attrs(resting, stated).block_order == stated.block_order,
        merged_attrs(resting, stated).auto_cancel_date == stated.auto_cancel_date,
        merged_attrs(resting, stated).rule80a == stated.rule80a,
        merged_attrs(resting, stated).post_to_ats == stated.post_to_ats,
        merged_attrs(resting, stated).short_sale_slot == stated.short_sale_slot,
        merged_attrs(resting, stated).designated_location == stated.designated_location,
        merged_attrs(resting, stated).exempt_code == stated.exempt_code,
        merged_attrs(resting, stated).primary_exchange == stated.primary_exchange,
        merged_attrs(resting, stated).delta_neutral_contract == stated.delta_neutral_contract,
        merged_attrs(resting, stated).delta_neutral == stated.delta_neutral,
        merged_attrs(resting, stated).scale == stated.scale,
        merged_attrs(resting, stated).soft_dollar_tier_name == stated.soft_dollar_tier_name,
        merged_attrs(resting, stated).soft_dollar_tier_val == stated.soft_dollar_tier_val,
        merged_attrs(resting, stated).settling_firm == stated.settling_firm,
        merged_attrs(resting, stated).discretionary_up_to_limit == stated.discretionary_up_to_limit,
        merged_attrs(resting, stated).trigger_method == stated.trigger_method,
        merged_attrs(resting, stated).cash_qty == stated.cash_qty,
        merged_attrs(resting, stated).conditions == stated.conditions,
        merged_attrs(resting, stated).conditions_cancel_order == stated.conditions_cancel_order,
        merged_attrs(resting, stated).conditions_ignore_rth == stated.conditions_ignore_rth,
        merged_attrs(resting, stated).conditions_include_overnight == stated.conditions_include_overnight,
        merged_attrs(resting, stated).mid_offset_at_whole == stated.mid_offset_at_whole,
        merged_attrs(resting, stated).mid_offset_at_half == stated.mid_offset_at_half,
        stated.order_ref@.len() > 0 ==> merged_attrs(resting, stated).order_ref == stated.order_ref,
        stated.algo_id@.len() > 0 ==> merged_attrs(resting, stated).algo_id == stated.algo_id,
        stated.mifid2_decision_maker@.len() > 0 ==> merged_attrs(resting, stated).mifid2_decision_maker == stated.mifid2_decision_maker,
        stated.mifid2_decision_algo@.len() > 0 ==> merged_attrs(resting, stated).mifid2_decision_algo == stated.mifid2_decision_algo,
        stated.mifid2_execution_trader@.len() > 0 ==> merged_attrs(resting, stated).mifid2_execution_trader == stated.mifid2_execution_trader,
        stated.mifid2_execution_algo@.len() > 0 ==> merged_attrs(resting, stated).mifid2_execution_algo == stated.mifid2_execution_algo,
{
}

/// A term of an order's family that is stated is taken, and one that is not is
/// kept from before.
pub proof fn a_family_keeps_what_is_not_restated(
    stated: OrderAttrs,
    held: AttachedAttrs,
    was: Option<Arc<AttachedAttrs>>,
)
    requires
        was == Some(Arc::new(held)),
    ensures
        with_family(stated, was).attached matches Some(after) && {
            let named = stated.attached;
            &&& named is Some && named->0.api_identity is Some ==> after.api_identity == named->0.api_identity
            &&& named is None || named->0.api_identity is None ==> after.api_identity == held.api_identity
            &&& named is Some && named->0.contract_id is Some ==> after.contract_id == named->0.contract_id
            &&& named is None || named->0.contract_id is None ==> after.contract_id == held.contract_id
            &&& named is Some && named->0.ratio_factor is Some ==> after.ratio_factor == named->0.ratio_factor
            &&& named is None || named->0.ratio_factor is None ==> after.ratio_factor == held.ratio_factor
            &&& named is Some && named->0.profit_offset is Some ==> after.profit_offset == named->0.profit_offset
            &&& named is None || named->0.profit_offset is None ==> after.profit_offset == held.profit_offset
            &&& named is Some && named->0.combo is Some ==> after.combo == named->0.combo
            &&& named is None || named->0.combo is None ==> after.combo == held.combo
            &&& named is Some && named->0.family_key@.len() > 0 ==> after.family_key == named->0.family_key
            &&& named is None || named->0.family_key@.len() == 0 ==> after.family_key == held.family_key
            &&& named is Some && named->0.parent@.len() > 0 ==> after.parent == named->0.parent
            &&& named is None || named->0.parent@.len() == 0 ==> after.parent == held.parent
            &&& held.use_parent_price ==> after.use_parent_price
            &&& after.use_parent_price ==> held.use_parent_price || (named is Some
                && named->0.use_parent_price)
        },
{
}

} // verus!
