//! What an order states beyond its shape.

use std::sync::Arc;
use vstd::prelude::*;

verus! {

/// How a figure a caller may leave out compares with nought. The largest figure
/// there is stands for one that was left out.
#[derive(Clone, Copy, Debug, PartialEq, Eq, Structural)]
pub enum Standing {
    Unset,
    Below,
    Nought,
    Above,
    NotANumber,
}

/// A figure as the wire writes it, with six places after the point, and how it
/// compares with nought.
#[derive(Debug, PartialEq)]
pub struct Figure {
    pub standing: Standing,
    pub text: String,
}

/// The greatest figure there is, as the wire writes it.
pub const UNSET_TEXT: &'static str = "179769313486231570814527423731704356798070567525844996598917476803157260780028538760589558632766878171540458953514382464234321326889464182768467546703537516986049910576551282076245490090389328944075868508455133942304583236903222948165808559332123348274797826204144723168738177180919299881250404026184124858368.000000";

impl Figure {
    /// A figure nothing was stated for: the greatest there is.
    pub fn unset() -> (r: Self)
        ensures
            r.standing is Unset,
            r.text@ == UNSET_TEXT@,
    {
        Figure { standing: Standing::Unset, text: UNSET_TEXT.to_owned() }
    }

    /// Nought.
    pub fn nought() -> (r: Self)
        ensures
            r.standing is Nought,
            r.text@ == "0.000000"@,
    {
        Figure { standing: Standing::Nought, text: "0.000000".to_owned() }
    }
}

impl Clone for Figure {
    fn clone(&self) -> (copy: Self)
        ensures
            copy == *self,
    {
        Figure { standing: self.standing, text: self.text.clone() }
    }
}

/// Another holder of what is held, where anything is.
pub fn shared_copy<T>(held: &Option<Arc<T>>) -> (copy: Option<Arc<T>>)
    ensures
        copy == *held,
{
    match held {
        Some(held) => Some(held.clone()),
        None => None,
    }
}

/// The contract an order hedges with: which one, its delta and its price.
#[derive(Debug, PartialEq)]
pub struct DeltaNeutralContractSpec {
    pub con_id: i64,
    pub delta: Figure,
    pub price: Figure,
}

/// The order a delta-neutral hedge is placed as.
#[derive(Debug, PartialEq)]
pub struct DeltaNeutralAttrs {
    pub order_type: String,
    pub aux_price: i64,
    pub con_id: i64,
}

/// A ladder of components.
#[derive(Debug, PartialEq)]
pub struct ScaleAttrs {
    pub init_level_size: u32,
    pub subs_level_size: u32,
    pub price_increment: i64,
    pub profit_offset: i64,
    pub price_adjust_value: i64,
    pub price_adjust_interval: u32,
    pub auto_reset: bool,
    pub random_percent: bool,
    pub init_position: i32,
    pub init_fill_qty: Option<i32>,
    /// The levels stated as a table: each level's quantity and its price.
    pub table: Option<Vec<(String, String)>>,
}

impl Default for ScaleAttrs {
    /// No ladder.
    fn default() -> (r: Self)
        ensures
            r.init_level_size == 0,
            r.subs_level_size == 0,
            r.price_increment == 0,
            r.profit_offset == 0,
            r.price_adjust_value == 0,
            r.price_adjust_interval == 0,
            !r.auto_reset,
            !r.random_percent,
            r.init_position == 0,
            r.init_fill_qty is None,
            r.table is None,
    {
        ScaleAttrs {
            init_level_size: 0,
            subs_level_size: 0,
            price_increment: 0,
            profit_offset: 0,
            price_adjust_value: 0,
            price_adjust_interval: 0,
            auto_reset: false,
            random_percent: false,
            init_position: 0,
            init_fill_qty: None,
            table: None,
        }
    }
}

/// One leg of a combination.
#[derive(Debug, PartialEq)]
pub struct ComboLegSpec {
    pub con_id: i64,
    pub ratio: u32,
    pub is_sell: bool,
    /// The venue the leg routes on, empty where it routes with the combination.
    pub exchange: String,
    pub open_close: i32,
    pub short_sale_slot: i32,
    pub designated_location: String,
    pub exempt_code: i32,
    pub price: Option<i64>,
}

impl Default for ComboLegSpec {
    fn default() -> (r: Self)
        ensures
            r.con_id == 0,
            r.ratio == 0,
            !r.is_sell,
            r.exchange@.len() == 0,
            r.open_close == 0,
            r.short_sale_slot == 0,
            r.designated_location@.len() == 0,
            r.exempt_code == -1,
            r.price is None,
    {
        ComboLegSpec {
            con_id: 0,
            ratio: 0,
            is_sell: false,
            exchange: String::new(),
            open_close: 0,
            short_sale_slot: 0,
            designated_location: String::new(),
            exempt_code: -1,
            price: None,
        }
    }
}

/// A condition an order waits on.
#[derive(Debug, PartialEq)]
#[allow(inconsistent_fields)]
pub enum OrderCondition {
    Price {
        con_id: i64,
        exchange: String,
        price: i64,
        is_more: bool,
        trigger_method: i32,
        is_conjunction_connection: bool,
    },
    Time { time: String, is_more: bool, is_conjunction_connection: bool },
    Margin { percent: i32, is_more: bool, is_conjunction_connection: bool },
    Execution {
        symbol: String,
        exchange: String,
        sec_type: String,
        is_conjunction_connection: bool,
    },
    Volume {
        con_id: i64,
        exchange: String,
        volume: i64,
        is_more: bool,
        is_conjunction_connection: bool,
    },
    /// The percent as its shortest decimal.
    PercentChange {
        con_id: i64,
        exchange: String,
        percent: String,
        is_more: bool,
        is_conjunction_connection: bool,
    },
}

impl OrderCondition {
    /// Whether this condition and the next must both hold.
    pub open spec fn joins_with_and(self) -> bool {
        match self {
            OrderCondition::Price { is_conjunction_connection, .. } => is_conjunction_connection,
            OrderCondition::Time { is_conjunction_connection, .. } => is_conjunction_connection,
            OrderCondition::Margin { is_conjunction_connection, .. } => is_conjunction_connection,
            OrderCondition::Execution { is_conjunction_connection, .. } => is_conjunction_connection,
            OrderCondition::Volume { is_conjunction_connection, .. } => is_conjunction_connection,
            OrderCondition::PercentChange { is_conjunction_connection, .. } =>
                is_conjunction_connection,
        }
    }

    pub fn is_conjunction_connection(&self) -> (joins: bool)
        ensures
            joins == self.joins_with_and(),
    {
        match self {
            OrderCondition::Price { is_conjunction_connection, .. } => *is_conjunction_connection,
            OrderCondition::Time { is_conjunction_connection, .. } => *is_conjunction_connection,
            OrderCondition::Margin { is_conjunction_connection, .. } => *is_conjunction_connection,
            OrderCondition::Execution { is_conjunction_connection, .. } => *is_conjunction_connection,
            OrderCondition::Volume { is_conjunction_connection, .. } => *is_conjunction_connection,
            OrderCondition::PercentChange { is_conjunction_connection, .. } =>
                *is_conjunction_connection,
        }
    }
}

/// The terms a combination resolved to.
#[derive(Debug, PartialEq)]
pub struct AttachedComboFrame {
    /// The multiplier as the wire writes it.
    pub multiplier: Option<String>,
    pub price_mode: i32,
    pub combo_type: i32,
    pub include_leg_exchanges: bool,
    pub market_data_generic: bool,
    pub separate_delta_neutral: bool,
    pub delta_neutral_contract: Option<Arc<DeltaNeutralContractSpec>>,
}

impl Default for AttachedComboFrame {
    fn default() -> (r: Self)
        ensures
            r.multiplier is None,
            r.price_mode == 0,
            r.combo_type == 0,
            !r.include_leg_exchanges,
            !r.market_data_generic,
            !r.separate_delta_neutral,
            r.delta_neutral_contract is None,
    {
        AttachedComboFrame {
            multiplier: None,
            price_mode: 0,
            combo_type: 0,
            include_leg_exchanges: false,
            market_data_generic: false,
            separate_delta_neutral: false,
            delta_neutral_contract: None,
        }
    }
}

/// What an order carries as a member of an attached family.
#[derive(Debug, PartialEq)]
pub struct AttachedAttrs {
    /// The program's own order number and client number.
    pub api_identity: Option<(i64, i32)>,
    pub contract_id: Option<i64>,
    /// The ratio factor as the wire writes it.
    pub ratio_factor: Option<String>,
    pub family_key: String,
    /// The parent's venue name, as a report of the child stated it.
    pub parent: String,
    pub use_parent_price: bool,
    /// The profit offset as the wire writes it.
    pub profit_offset: Option<String>,
    pub combo: Option<Arc<AttachedComboFrame>>,
}

impl Default for AttachedAttrs {
    fn default() -> (r: Self)
        ensures
            r.api_identity is None,
            r.contract_id is None,
            r.ratio_factor is None,
            r.family_key@.len() == 0,
            r.parent@.len() == 0,
            !r.use_parent_price,
            r.profit_offset is None,
            r.combo is None,
    {
        AttachedAttrs {
            api_identity: None,
            contract_id: None,
            ratio_factor: None,
            family_key: String::new(),
            parent: String::new(),
            use_parent_price: false,
            profit_offset: None,
            combo: None,
        }
    }
}

impl Clone for AttachedAttrs {
    fn clone(&self) -> (copy: Self)
        ensures
            copy == *self,
    {
        AttachedAttrs {
            api_identity: self.api_identity,
            contract_id: self.contract_id,
            ratio_factor: self.ratio_factor.clone(),
            family_key: self.family_key.clone(),
            parent: self.parent.clone(),
            use_parent_price: self.use_parent_price,
            profit_offset: self.profit_offset.clone(),
            combo: shared_copy(&self.combo),
        }
    }
}

/// Everything an order states beyond its contract, its side, its quantity and
/// its shape.
#[derive(Debug, PartialEq)]
pub struct OrderAttrs {
    /// How much of the order is shown, nought for all of it.
    pub display_size: u32,
    /// The least that may trade at once.
    pub min_qty: u32,
    /// Whether it may trade outside the regular session.
    pub outside_rth: bool,
    pub hidden: bool,
    /// When it starts, in seconds since the epoch; nought for at once.
    pub good_after: i64,
    /// The last day it lives, as `YYYYMMDD`; nought for none.
    pub good_till_date_ymd: u32,
    /// The moment it ends, in seconds since the epoch; nought for none.
    pub good_till: i64,
    /// Whether the venue stands it down at the close.
    pub deactivate_at_close: bool,
    /// The group it cancels with, by number; nought for none.
    pub oca_group: u64,
    /// The group it cancels with, by name.
    pub oca_group_str: String,
    /// How its group cancels.
    pub oca_type: u8,
    /// Whether it is a preview.
    pub what_if: bool,
    /// What an attached family states.
    pub attached: Option<Arc<AttachedAttrs>>,
    /// The order it hangs from, nought for none.
    pub parent_id: u64,
    /// The account it names, empty for the session's own.
    pub account: String,
    /// Who originated it.
    pub origin: i32,
    pub discretionary_amt: i64,
    pub sweep_to_fill: bool,
    pub all_or_none: bool,
    /// The hedge it carries, nought for none.
    pub hedge_type: u8,
    pub hedge_beta: Figure,
    pub hedge_max_size: Option<i32>,
    pub hedge_ratio: Figure,
    pub dont_use_auto_price_for_hedge: bool,
    pub volatility: Figure,
    pub volatility_type: i32,
    pub seek_price_improvement: bool,
    pub manual_order_time: String,
    pub advanced_error_override: String,
    pub active_start_time: String,
    pub active_stop_time: String,
    pub post_only: bool,
    pub solicited: bool,
    /// One or nought where a person did or did not enter it by hand.
    pub manual_order_indicator: i32,
    pub route_marketable_to_bbo: bool,
    pub imbalance_only: bool,
    /// Whether it may join the pre-open auction.
    pub allow_pre_open: bool,
    pub ignore_open_auction: bool,
    pub is_oms_container: bool,
    pub ext_operator: String,
    pub customer_account: String,
    pub model_code: String,
    pub fa_group: String,
    pub fa_method: String,
    pub fa_percentage: String,
    pub professional_customer: bool,
    pub ref_futures_con_id: i32,
    pub mifid2_decision_maker: String,
    pub mifid2_decision_algo: String,
    pub mifid2_execution_trader: String,
    pub mifid2_execution_algo: String,
    pub use_price_mgmt_algo: i32,
    pub duration: i32,
    pub min_compete_size: i32,
    pub compete_against_best_offset: Figure,
    pub continuous_update: bool,
    pub reference_price_type: i32,
    pub stock_range_lower: Figure,
    pub stock_range_upper: Figure,
    pub percent_offset: Figure,
    pub not_held: bool,
    pub order_ref: String,
    pub open_close: String,
    /// Whether it exercises or lapses the option it names, nought for neither.
    pub exercise_action: u8,
    pub combo_legs: Arc<Vec<ComboLegSpec>>,
    pub clearing_account: String,
    pub clearing_intent: String,
    pub deactivate: bool,
    pub deactivate_on_disconnect: bool,
    pub include_overnight: bool,
    pub auto_cancel_parent: bool,
    pub min_trade_qty: u32,
    pub block_order: bool,
    pub auto_cancel_date: String,
    pub rule80a: String,
    pub post_to_ats: u32,
    pub short_sale_slot: i32,
    pub designated_location: String,
    pub exempt_code: i32,
    pub primary_exchange: String,
    pub delta_neutral_contract: Option<Arc<DeltaNeutralContractSpec>>,
    pub delta_neutral: Option<Arc<DeltaNeutralAttrs>>,
    pub scale: Option<Arc<ScaleAttrs>>,
    pub soft_dollar_tier_name: String,
    pub soft_dollar_tier_val: String,
    pub algo_id: String,
    pub settling_firm: String,
    pub discretionary_up_to_limit: bool,
    pub trigger_method: i32,
    pub cash_qty: i64,
    pub conditions: Arc<Vec<OrderCondition>>,
    pub conditions_cancel_order: bool,
    pub conditions_ignore_rth: bool,
    /// Whether its conditions count the overnight session.
    pub conditions_include_overnight: bool,
    pub mid_offset_at_whole: Figure,
    pub mid_offset_at_half: Figure,
}

impl OrderAttrs {
    /// Whether an order states nothing beyond what it is, but for the order it
    /// hangs from and the group it cancels with.
    pub open spec fn states_links_alone(self) -> bool {
        &&& self.display_size == 0
        &&& self.min_qty == 0
        &&& !self.outside_rth
        &&& !self.hidden
        &&& self.good_after == 0
        &&& self.good_till_date_ymd == 0
        &&& self.good_till == 0
        &&& !self.deactivate_at_close
        &&& self.oca_group == 0
        &&& !self.what_if
        &&& self.attached is None
        &&& self.account@.len() == 0
        &&& self.origin == 0
        &&& self.discretionary_amt == 0
        &&& !self.sweep_to_fill
        &&& !self.all_or_none
        &&& self.hedge_type == 0
        &&& self.hedge_beta.standing is Nought
        &&& self.hedge_max_size is None
        &&& self.hedge_ratio.standing is Nought
        &&& !self.dont_use_auto_price_for_hedge
        &&& self.volatility.standing is Nought
        &&& self.volatility_type == 0
        &&& !self.seek_price_improvement
        &&& self.manual_order_time@.len() == 0
        &&& self.advanced_error_override@.len() == 0
        &&& self.active_start_time@.len() == 0
        &&& self.active_stop_time@.len() == 0
        &&& !self.post_only
        &&& !self.solicited
        &&& self.manual_order_indicator == i32::MAX
        &&& !self.route_marketable_to_bbo
        &&& !self.imbalance_only
        &&& !self.allow_pre_open
        &&& !self.ignore_open_auction
        &&& !self.is_oms_container
        &&& self.ext_operator@.len() == 0
        &&& self.customer_account@.len() == 0
        &&& self.model_code@.len() == 0
        &&& self.fa_group@.len() == 0
        &&& self.fa_method@.len() == 0
        &&& self.fa_percentage@.len() == 0
        &&& !self.professional_customer
        &&& self.ref_futures_con_id == 0
        &&& self.mifid2_decision_maker@.len() == 0
        &&& self.mifid2_decision_algo@.len() == 0
        &&& self.mifid2_execution_trader@.len() == 0
        &&& self.mifid2_execution_algo@.len() == 0
        &&& self.use_price_mgmt_algo == 0
        &&& self.duration == i32::MAX
        &&& self.min_compete_size == 0
        &&& self.compete_against_best_offset.standing is Unset
        &&& !self.continuous_update
        &&& self.reference_price_type == 0
        &&& self.stock_range_lower.standing is Unset
        &&& self.stock_range_upper.standing is Unset
        &&& self.percent_offset.standing is Unset
        &&& !self.not_held
        &&& self.order_ref@.len() == 0
        &&& self.open_close@.len() == 0
        &&& self.exercise_action == 0
        &&& self.combo_legs@.len() == 0
        &&& self.clearing_account@.len() == 0
        &&& self.clearing_intent@.len() == 0
        &&& !self.deactivate
        &&& !self.deactivate_on_disconnect
        &&& !self.include_overnight
        &&& !self.auto_cancel_parent
        &&& self.min_trade_qty == 0
        &&& !self.block_order
        &&& self.auto_cancel_date@.len() == 0
        &&& self.rule80a@.len() == 0
        &&& self.post_to_ats == 0
        &&& self.short_sale_slot == 0
        &&& self.designated_location@.len() == 0
        &&& self.exempt_code == -1
        &&& self.primary_exchange@.len() == 0
        &&& self.delta_neutral_contract is None
        &&& self.delta_neutral is None
        &&& self.scale is None
        &&& self.soft_dollar_tier_name@.len() == 0
        &&& self.soft_dollar_tier_val@.len() == 0
        &&& self.algo_id@.len() == 0
        &&& self.settling_firm@.len() == 0
        &&& !self.discretionary_up_to_limit
        &&& self.trigger_method == 0
        &&& self.cash_qty == 0
        &&& self.conditions@.len() == 0
        &&& !self.conditions_cancel_order
        &&& !self.conditions_ignore_rth
        &&& !self.conditions_include_overnight
        &&& self.mid_offset_at_whole.standing is Unset
        &&& self.mid_offset_at_half.standing is Unset
    }

    /// Whether an order states nothing beyond what it is.
    pub open spec fn states_nothing(self) -> bool {
        &&& self.states_links_alone()
        &&& self.oca_group_str@.len() == 0
        &&& self.oca_type == 0
        &&& self.parent_id == 0
    }
}

impl Default for OrderAttrs {
    /// An order that states nothing beyond what it is.
    fn default() -> (r: Self)
        ensures
            r.states_nothing(),
    {
        OrderAttrs {
            display_size: 0,
            min_qty: 0,
            outside_rth: false,
            hidden: false,
            good_after: 0,
            good_till_date_ymd: 0,
            good_till: 0,
            deactivate_at_close: false,
            oca_group: 0,
            oca_group_str: String::new(),
            oca_type: 0,
            what_if: false,
            attached: None,
            parent_id: 0,
            account: String::new(),
            origin: 0,
            discretionary_amt: 0,
            sweep_to_fill: false,
            all_or_none: false,
            hedge_type: 0,
            hedge_beta: Figure::nought(),
            hedge_max_size: None,
            hedge_ratio: Figure::nought(),
            dont_use_auto_price_for_hedge: false,
            volatility: Figure::nought(),
            volatility_type: 0,
            seek_price_improvement: false,
            manual_order_time: String::new(),
            advanced_error_override: String::new(),
            active_start_time: String::new(),
            active_stop_time: String::new(),
            post_only: false,
            solicited: false,
            manual_order_indicator: i32::MAX,
            route_marketable_to_bbo: false,
            imbalance_only: false,
            allow_pre_open: false,
            ignore_open_auction: false,
            is_oms_container: false,
            ext_operator: String::new(),
            customer_account: String::new(),
            model_code: String::new(),
            fa_group: String::new(),
            fa_method: String::new(),
            fa_percentage: String::new(),
            professional_customer: false,
            ref_futures_con_id: 0,
            mifid2_decision_maker: String::new(),
            mifid2_decision_algo: String::new(),
            mifid2_execution_trader: String::new(),
            mifid2_execution_algo: String::new(),
            use_price_mgmt_algo: 0,
            duration: i32::MAX,
            min_compete_size: 0,
            compete_against_best_offset: Figure::unset(),
            continuous_update: false,
            reference_price_type: 0,
            stock_range_lower: Figure::unset(),
            stock_range_upper: Figure::unset(),
            percent_offset: Figure::unset(),
            not_held: false,
            order_ref: String::new(),
            open_close: String::new(),
            exercise_action: 0,
            combo_legs: Arc::new(Vec::new()),
            clearing_account: String::new(),
            clearing_intent: String::new(),
            deactivate: false,
            deactivate_on_disconnect: false,
            include_overnight: false,
            auto_cancel_parent: false,
            min_trade_qty: 0,
            block_order: false,
            auto_cancel_date: String::new(),
            rule80a: String::new(),
            post_to_ats: 0,
            short_sale_slot: 0,
            designated_location: String::new(),
            exempt_code: -1,
            primary_exchange: String::new(),
            delta_neutral_contract: None,
            delta_neutral: None,
            scale: None,
            soft_dollar_tier_name: String::new(),
            soft_dollar_tier_val: String::new(),
            algo_id: String::new(),
            settling_firm: String::new(),
            discretionary_up_to_limit: false,
            trigger_method: 0,
            cash_qty: 0,
            conditions: Arc::new(Vec::new()),
            conditions_cancel_order: false,
            conditions_ignore_rth: false,
            conditions_include_overnight: false,
            mid_offset_at_whole: Figure::unset(),
            mid_offset_at_half: Figure::unset(),
        }
    }
}

} // verus!
