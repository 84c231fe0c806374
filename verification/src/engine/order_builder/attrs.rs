//! Everything an order states beyond its identity, its contract and its price.

use crate::engine::order_builder::algos::{algo_fields, push_algo};
use crate::engine::order_builder::conditions::{condition_fields, push_conditions};
use crate::engine::order_builder::fields::{
    also, also_flag, also_named, put, put_flag, put_named, put_str, stated, Stated,
};
use crate::engine::order_builder::shape::{oca_type_name, oca_type_str};
use crate::protocol::datetime::{ib_utc_dash, unix_to_ib_utc_dash};
use crate::text::{
    decimal, digits, format_price, int_text, joined, padded, padded_text, price_text, uint_text,
};
use crate::types::attrs::{
    AttachedComboFrame, ComboLegSpec, DeltaNeutralContractSpec, Figure, OrderAttrs, Standing,
};
use crate::types::kinds::{AdjustedOrderType, OrderKind, Side};
use std::sync::Arc;
use vstd::prelude::*;

verus! {

/// Whether an account's model is one the venue is told about: it is named, and
/// it is not the default one.
pub open spec fn names_a_model(code: Seq<char>) -> bool {
    code.len() > 0 && code != "Core"@
}

/// Whether an account's model is one the venue is told about.
pub fn states_a_model(code: &str) -> (states: bool)
    ensures
        states == names_a_model(code@),
{
    !code.is_empty() && !(*code == *"Core")
}

/// Whether a figure is more than nought, as the figure that stands for none is.
pub open spec fn exceeds_nought(figure: Figure) -> bool {
    figure.standing is Above || figure.standing is Unset
}

fn is_above_nought(figure: &Figure) -> (r: bool)
    ensures
        r == exceeds_nought(*figure),
{
    matches!(figure.standing, Standing::Above | Standing::Unset)
}

/// Whether a figure bounds anything: it is stated and is not nought.
pub open spec fn bounds(figure: Figure) -> bool {
    !(figure.standing is Unset) && !(figure.standing is Nought)
}

fn is_a_bound(figure: &Figure) -> (r: bool)
    ensures
        r == bounds(*figure),
{
    !matches!(figure.standing, Standing::Unset | Standing::Nought)
}

/// State how much of the order shows and how long it lives.
pub open spec fn life_fields(f: Stated, attrs: OrderAttrs) -> Stated {
    let f = also(f, attrs.display_size > 0, 111, digits(attrs.display_size as nat));
    let f = also(f, attrs.min_qty > 0, 110, digits(attrs.min_qty as nat));
    let f = also_flag(f, attrs.outside_rth, 6433);
    let f = also_flag(f, attrs.hidden, 6135);
    let f = also(f, attrs.good_after > 0, 168, ib_utc_dash(attrs.good_after as nat));
    let f = also(f, attrs.good_till_date_ymd > 0, 432, padded(attrs.good_till_date_ymd as nat, 8));
    let f = also(f, attrs.good_till_date_ymd == 0 && attrs.good_till > 0, 126, ib_utc_dash(attrs.good_till as nat));
    let f = also_flag(f, attrs.deactivate_at_close, 6436);
    f
}

fn push_life(fields: &mut Vec<(u32, String)>, attrs: &OrderAttrs)
    ensures
        stated(final(fields)@) == life_fields(stated(old(fields)@), *attrs),
{
    if attrs.display_size > 0 {
        put(fields, 111, uint_text(attrs.display_size as u64));
    }
    if attrs.min_qty > 0 {
        put(fields, 110, uint_text(attrs.min_qty as u64));
    }
    put_flag(fields, attrs.outside_rth, 6433);
    put_flag(fields, attrs.hidden, 6135);
    if attrs.good_after > 0 {
        put(fields, 168, unix_to_ib_utc_dash(attrs.good_after as u64));
    }
    if attrs.good_till_date_ymd > 0 {
        put(fields, 432, padded_text(attrs.good_till_date_ymd as u64, 8));
    }
    if attrs.good_till_date_ymd == 0 && attrs.good_till > 0 {
        put(fields, 126, unix_to_ib_utc_dash(attrs.good_till as u64));
    }
    put_flag(fields, attrs.deactivate_at_close, 6436);
}

/// State what the caller asked the venue to do with the order.
pub open spec fn instruction_fields(f: Stated, attrs: OrderAttrs) -> Stated {
    let f = also(f, exceeds_nought(attrs.volatility), 9816, attrs.volatility.text@);
    let f = also(f, attrs.volatility_type > 0, 6280, decimal(attrs.volatility_type as int));
    let f = also_flag(f, attrs.seek_price_improvement, 6557);
    let f = also_named(f, 6532, attrs.manual_order_time@);
    let f = also_named(f, 8229, attrs.advanced_error_override@);
    let f = also_named(f, 6670, attrs.active_start_time@);
    let f = also_named(f, 6671, attrs.active_stop_time@);
    let f = also_flag(f, attrs.post_only, 6605);
    let f = also_flag(f, attrs.solicited, 6488);
    let f = also(f, attrs.manual_order_indicator == 1, 1028, "Y"@);
    let f = also(f, attrs.manual_order_indicator == 0, 1028, "N"@);
    let f = also_flag(f, attrs.route_marketable_to_bbo, 8265);
    let f = also_flag(f, attrs.imbalance_only, 6737);
    let f = also_flag(f, attrs.allow_pre_open, 6524);
    let f = also_flag(f, attrs.ignore_open_auction, 6562);
    let f = also_flag(f, attrs.is_oms_container, 6406);
    f
}

fn push_instruction(fields: &mut Vec<(u32, String)>, attrs: &OrderAttrs)
    ensures
        stated(final(fields)@) == instruction_fields(stated(old(fields)@), *attrs),
{
    if is_above_nought(&attrs.volatility) {
        put(fields, 9816, attrs.volatility.text.clone());
    }
    if attrs.volatility_type > 0 {
        put(fields, 6280, int_text(attrs.volatility_type as i64));
    }
    put_flag(fields, attrs.seek_price_improvement, 6557);
    put_named(fields, 6532, &attrs.manual_order_time);
    put_named(fields, 8229, &attrs.advanced_error_override);
    put_named(fields, 6670, &attrs.active_start_time);
    put_named(fields, 6671, &attrs.active_stop_time);
    put_flag(fields, attrs.post_only, 6605);
    put_flag(fields, attrs.solicited, 6488);
    if attrs.manual_order_indicator == 1 {
        put(fields, 1028, "Y".to_owned());
    }
    if attrs.manual_order_indicator == 0 {
        put(fields, 1028, "N".to_owned());
    }
    put_flag(fields, attrs.route_marketable_to_bbo, 8265);
    put_flag(fields, attrs.imbalance_only, 6737);
    put_flag(fields, attrs.allow_pre_open, 6524);
    put_flag(fields, attrs.ignore_open_auction, 6562);
    put_flag(fields, attrs.is_oms_container, 6406);
}

/// State who the order is for and how it is split.
pub open spec fn account_fields(f: Stated, attrs: OrderAttrs) -> Stated {
    let f = also_named(f, 8089, attrs.ext_operator@);
    let f = also_named(f, 6207, attrs.customer_account@);
    let f = also(f, names_a_model(attrs.model_code@), 6700, attrs.model_code@);
    let f = also_named(f, 6160, attrs.fa_group@);
    let f = also_named(f, 6159, attrs.fa_method@);
    let f = also_named(f, 6164, attrs.fa_percentage@);
    let f = also_flag(f, attrs.professional_customer, 6636);
    let f = also(f, attrs.ref_futures_con_id > 0, 6564, decimal(attrs.ref_futures_con_id as int));
    let f = also_named(f, 8237, attrs.mifid2_decision_maker@);
    let f = also_named(f, 8243, attrs.mifid2_decision_algo@);
    let f = also_named(f, 8254, attrs.mifid2_execution_trader@);
    let f = also_named(f, 8255, attrs.mifid2_execution_algo@);
    f
}

fn push_account(fields: &mut Vec<(u32, String)>, attrs: &OrderAttrs)
    ensures
        stated(final(fields)@) == account_fields(stated(old(fields)@), *attrs),
{
    put_named(fields, 8089, &attrs.ext_operator);
    put_named(fields, 6207, &attrs.customer_account);
    if states_a_model(attrs.model_code.as_str()) {
        put(fields, 6700, attrs.model_code.clone());
    }
    put_named(fields, 6160, &attrs.fa_group);
    put_named(fields, 6159, &attrs.fa_method);
    put_named(fields, 6164, &attrs.fa_percentage);
    put_flag(fields, attrs.professional_customer, 6636);
    if attrs.ref_futures_con_id > 0 {
        put(fields, 6564, int_text(attrs.ref_futures_con_id as i64));
    }
    put_named(fields, 8237, &attrs.mifid2_decision_maker);
    put_named(fields, 8243, &attrs.mifid2_decision_algo);
    put_named(fields, 8254, &attrs.mifid2_execution_trader);
    put_named(fields, 8255, &attrs.mifid2_execution_algo);
}

/// State how the venue prices the order, and the caller's own name for it.
pub open spec fn pricing_fields(f: Stated, attrs: OrderAttrs) -> Stated {
    let f = also(f, attrs.use_price_mgmt_algo > 0, 8339, decimal(attrs.use_price_mgmt_algo as int));
    let f = also(f, attrs.duration != i32::MAX && attrs.duration > 0, 8402, decimal(attrs.duration as int));
    let f = also(f, attrs.min_compete_size > 0, 8411, decimal(attrs.min_compete_size as int));
    let f = also(f, !(attrs.compete_against_best_offset.standing is Unset), 8412, attrs.compete_against_best_offset.text@);
    let f = also_flag(f, attrs.continuous_update, 6275);
    let f = also(f, attrs.reference_price_type > 0, 6279, decimal(attrs.reference_price_type as int));
    let f = also(f, bounds(attrs.stock_range_lower), 6152, attrs.stock_range_lower.text@);
    let f = also(f, bounds(attrs.stock_range_upper), 6153, attrs.stock_range_upper.text@);
    let f = also(f, !(attrs.percent_offset.standing is Unset), 9822, attrs.percent_offset.text@);
    let f = also_flag(f, attrs.not_held, 6287);
    let f = also_named(f, 6010, attrs.order_ref@);
    let f = also_named(f, 77, attrs.open_close@);
    let f = also(f, attrs.exercise_action != 0, 6809, digits(attrs.exercise_action as nat));
    f
}

fn push_pricing(fields: &mut Vec<(u32, String)>, attrs: &OrderAttrs)
    ensures
        stated(final(fields)@) == pricing_fields(stated(old(fields)@), *attrs),
{
    if attrs.use_price_mgmt_algo > 0 {
        put(fields, 8339, int_text(attrs.use_price_mgmt_algo as i64));
    }
    if attrs.duration != i32::MAX && attrs.duration > 0 {
        put(fields, 8402, int_text(attrs.duration as i64));
    }
    if attrs.min_compete_size > 0 {
        put(fields, 8411, int_text(attrs.min_compete_size as i64));
    }
    if !matches!(attrs.compete_against_best_offset.standing, Standing::Unset) {
        put(fields, 8412, attrs.compete_against_best_offset.text.clone());
    }
    put_flag(fields, attrs.continuous_update, 6275);
    if attrs.reference_price_type > 0 {
        put(fields, 6279, int_text(attrs.reference_price_type as i64));
    }
    if is_a_bound(&attrs.stock_range_lower) {
        put(fields, 6152, attrs.stock_range_lower.text.clone());
    }
    if is_a_bound(&attrs.stock_range_upper) {
        put(fields, 6153, attrs.stock_range_upper.text.clone());
    }
    if !matches!(attrs.percent_offset.standing, Standing::Unset) {
        put(fields, 9822, attrs.percent_offset.text.clone());
    }
    put_flag(fields, attrs.not_held, 6287);
    put_named(fields, 6010, &attrs.order_ref);
    put_named(fields, 77, &attrs.open_close);
    if attrs.exercise_action != 0 {
        put(fields, 6809, uint_text(attrs.exercise_action as u64));
    }
}

/// State where the order clears and what becomes of it.
pub open spec fn lifecycle_fields(f: Stated, attrs: OrderAttrs) -> Stated {
    let f = also_named(f, 440, attrs.clearing_account@);
    let f = also_named(f, 6419, attrs.clearing_intent@);
    let f = also_flag(f, attrs.deactivate, 6521);
    let f = also_flag(f, attrs.deactivate_on_disconnect, 6661);
    let f = also_flag(f, attrs.include_overnight, 8534);
    let f = also_flag(f, attrs.auto_cancel_parent, 6965);
    let f = also(f, attrs.min_trade_qty > 0, 8415, digits(attrs.min_trade_qty as nat));
    let f = also(f, attrs.block_order, 9801, "Y"@);
    let f = also_named(f, 6596, attrs.auto_cancel_date@);
    let f = also_named(f, 47, attrs.rule80a@);
    let f = also(f, attrs.post_to_ats != 0, 8405, digits(attrs.post_to_ats as nat));
    f
}

fn push_lifecycle(fields: &mut Vec<(u32, String)>, attrs: &OrderAttrs)
    ensures
        stated(final(fields)@) == lifecycle_fields(stated(old(fields)@), *attrs),
{
    put_named(fields, 440, &attrs.clearing_account);
    put_named(fields, 6419, &attrs.clearing_intent);
    put_flag(fields, attrs.deactivate, 6521);
    put_flag(fields, attrs.deactivate_on_disconnect, 6661);
    put_flag(fields, attrs.include_overnight, 8534);
    put_flag(fields, attrs.auto_cancel_parent, 6965);
    if attrs.min_trade_qty > 0 {
        put(fields, 8415, uint_text(attrs.min_trade_qty as u64));
    }
    if attrs.block_order {
        put(fields, 9801, "Y".to_owned());
    }
    put_named(fields, 6596, &attrs.auto_cancel_date);
    put_named(fields, 47, &attrs.rule80a);
    if attrs.post_to_ats != 0 {
        put(fields, 8405, uint_text(attrs.post_to_ats as u64));
    }
}

/// State what settles and triggers the order.
pub open spec fn closing_fields(f: Stated, attrs: OrderAttrs) -> Stated {
    let f = also_named(f, 8016, attrs.algo_id@);
    let f = also_named(f, 6282, attrs.settling_firm@);
    let f = also_flag(f, attrs.discretionary_up_to_limit, 8165);
    let f = also(f, attrs.trigger_method > 0, 6115, decimal(attrs.trigger_method as int));
    let f = also(f, attrs.cash_qty > 0, 152, price_text(attrs.cash_qty as int));
    f
}

fn push_closing(fields: &mut Vec<(u32, String)>, attrs: &OrderAttrs)
    ensures
        stated(final(fields)@) == closing_fields(stated(old(fields)@), *attrs),
{
    put_named(fields, 8016, &attrs.algo_id);
    put_named(fields, 6282, &attrs.settling_firm);
    put_flag(fields, attrs.discretionary_up_to_limit, 8165);
    if attrs.trigger_method > 0 {
        put(fields, 6115, int_text(attrs.trigger_method as i64));
    }
    if attrs.cash_qty > 0 {
        put(fields, 152, format_price(attrs.cash_qty));
    }
}

/// The group an order cancels with: the one it names, or the one of its
/// number.
pub open spec fn group_name(attrs: OrderAttrs) -> Seq<char> {
    if attrs.oca_group_str@.len() > 0 {
        attrs.oca_group_str@
    } else if attrs.oca_group > 0 {
        "OCA_"@ + digits(attrs.oca_group as nat)
    } else {
        Seq::empty()
    }
}

fn group_of(attrs: &OrderAttrs) -> (name: String)
    ensures
        name@ == group_name(*attrs),
{
    if !attrs.oca_group_str.as_str().is_empty() {
        attrs.oca_group_str.clone()
    } else if attrs.oca_group > 0 {
        joined("OCA_", uint_text(attrs.oca_group).as_str())
    } else {
        String::new()
    }
}

/// The text of a field that may be left out.
pub open spec fn optional_text(text: Option<String>) -> Option<Seq<char>> {
    match text {
        Some(text) => Some(text@),
        None => None,
    }
}

/// The fields with a text after them, where there is one.
pub open spec fn also_some(f: Stated, tag: u32, text: Option<Seq<char>>) -> Stated {
    match text {
        Some(text) => f.push((tag, text)),
        None => f,
    }
}

/// State what ties the order to others: its group, its attached family and
/// its parent. A preview joins no group.
pub open spec fn link_fields(f: Stated, attrs: OrderAttrs, parent: Option<Seq<char>>) -> Stated {
    let group = group_name(attrs);
    let grouped = group.len() > 0 && !attrs.what_if;
    let f = also(f, grouped, 583, group);
    let f = also(f, grouped, 6209, oca_type_name(attrs.oca_type));
    let f = match attrs.attached {
        Some(held) => {
            let f = also_named(f, 6531, held.family_key@);
            let f = also_some(f, 6724, optional_text(held.ratio_factor));
            if held.use_parent_price {
                also_some(f.push((6704, "1"@)), 6446, optional_text(held.profit_offset))
            } else {
                f
            }
        },
        None => f,
    };
    also_some(f, 6107, parent)
}

fn put_some(fields: &mut Vec<(u32, String)>, tag: u32, text: &Option<String>)
    ensures
        stated(final(fields)@) == also_some(stated(old(fields)@), tag, optional_text(*text)),
{
    match text {
        Some(text) => {
            put(fields, tag, text.clone());
        },
        None => {},
    }
}

fn push_links(fields: &mut Vec<(u32, String)>, attrs: &OrderAttrs, parent: &Option<String>)
    ensures
        stated(final(fields)@) == link_fields(
            stated(old(fields)@),
            *attrs,
            optional_text(*parent),
        ),
{
    let group: String = group_of(attrs);
    if !group.as_str().is_empty() && !attrs.what_if {
        put(fields, 583, group);
        put_str(fields, 6209, oca_type_str(attrs.oca_type));
    }
    match &attrs.attached {
        Some(held) => {
            put_named(fields, 6531, &held.family_key);
            put_some(fields, 6724, &held.ratio_factor);
            if held.use_parent_price {
                put_str(fields, 6704, "1");
                put_some(fields, 6446, &held.profit_offset);
            }
        },
        None => {},
    }
    put_some(fields, 6107, parent);
}

/// Instructions with one more after them, apart by a space.
pub open spec fn with_instruction(
    instructions: Seq<char>,
    when: bool,
    instruction: Seq<char>,
) -> Seq<char> {
    if !when {
        instructions
    } else if instructions.len() == 0 {
        instruction
    } else {
        instructions + " "@ + instruction
    }
}

/// Whether an order is a midpoint peg stated in two parts, which is a type of
/// its own.
pub open spec fn two_part_mid(attrs: OrderAttrs, kind: OrderKind) -> bool {
    kind is PegMid && bounds(attrs.mid_offset_at_whole) && bounds(attrs.mid_offset_at_half)
}

/// The instructions of an order: the type's own character, all-or-none, the
/// algorithm's marker and the benchmark peg's own, in that order. All-or-none
/// is stated only on an order in no group and carrying no hedge.
pub open spec fn instructions(attrs: OrderAttrs, kind: OrderKind, exec_inst: Seq<char>) -> Seq<
    char,
> {
    let i = with_instruction(
        Seq::empty(),
        exec_inst.len() > 0 && !two_part_mid(attrs, kind),
        exec_inst,
    );
    let i = with_instruction(
        i,
        attrs.all_or_none && group_name(attrs).len() == 0 && attrs.hedge_type == 0,
        "G"@,
    );
    let i = with_instruction(i, kind is Adaptive || kind is Algo, "e"@);
    with_instruction(i, kind is PegBench, "R"@)
}

/// State the discretion, whether to sweep, and the instructions on one field.
pub open spec fn execution_fields(
    f: Stated,
    attrs: OrderAttrs,
    kind: OrderKind,
    exec_inst: Seq<char>,
) -> Stated {
    let f = also(
        f,
        attrs.discretionary_amt > 0,
        9813,
        price_text(attrs.discretionary_amt as int),
    );
    let f = also_flag(f, attrs.sweep_to_fill, 6102);
    also_named(f, 18, instructions(attrs, kind, exec_inst))
}

fn add_instruction(instructions: &mut String, when: bool, instruction: &str)
    ensures
        final(instructions)@ == with_instruction(old(instructions)@, when, instruction@),
{
    if when {
        if instructions.as_str().is_empty() {
            *instructions = instruction.to_owned();
        } else {
            instructions.append(" ");
            instructions.append(instruction);
        }
    }
}

fn is_two_part_mid(attrs: &OrderAttrs, kind: &OrderKind) -> (r: bool)
    ensures
        r == two_part_mid(*attrs, *kind),
{
    matches!(kind, OrderKind::PegMid { .. }) && is_a_bound(&attrs.mid_offset_at_whole)
        && is_a_bound(&attrs.mid_offset_at_half)
}

fn push_execution(
    fields: &mut Vec<(u32, String)>,
    attrs: &OrderAttrs,
    kind: &OrderKind,
    exec_inst: &str,
)
    ensures
        stated(final(fields)@) == execution_fields(
            stated(old(fields)@),
            *attrs,
            *kind,
            exec_inst@,
        ),
{
    if attrs.discretionary_amt > 0 {
        put(fields, 9813, format_price(attrs.discretionary_amt));
    }
    put_flag(fields, attrs.sweep_to_fill, 6102);
    let mut stated_instructions: String = String::new();
    add_instruction(
        &mut stated_instructions,
        !exec_inst.is_empty() && !is_two_part_mid(attrs, kind),
        exec_inst,
    );
    add_instruction(
        &mut stated_instructions,
        attrs.all_or_none && group_of(attrs).as_str().is_empty() && attrs.hedge_type == 0,
        "G",
    );
    add_instruction(
        &mut stated_instructions,
        matches!(kind, OrderKind::Adaptive { .. } | OrderKind::Algo { .. }),
        "e",
    );
    add_instruction(
        &mut stated_instructions,
        matches!(kind, OrderKind::PegBench { .. }),
        "R",
    );
    put_named(fields, 18, &stated_instructions);
}

/// The combination a family resolved to, where it did.
pub open spec fn combo_of(attrs: OrderAttrs) -> Option<Arc<AttachedComboFrame>> {
    match attrs.attached {
        Some(held) => held.combo,
        None => None,
    }
}

fn find_combo(attrs: &OrderAttrs) -> (combo: Option<&AttachedComboFrame>)
    ensures
        combo is Some <==> combo_of(*attrs) is Some,
        combo matches Some(combo) ==> *combo == *combo_of(*attrs)->0,
{
    match &attrs.attached {
        Some(held) => match &held.combo {
            Some(combo) => Some(&**combo),
            None => None,
        },
        None => None,
    }
}

/// The fields of the legs of a combination: each leg's contract, its ratio,
/// whether it is bought, its venue where venues are stated, and its position
/// effect.
pub open spec fn leg_fields(f: Stated, legs: Seq<ComboLegSpec>, venues: bool) -> Stated
    decreases legs.len(),
{
    if legs.len() == 0 {
        f
    } else {
        let leg = legs.last();
        let f = leg_fields(f, legs.drop_last(), venues);
        let f = f.push((6080, decimal(leg.con_id as int)));
        let f = f.push((6081, digits(leg.ratio as nat)));
        let f = f.push(
            (
                6082,
                if leg.is_sell {
                    "0"@
                } else {
                    "1"@
                },
            ),
        );
        let f = also(f, venues, 616, leg.exchange@);
        f.push((6087, decimal(leg.open_close as int)))
    }
}

fn push_legs(fields: &mut Vec<(u32, String)>, legs: &Vec<ComboLegSpec>, venues: bool)
    ensures
        stated(final(fields)@) == leg_fields(stated(old(fields)@), legs@, venues),
{
    let mut at: usize = 0;
    proof {
        assert(legs@.take(0) =~= Seq::empty());
    }
    while at < legs.len()
        invariant
            at <= legs@.len(),
            stated(fields@) == leg_fields(stated(old(fields)@), legs@.take(at as int), venues),
        decreases legs@.len() - at,
    {
        let leg: &ComboLegSpec = &legs[at];
        put(fields, 6080, int_text(leg.con_id));
        put(fields, 6081, uint_text(leg.ratio as u64));
        put_str(
            fields,
            6082,
            if leg.is_sell {
                "0"
            } else {
                "1"
            },
        );
        if venues {
            put(fields, 616, leg.exchange.clone());
        }
        put(fields, 6087, int_text(leg.open_close as i64));
        proof {
            assert(legs@.take(at + 1).drop_last() =~= legs@.take(at as int));
            assert(legs@.take(at + 1).last() == *leg);
        }
        at = at + 1;
    }
    proof {
        assert(legs@.take(at as int) =~= legs@);
    }
}

/// The fields of the short sale of each leg: which leg the row is about, and
/// three texts that are empty where the leg is not sold short.
pub open spec fn short_leg_fields(f: Stated, legs: Seq<ComboLegSpec>) -> Stated
    decreases legs.len(),
{
    if legs.len() == 0 {
        f
    } else {
        let leg = legs.last();
        let f = short_leg_fields(f, legs.drop_last()).push((654, digits((legs.len() - 1) as nat)));
        if leg.short_sale_slot != 0 {
            f.push((6215, "N"@)).push((6216, leg.designated_location@)).push(
                (
                    1689,
                    if leg.exempt_code != -1 {
                        decimal(leg.exempt_code as int)
                    } else {
                        Seq::empty()
                    },
                ),
            )
        } else {
            f.push((6215, Seq::empty())).push((6216, Seq::empty())).push((1689, Seq::empty()))
        }
    }
}

fn push_short_legs(fields: &mut Vec<(u32, String)>, legs: &Vec<ComboLegSpec>)
    ensures
        stated(final(fields)@) == short_leg_fields(stated(old(fields)@), legs@),
{
    let mut at: usize = 0;
    proof {
        assert(legs@.take(0) =~= Seq::empty());
    }
    while at < legs.len()
        invariant
            at <= legs@.len(),
            stated(fields@) == short_leg_fields(stated(old(fields)@), legs@.take(at as int)),
        decreases legs@.len() - at,
    {
        let leg: &ComboLegSpec = &legs[at];
        put(fields, 654, uint_text(at as u64));
        if leg.short_sale_slot != 0 {
            put_str(fields, 6215, "N");
            put(fields, 6216, leg.designated_location.clone());
            put(
                fields,
                1689,
                if leg.exempt_code != -1 {
                    int_text(leg.exempt_code as i64)
                } else {
                    String::new()
                },
            );
        } else {
            put(fields, 6215, String::new());
            put(fields, 6216, String::new());
            put(fields, 1689, String::new());
        }
        proof {
            assert(legs@.take(at + 1).drop_last() =~= legs@.take(at as int));
            assert(legs@.take(at + 1).last() == *leg);
        }
        at = at + 1;
    }
    proof {
        assert(legs@.take(at as int) =~= legs@);
    }
}

/// The prices of the legs that state one, in the order of the legs.
pub open spec fn leg_price_fields(f: Stated, legs: Seq<ComboLegSpec>) -> Stated
    decreases legs.len(),
{
    if legs.len() == 0 {
        f
    } else {
        let f = leg_price_fields(f, legs.drop_last());
        match legs.last().price {
            Some(price) => f.push((6879, price_text(price as int))),
            None => f,
        }
    }
}

fn push_leg_prices(fields: &mut Vec<(u32, String)>, legs: &Vec<ComboLegSpec>)
    ensures
        stated(final(fields)@) == leg_price_fields(stated(old(fields)@), legs@),
{
    let mut at: usize = 0;
    proof {
        assert(legs@.take(0) =~= Seq::empty());
    }
    while at < legs.len()
        invariant
            at <= legs@.len(),
            stated(fields@) == leg_price_fields(stated(old(fields)@), legs@.take(at as int)),
        decreases legs@.len() - at,
    {
        match legs[at].price {
            Some(price) => {
                put(fields, 6879, format_price(price));
            },
            None => {},
        }
        proof {
            assert(legs@.take(at + 1).drop_last() =~= legs@.take(at as int));
        }
        at = at + 1;
    }
    proof {
        assert(legs@.take(at as int) =~= legs@);
    }
}

/// Whether any leg is sold short from the first slot.
pub open spec fn any_short_leg(legs: Seq<ComboLegSpec>) -> bool {
    exists|i: int| 0 <= i < legs.len() && (#[trigger] legs[i]).short_sale_slot == 1
}

fn has_a_short_leg(legs: &Vec<ComboLegSpec>) -> (r: bool)
    ensures
        r == any_short_leg(legs@),
{
    let mut at: usize = 0;
    while at < legs.len()
        invariant
            at <= legs@.len(),
            forall|i: int| 0 <= i < at ==> (#[trigger] legs@[i]).short_sale_slot != 1,
        decreases legs@.len() - at,
    {
        if legs[at].short_sale_slot == 1 {
            return true;
        }
        at = at + 1;
    }
    false
}

/// The way a combination is priced, as the wire states it: one and two are
/// stated as two.
pub open spec fn stated_price_mode(mode: i32) -> i32 {
    if mode == 1 || mode == 2 {
        2
    } else {
        mode
    }
}

/// State the legs of a combination on the order itself: the multiplier it
/// resolved to, how many legs there are and each of them, how it is priced,
/// its short sale, and the prices of the legs priced separately.
pub open spec fn combo_fields(f: Stated, attrs: OrderAttrs) -> Stated {
    let legs = attrs.combo_legs@;
    let combo = combo_of(attrs);
    if legs.len() == 0 {
        f
    } else {
        let f = match combo {
            Some(combo) => also_some(f, 231, optional_text(combo.multiplier)),
            None => f,
        };
        let f = f.push((6079, digits(legs.len())));
        let f = leg_fields(
            f,
            legs,
            match combo {
                Some(combo) => combo.include_leg_exchanges,
                None => true,
            },
        );
        let f = match combo {
            Some(combo) => also_flag(
                f.push((6175, decimal(stated_price_mode(combo.price_mode) as int))).push(
                    (6134, decimal(combo.combo_type as int)),
                ),
                combo.separate_delta_neutral,
                6147,
            ),
            None => f,
        };
        let f = also_flag(f, any_short_leg(legs), 6086);
        leg_price_fields(short_leg_fields(f, legs), legs)
    }
}

fn push_combo(fields: &mut Vec<(u32, String)>, attrs: &OrderAttrs)
    ensures
        stated(final(fields)@) == combo_fields(stated(old(fields)@), *attrs),
{
    let legs: &Vec<ComboLegSpec> = &attrs.combo_legs;
    if legs.len() == 0 {
        return;
    }
    let combo: Option<&AttachedComboFrame> = find_combo(attrs);
    let venues: bool = match combo {
        Some(combo) => {
            put_some(fields, 231, &combo.multiplier);
            combo.include_leg_exchanges
        },
        None => true,
    };
    put(fields, 6079, uint_text(legs.len() as u64));
    push_legs(fields, legs, venues);
    match combo {
        Some(combo) => {
            let mode: i32 = if combo.price_mode == 1 || combo.price_mode == 2 {
                2
            } else {
                combo.price_mode
            };
            put(fields, 6175, int_text(mode as i64));
            put(fields, 6134, int_text(combo.combo_type as i64));
            put_flag(fields, combo.separate_delta_neutral, 6147);
        },
        None => {},
    }
    put_flag(fields, has_a_short_leg(legs), 6086);
    push_short_legs(fields, legs);
    push_leg_prices(fields, legs);
}

/// State where the stock of a short sale comes from, whatever its slot: the
/// location only for the slot that has one, and an exemption where there is
/// one. An order that is no short sale states none of it.
pub open spec fn short_sale_fields(f: Stated, attrs: OrderAttrs, side: Side) -> Stated {
    let location = attrs.designated_location@;
    if !(side is ShortSell) {
        f
    } else {
        let f = f.push(
            (
                114,
                if location == "TMBR"@ || location == "IBKR"@ {
                    "Y"@
                } else {
                    "N"@
                },
            ),
        );
        let f = also(f, attrs.short_sale_slot == 2 && location.len() > 0, 5700, location);
        let f = f.push((6086, decimal(attrs.short_sale_slot as int)));
        also(f, attrs.exempt_code != -1, 1688, decimal(attrs.exempt_code as int))
    }
}

fn push_short_sale(fields: &mut Vec<(u32, String)>, attrs: &OrderAttrs, side: Side)
    ensures
        stated(final(fields)@) == short_sale_fields(stated(old(fields)@), *attrs, side),
{
    if !matches!(side, Side::ShortSell) {
        return;
    }
    let location: &str = attrs.designated_location.as_str();
    put_str(
        fields,
        114,
        if *location == *"TMBR" || *location == *"IBKR" {
            "Y"
        } else {
            "N"
        },
    );
    if attrs.short_sale_slot == 2 && !location.is_empty() {
        put_str(fields, 5700, location);
    }
    put(fields, 6086, int_text(attrs.short_sale_slot as i64));
    if attrs.exempt_code != -1 {
        put(fields, 1688, int_text(attrs.exempt_code as i64));
    }
}

/// State the hedge, as a number, with the parameter its kind takes, and where
/// the contract is listed.
pub open spec fn hedge_fields(f: Stated, attrs: OrderAttrs) -> Stated {
    let f = if attrs.hedge_type != 0 {
        let f = f.push((6665, digits(attrs.hedge_type as nat)));
        let f = also(f, !(attrs.hedge_beta.standing is Nought), 6703, attrs.hedge_beta.text@);
        let f = match attrs.hedge_max_size {
            Some(size) => f.push((6690, decimal(size as int))),
            None => f,
        };
        also(f, !(attrs.hedge_ratio.standing is Nought), 6666, attrs.hedge_ratio.text@)
    } else {
        f
    };
    also_named(f, 207, attrs.primary_exchange@)
}

fn push_hedge(fields: &mut Vec<(u32, String)>, attrs: &OrderAttrs)
    ensures
        stated(final(fields)@) == hedge_fields(stated(old(fields)@), *attrs),
{
    if attrs.hedge_type != 0 {
        put(fields, 6665, uint_text(attrs.hedge_type as u64));
        if !matches!(attrs.hedge_beta.standing, Standing::Nought) {
            put(fields, 6703, attrs.hedge_beta.text.clone());
        }
        match attrs.hedge_max_size {
            Some(size) => {
                put(fields, 6690, int_text(size as i64));
            },
            None => {},
        }
        if !matches!(attrs.hedge_ratio.standing, Standing::Nought) {
            put(fields, 6666, attrs.hedge_ratio.text.clone());
        }
    }
    put_named(fields, 207, &attrs.primary_exchange);
}

/// The contract an order hedges with: the one a resolved combination states,
/// be it none, and the order's own otherwise.
pub open spec fn hedging_contract(attrs: OrderAttrs) -> Option<Arc<DeltaNeutralContractSpec>> {
    match combo_of(attrs) {
        Some(combo) => combo.delta_neutral_contract,
        None => attrs.delta_neutral_contract,
    }
}

/// The number of the contract an order hedges with: the contract's own where
/// it has one, and the hedging order's otherwise. Nought is none.
pub open spec fn hedging_con_id(attrs: OrderAttrs) -> i64 {
    let of_the_contract = match hedging_contract(attrs) {
        Some(contract) => contract.con_id,
        None => 0,
    };
    if of_the_contract != 0 {
        of_the_contract
    } else {
        match attrs.delta_neutral {
            Some(hedge) => hedge.con_id,
            None => 0,
        }
    }
}

/// State the contract the order hedges with, its delta and its price, and the
/// order the hedge is placed as.
pub open spec fn delta_neutral_fields(f: Stated, attrs: OrderAttrs) -> Stated {
    let con_id = hedging_con_id(attrs);
    let f = also(f, con_id != 0, 6150, decimal(con_id as int));
    let f = match hedging_contract(attrs) {
        Some(contract) => f.push((6148, contract.delta.text@)).push((6149, contract.price.text@)),
        None => f,
    };
    match attrs.delta_neutral {
        Some(hedge) => also(
            f.push((6290, hedge.order_type@)),
            hedge.aux_price != 0,
            6291,
            price_text(hedge.aux_price as int),
        ),
        None => f,
    }
}

fn find_hedging_contract(attrs: &OrderAttrs) -> (contract: Option<&DeltaNeutralContractSpec>)
    ensures
        contract is Some <==> hedging_contract(*attrs) is Some,
        contract matches Some(contract) ==> *contract == *hedging_contract(*attrs)->0,
{
    let stated_by: &Option<Arc<DeltaNeutralContractSpec>> = match find_combo(attrs) {
        Some(combo) => &combo.delta_neutral_contract,
        None => &attrs.delta_neutral_contract,
    };
    match stated_by {
        Some(contract) => Some(&**contract),
        None => None,
    }
}

fn push_delta_neutral(fields: &mut Vec<(u32, String)>, attrs: &OrderAttrs)
    ensures
        stated(final(fields)@) == delta_neutral_fields(stated(old(fields)@), *attrs),
{
    let contract: Option<&DeltaNeutralContractSpec> = find_hedging_contract(attrs);
    let of_the_contract: i64 = match contract {
        Some(contract) => contract.con_id,
        None => 0,
    };
    let con_id: i64 = if of_the_contract != 0 {
        of_the_contract
    } else {
        match &attrs.delta_neutral {
            Some(hedge) => hedge.con_id,
            None => 0,
        }
    };
    if con_id != 0 {
        put(fields, 6150, int_text(con_id));
    }
    match contract {
        Some(contract) => {
            put(fields, 6148, contract.delta.text.clone());
            put(fields, 6149, contract.price.text.clone());
        },
        None => {},
    }
    match &attrs.delta_neutral {
        Some(hedge) => {
            put(fields, 6290, hedge.order_type.clone());
            if hedge.aux_price != 0 {
                put(fields, 6291, format_price(hedge.aux_price));
            }
        },
        None => {},
    }
}

/// Whether a family states the profit offset of its own.
pub open spec fn family_states_profit(attrs: OrderAttrs) -> bool {
    match attrs.attached {
        Some(held) => held.use_parent_price && held.profit_offset is Some,
        None => false,
    }
}

/// State the ladder. A profit offset the family already states is not stated
/// again.
pub open spec fn scale_fields(f: Stated, attrs: OrderAttrs) -> Stated {
    match attrs.scale {
        Some(scale) => {
            let f = also(
                f,
                scale.init_level_size > 0,
                6403,
                digits(scale.init_level_size as nat),
            );
            let f = also(
                f,
                scale.subs_level_size > 0,
                6445,
                digits(scale.subs_level_size as nat),
            );
            let f = also(
                f,
                scale.price_increment > 0,
                6405,
                price_text(scale.price_increment as int),
            );
            let f = also(
                f,
                scale.profit_offset > 0 && !family_states_profit(attrs),
                6446,
                price_text(scale.profit_offset as int),
            );
            let f = also(
                f,
                scale.price_adjust_value != 0,
                6527,
                price_text(scale.price_adjust_value as int),
            );
            let f = also(
                f,
                scale.price_adjust_interval > 0,
                6526,
                digits(scale.price_adjust_interval as nat),
            );
            let f = also_flag(f, scale.auto_reset, 6461);
            let f = also_flag(f, scale.random_percent, 6795);
            let f = also(f, scale.init_position != 0, 6485, decimal(scale.init_position as int));
            match scale.init_fill_qty {
                Some(filled) => f.push((6486, decimal(filled as int))),
                None => f,
            }
        },
        None => f,
    }
}

fn states_the_profit(attrs: &OrderAttrs) -> (r: bool)
    ensures
        r == family_states_profit(*attrs),
{
    match &attrs.attached {
        Some(held) => held.use_parent_price && held.profit_offset.is_some(),
        None => false,
    }
}

fn push_scale(fields: &mut Vec<(u32, String)>, attrs: &OrderAttrs)
    ensures
        stated(final(fields)@) == scale_fields(stated(old(fields)@), *attrs),
{
    match &attrs.scale {
        Some(scale) => {
            if scale.init_level_size > 0 {
                put(fields, 6403, uint_text(scale.init_level_size as u64));
            }
            if scale.subs_level_size > 0 {
                put(fields, 6445, uint_text(scale.subs_level_size as u64));
            }
            if scale.price_increment > 0 {
                put(fields, 6405, format_price(scale.price_increment));
            }
            if scale.profit_offset > 0 && !states_the_profit(attrs) {
                put(fields, 6446, format_price(scale.profit_offset));
            }
            if scale.price_adjust_value != 0 {
                put(fields, 6527, format_price(scale.price_adjust_value));
            }
            if scale.price_adjust_interval > 0 {
                put(fields, 6526, uint_text(scale.price_adjust_interval as u64));
            }
            put_flag(fields, scale.auto_reset, 6461);
            put_flag(fields, scale.random_percent, 6795);
            if scale.init_position != 0 {
                put(fields, 6485, int_text(scale.init_position as i64));
            }
            match scale.init_fill_qty {
                Some(filled) => {
                    put(fields, 6486, int_text(filled as i64));
                },
                None => {},
            }
        },
        None => {},
    }
}

/// State the soft-dollar arrangement, both parts of it or neither.
pub open spec fn soft_dollar_fields(f: Stated, attrs: OrderAttrs) -> Stated {
    let name = attrs.soft_dollar_tier_name@;
    let value = attrs.soft_dollar_tier_val@;
    if name.len() > 0 && value.len() > 0 {
        f.push((6519, name)).push((6520, value))
    } else {
        f
    }
}

fn push_soft_dollar(fields: &mut Vec<(u32, String)>, attrs: &OrderAttrs)
    ensures
        stated(final(fields)@) == soft_dollar_fields(stated(old(fields)@), *attrs),
{
    if !attrs.soft_dollar_tier_name.as_str().is_empty()
        && !attrs.soft_dollar_tier_val.as_str().is_empty() {
        put(fields, 6519, attrs.soft_dollar_tier_name.clone());
        put(fields, 6520, attrs.soft_dollar_tier_val.clone());
    }
}

/// State what an adjustable stop turns into, and at which price.
pub open spec fn adjustable_fields(f: Stated, kind: OrderKind) -> Stated {
    match kind {
        OrderKind::AdjustableStop {
            trigger_price,
            adjusted_order_type,
            adjusted_stop_price,
            adjusted_stop_limit_price,
            adjusted_trailing_amount,
            adjustable_trailing_unit,
            ..
        } => {
            let trails = adjusted_order_type is Trail || adjusted_order_type is TrailLimit;
            let f = f.push((6257, "1"@));
            let f = f.push((6261, adjusted_order_type.code()));
            let f = f.push((6258, price_text(trigger_price as int)));
            let f = f.push((6259, price_text(adjusted_stop_price as int)));
            let f = also(
                f,
                adjusted_stop_limit_price > 0,
                6262,
                price_text(adjusted_stop_limit_price as int),
            );
            let f = also(f, trails, 6260, price_text(adjusted_trailing_amount as int));
            also(f, trails, 6269, decimal(adjustable_trailing_unit as int))
        },
        _ => f,
    }
}

fn push_adjustable(fields: &mut Vec<(u32, String)>, kind: &OrderKind)
    ensures
        stated(final(fields)@) == adjustable_fields(stated(old(fields)@), *kind),
{
    match kind {
        OrderKind::AdjustableStop {
            trigger_price,
            adjusted_order_type,
            adjusted_stop_price,
            adjusted_stop_limit_price,
            adjusted_trailing_amount,
            adjustable_trailing_unit,
            ..
        } => {
            put_str(fields, 6257, "1");
            put_str(fields, 6261, adjusted_order_type.fix_code());
            put(fields, 6258, format_price(*trigger_price));
            put(fields, 6259, format_price(*adjusted_stop_price));
            if *adjusted_stop_limit_price > 0 {
                put(fields, 6262, format_price(*adjusted_stop_limit_price));
            }
            if matches!(adjusted_order_type, AdjustedOrderType::Trail | AdjustedOrderType::TrailLimit) {
                put(fields, 6260, format_price(*adjusted_trailing_amount));
                put(fields, 6269, int_text(*adjustable_trailing_unit as i64));
            }
        },
        _ => {},
    }
}

/// An offset as it is stated, nought where it is unset.
pub open spec fn unset_is_nought(figure: Figure) -> Seq<char> {
    if figure.standing is Unset {
        "0.000000"@
    } else {
        figure.text@
    }
}

fn offset_text(figure: &Figure) -> (text: String)
    ensures
        text@ == unset_is_nought(*figure),
{
    if matches!(figure.standing, Standing::Unset) {
        "0.000000".to_owned()
    } else {
        figure.text.clone()
    }
}

/// The fields a type appends after everything else: a cap, a peg's offset, the
/// two parts of a midpoint peg, the first trigger of a trail.
pub open spec fn companion_fields(f: Stated, attrs: OrderAttrs, kind: OrderKind) -> Stated {
    match kind {
        OrderKind::MidPrice { price_cap } => also(
            f,
            price_cap != 0,
            44,
            price_text(price_cap as int),
        ),
        OrderKind::PegMkt { offset, price_cap } => also(
            f.push((211, price_text(offset as int))).push((99, price_text(offset as int))),
            price_cap != 0,
            44,
            price_text(price_cap as int),
        ),
        OrderKind::PassiveRel { offset, price_cap } => also(
            f.push((211, price_text(offset as int))).push((99, price_text(offset as int))),
            price_cap != 0,
            44,
            price_text(price_cap as int),
        ),
        OrderKind::PegMid { offset, price_cap } => also(
            f.push((8403, unset_is_nought(attrs.mid_offset_at_whole))).push(
                (8404, unset_is_nought(attrs.mid_offset_at_half)),
            ).push((211, price_text(offset as int))),
            price_cap != 0,
            44,
            price_text(price_cap as int),
        ),
        OrderKind::PegBest { .. } => if attrs.mid_offset_at_whole.standing is Unset
            && attrs.mid_offset_at_half.standing is Unset {
            f
        } else {
            f.push((8403, unset_is_nought(attrs.mid_offset_at_whole))).push(
                (8404, unset_is_nought(attrs.mid_offset_at_half)),
            )
        },
        OrderKind::TrailingStop { trail_stop_price: Some(first), .. } => f.push(
            (6117, price_text(first as int)),
        ),
        OrderKind::TrailingStopLimit { trail_stop_price: Some(first), .. } => f.push(
            (6117, price_text(first as int)),
        ),
        OrderKind::TrailPct { trail_stop_price: Some(first), .. } => f.push(
            (6117, price_text(first as int)),
        ),
        _ => f,
    }
}

fn put_cap(fields: &mut Vec<(u32, String)>, price_cap: i64)
    ensures
        stated(final(fields)@) == also(
            stated(old(fields)@),
            price_cap != 0,
            44,
            price_text(price_cap as int),
        ),
{
    if price_cap != 0 {
        put(fields, 44, format_price(price_cap));
    }
}

fn push_companions(fields: &mut Vec<(u32, String)>, attrs: &OrderAttrs, kind: &OrderKind)
    ensures
        stated(final(fields)@) == companion_fields(stated(old(fields)@), *attrs, *kind),
{
    match kind {
        OrderKind::MidPrice { price_cap } => put_cap(fields, *price_cap),
        OrderKind::PegMkt { offset, price_cap } => {
            put(fields, 211, format_price(*offset));
            put(fields, 99, format_price(*offset));
            put_cap(fields, *price_cap);
        },
        OrderKind::PassiveRel { offset, price_cap } => {
            put(fields, 211, format_price(*offset));
            put(fields, 99, format_price(*offset));
            put_cap(fields, *price_cap);
        },
        OrderKind::PegMid { offset, price_cap } => {
            put(fields, 8403, offset_text(&attrs.mid_offset_at_whole));
            put(fields, 8404, offset_text(&attrs.mid_offset_at_half));
            put(fields, 211, format_price(*offset));
            put_cap(fields, *price_cap);
        },
        OrderKind::PegBest { .. } => {
            if !matches!(attrs.mid_offset_at_whole.standing, Standing::Unset)
                || !matches!(attrs.mid_offset_at_half.standing, Standing::Unset) {
                put(fields, 8403, offset_text(&attrs.mid_offset_at_whole));
                put(fields, 8404, offset_text(&attrs.mid_offset_at_half));
            }
        },
        OrderKind::TrailingStop { trail_stop_price: Some(first), .. } => {
            put(fields, 6117, format_price(*first));
        },
        OrderKind::TrailingStopLimit { trail_stop_price: Some(first), .. } => {
            put(fields, 6117, format_price(*first));
        },
        OrderKind::TrailPct { trail_stop_price: Some(first), .. } => {
            put(fields, 6117, format_price(*first));
        },
        _ => {},
    }
}

/// State the strategy an order is worked by, and whether it is a preview.
pub open spec fn strategy_fields(f: Stated, attrs: OrderAttrs, kind: OrderKind) -> Stated {
    let f = match kind {
        OrderKind::Adaptive { priority, .. } => f.push((847, "Adaptive"@)).push(
            (5957, "1"@),
        ).push((5958, "adaptivePriority"@)).push((5960, priority.spelled())),
        OrderKind::Algo { algo, .. } => algo_fields(f, *algo),
        _ => f,
    };
    also_flag(f, attrs.what_if, 6091)
}

fn push_strategy(fields: &mut Vec<(u32, String)>, attrs: &OrderAttrs, kind: &OrderKind)
    ensures
        stated(final(fields)@) == strategy_fields(stated(old(fields)@), *attrs, *kind),
{
    match kind {
        OrderKind::Adaptive { priority, .. } => {
            put_str(fields, 847, "Adaptive");
            put_str(fields, 5957, "1");
            put_str(fields, 5958, "adaptivePriority");
            put_str(fields, 5960, priority.as_str());
        },
        OrderKind::Algo { algo, .. } => {
            push_algo(fields, algo);
        },
        _ => {},
    }
    put_flag(fields, attrs.what_if, 6091);
}

/// Everything an order states beyond its identity, its contract and its price,
/// in the order the venue reads it.
pub open spec fn attr_fields(
    f: Stated,
    attrs: OrderAttrs,
    kind: OrderKind,
    side: Side,
    exec_inst: Seq<char>,
    parent: Option<Seq<char>>,
) -> Stated {
    let f = life_fields(f, attrs);
    let f = link_fields(f, attrs, parent);
    let f = execution_fields(f, attrs, kind, exec_inst);
    let f = instruction_fields(f, attrs);
    let f = account_fields(f, attrs);
    let f = pricing_fields(f, attrs);
    let f = combo_fields(f, attrs);
    let f = lifecycle_fields(f, attrs);
    let f = short_sale_fields(f, attrs, side);
    let f = hedge_fields(f, attrs);
    let f = delta_neutral_fields(f, attrs);
    let f = scale_fields(f, attrs);
    let f = soft_dollar_fields(f, attrs);
    let f = closing_fields(f, attrs);
    let f = condition_fields(f, attrs);
    let f = adjustable_fields(f, kind);
    let f = companion_fields(f, attrs, kind);
    strategy_fields(f, attrs, kind)
}

/// State everything an order carries beyond its identity, its contract and its
/// price. A replacement restates all of it.
///
/// Gives the order type the attributes settle on, where it is not the one the
/// order's own shape states: the name of a midpoint peg stated in two parts.
pub fn push_order_attrs(
    fields: &mut Vec<(u32, String)>,
    attrs: &OrderAttrs,
    kind: &OrderKind,
    side: Side,
    exec_inst: &str,
    parent: &Option<String>,
) -> (settled: Option<&'static str>)
    ensures
        stated(final(fields)@) == attr_fields(
            stated(old(fields)@),
            *attrs,
            *kind,
            side,
            exec_inst@,
            optional_text(*parent),
        ),
        settled is Some <==> two_part_mid(*attrs, *kind),
        settled matches Some(name) ==> name@ == "PMID2"@,
{
    push_life(fields, attrs);
    push_links(fields, attrs, parent);
    push_execution(fields, attrs, kind, exec_inst);
    push_instruction(fields, attrs);
    push_account(fields, attrs);
    push_pricing(fields, attrs);
    push_combo(fields, attrs);
    push_lifecycle(fields, attrs);
    push_short_sale(fields, attrs, side);
    push_hedge(fields, attrs);
    push_delta_neutral(fields, attrs);
    push_scale(fields, attrs);
    push_soft_dollar(fields, attrs);
    push_closing(fields, attrs);
    push_conditions(fields, attrs);
    push_adjustable(fields, kind);
    push_companions(fields, attrs, kind);
    push_strategy(fields, attrs, kind);
    if is_two_part_mid(attrs, kind) {
        Some("PMID2")
    } else {
        None
    }
}

} // verus!
