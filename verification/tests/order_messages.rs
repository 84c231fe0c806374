//! What an order states on the wire: its attributes, its contract, its group.

use ibkr_dx::engine::context::{Context, OrderIdentity, Slot, StrikeReads};
use ibkr_dx::engine::known::Known;
use ibkr_dx::engine::order_builder::attrs::{push_order_attrs, states_a_model};
use ibkr_dx::engine::order_builder::fields::find;
use ibkr_dx::engine::order_builder::identity::{
    currency_for, maturity_tag, push_contract_identity, the_slot_is_not_that_contract,
};
use ibkr_dx::engine::order_builder::submit::{parent_clord, send_order_ex};
use ibkr_dx::text::{PRICE_SCALE, QTY_SCALE};
use ibkr_dx::types::attrs::{
    ComboLegSpec, DeltaNeutralAttrs, DeltaNeutralContractSpec, Figure, OrderAttrs, ScaleAttrs,
    Standing,
};
use ibkr_dx::types::kinds::{AdaptivePriority, AdjustedOrderType, AlgoParams, OrderKind, Side};
use std::sync::Arc;

const NOW: &str = "20260926-08:43:00";

fn figure(value: f64) -> Figure {
    let standing = if value > 0.0 {
        Standing::Above
    } else if value < 0.0 {
        Standing::Below
    } else {
        Standing::Nought
    };
    Figure { standing, text: format!("{value:.6}") }
}

fn slot(con_id: Option<i64>, sec_type: &str, identity: Option<OrderIdentity>) -> Slot {
    Slot {
        con_id,
        symbol: "ABC".to_string(),
        sec_type: sec_type.to_string(),
        destination: "SMART".to_string(),
        identity,
        currency: None,
    }
}

fn identity(expiry: &str, strike: &str, reads: StrikeReads, right: &str) -> OrderIdentity {
    OrderIdentity {
        expiry: expiry.to_string(),
        strike: strike.to_string(),
        strike_reads: reads,
        right: right.to_string(),
        multiplier: "100".to_string(),
        trading_class: "ABCW".to_string(),
        local_symbol: "ABC LOCAL".to_string(),
        currency: String::new(),
    }
}

fn pairs(fields: &[(u32, String)]) -> Vec<(u32, &str)> {
    fields.iter().map(|(tag, text)| (*tag, text.as_str())).collect()
}

/// What an order's attributes state, and the type they settle on.
fn stated(attrs: &OrderAttrs, kind: &OrderKind, side: Side, inst: &str) -> (Vec<(u32, String)>, bool) {
    let mut fields = Vec::new();
    let own = push_order_attrs(&mut fields, attrs, kind, side, inst, &None);
    (fields, own == Some("PMID2"))
}

fn buying(attrs: &OrderAttrs) -> Vec<(u32, String)> {
    stated(attrs, &OrderKind::Limit { price: PRICE_SCALE }, Side::Buy, "").0
}

#[test]
fn an_order_that_states_nothing_carries_nothing_more() {
    assert!(buying(&OrderAttrs::default()).is_empty());
}

#[test]
fn a_life_by_date_and_a_life_by_moment_are_never_both_stated() {
    let attrs = OrderAttrs {
        good_after: 1_758_876_180,
        good_till_date_ymd: 20261231,
        good_till: 1_758_876_180,
        deactivate_at_close: true,
        ..OrderAttrs::default()
    };
    assert_eq!(
        pairs(&buying(&attrs)),
        vec![(168, "20250926-08:43:00"), (432, "20261231"), (6436, "1")],
    );
    let attrs = OrderAttrs { good_till: 1_758_876_180, ..OrderAttrs::default() };
    assert_eq!(pairs(&buying(&attrs)), vec![(126, "20250926-08:43:00")]);
    let attrs = OrderAttrs { good_till_date_ymd: 9991231, ..OrderAttrs::default() };
    assert_eq!(pairs(&buying(&attrs)), vec![(432, "09991231")]);
}

#[test]
fn all_or_none_is_stated_only_outside_a_group_and_without_a_hedge() {
    let trail = OrderKind::TrailingStop { trail_amt: 1, trail_stop_price: None };
    let alone = OrderAttrs { all_or_none: true, ..OrderAttrs::default() };
    assert_eq!(find(&stated(&alone, &trail, Side::Buy, "a").0, 18).as_deref(), Some("a G"));
    let grouped = OrderAttrs { all_or_none: true, oca_group: 7, what_if: true, ..OrderAttrs::default() };
    let fields = stated(&grouped, &trail, Side::Buy, "a").0;
    assert_eq!(find(&fields, 18).as_deref(), Some("a"));
    assert_eq!(find(&fields, 583), None, "a preview joins no group");
    assert_eq!(find(&fields, 6091).as_deref(), Some("1"));
    let hedged = OrderAttrs { all_or_none: true, hedge_type: 1, ..OrderAttrs::default() };
    assert_eq!(find(&stated(&hedged, &trail, Side::Buy, "").0, 18), None);
    let algo = OrderKind::Algo {
        price: 1,
        algo: Arc::new(AlgoParams::Twap {
            allow_past_end_time: None,
            start_time: None,
            end_time: None,
        }),
    };
    assert_eq!(find(&stated(&alone, &algo, Side::Buy, "").0, 18).as_deref(), Some("G e"));
}

#[test]
fn a_group_is_named_by_its_name_before_its_number() {
    let attrs = OrderAttrs { oca_group: 7, oca_type: 1, ..OrderAttrs::default() };
    assert_eq!(pairs(&buying(&attrs)), vec![(583, "OCA_7"), (6209, "CancelOnFillWBlock")]);
    let attrs = OrderAttrs {
        oca_group: 7,
        oca_group_str: "mine".to_string(),
        ..OrderAttrs::default()
    };
    assert_eq!(pairs(&buying(&attrs)), vec![(583, "mine"), (6209, "ReduceOnFillNonBlock")]);
}

#[test]
fn a_figure_left_out_and_a_bound_of_nought_are_not_stated() {
    let attrs = OrderAttrs {
        volatility: figure(0.2),
        volatility_type: 2,
        stock_range_lower: figure(0.0),
        stock_range_upper: figure(-1.5),
        percent_offset: figure(0.0),
        ..OrderAttrs::default()
    };
    assert_eq!(
        pairs(&buying(&attrs)),
        vec![(9816, "0.200000"), (6280, "2"), (6153, "-1.500000"), (9822, "0.000000")],
    );
}

#[test]
fn an_entry_by_hand_is_a_letter_and_any_other_number_states_nothing() {
    let by_hand = |manual_order_indicator| OrderAttrs { manual_order_indicator, ..OrderAttrs::default() };
    assert_eq!(pairs(&buying(&by_hand(1))), vec![(1028, "Y")]);
    assert_eq!(pairs(&buying(&by_hand(0))), vec![(1028, "N")]);
    assert!(buying(&by_hand(2)).is_empty());
    assert!(buying(&by_hand(-1)).is_empty());
}

#[test]
fn the_default_model_is_not_named() {
    assert!(!states_a_model(""));
    assert!(!states_a_model("Core"));
    assert!(states_a_model("Growth"));
}

#[test]
fn a_short_sale_states_where_the_stock_comes_from() {
    let limit = OrderKind::Limit { price: 1 };
    let plain = OrderAttrs::default();
    assert_eq!(
        pairs(&stated(&plain, &limit, Side::ShortSell, "").0),
        vec![(114, "N"), (6086, "0")],
    );
    let located = OrderAttrs {
        short_sale_slot: 2,
        designated_location: "IBKR".to_string(),
        exempt_code: 3,
        ..OrderAttrs::default()
    };
    assert_eq!(
        pairs(&stated(&located, &limit, Side::ShortSell, "").0),
        vec![(114, "Y"), (5700, "IBKR"), (6086, "2"), (1688, "3")],
    );
    assert!(stated(&located, &limit, Side::Sell, "").0.is_empty(), "no short sale, no exemption");
}

#[test]
fn a_combination_states_its_legs_and_keys_its_short_rows() {
    let attrs = OrderAttrs {
        combo_legs: Arc::new(vec![
            ComboLegSpec { con_id: 1, ratio: 2, price: Some(PRICE_SCALE), ..ComboLegSpec::default() },
            ComboLegSpec {
                con_id: 3,
                ratio: 4,
                is_sell: true,
                exchange: "CBOE".to_string(),
                open_close: 1,
                short_sale_slot: 1,
                designated_location: "X".to_string(),
                ..ComboLegSpec::default()
            },
        ]),
        ..OrderAttrs::default()
    };
    assert_eq!(
        pairs(&buying(&attrs)),
        vec![
            (6079, "2"),
            (6080, "1"),
            (6081, "2"),
            (6082, "1"),
            (616, ""),
            (6087, "0"),
            (6080, "3"),
            (6081, "4"),
            (6082, "0"),
            (616, "CBOE"),
            (6087, "1"),
            (6086, "1"),
            (654, "0"),
            (6215, ""),
            (6216, ""),
            (1689, ""),
            (654, "1"),
            (6215, "N"),
            (6216, "X"),
            (1689, ""),
            (6879, "1"),
        ],
    );
}

#[test]
fn the_contract_to_hedge_with_is_stated_once() {
    let attrs = OrderAttrs {
        hedge_type: 3,
        hedge_beta: figure(1.25),
        hedge_max_size: Some(0),
        delta_neutral_contract: Some(Arc::new(DeltaNeutralContractSpec {
            con_id: 11,
            delta: figure(0.5),
            price: figure(10.0),
        })),
        delta_neutral: Some(Arc::new(DeltaNeutralAttrs {
            order_type: "MKT".to_string(),
            aux_price: PRICE_SCALE,
            con_id: 99,
        })),
        ..OrderAttrs::default()
    };
    assert_eq!(
        pairs(&buying(&attrs)),
        vec![
            (6665, "3"),
            (6703, "1.250000"),
            (6690, "0"),
            (6150, "11"),
            (6148, "0.500000"),
            (6149, "10.000000"),
            (6290, "MKT"),
            (6291, "1"),
        ],
    );
}

#[test]
fn a_ladder_states_what_it_sets() {
    let attrs = OrderAttrs {
        scale: Some(Arc::new(ScaleAttrs {
            init_level_size: 100,
            subs_level_size: 50,
            price_increment: PRICE_SCALE / 20,
            profit_offset: PRICE_SCALE,
            price_adjust_value: -PRICE_SCALE,
            price_adjust_interval: 60,
            auto_reset: true,
            random_percent: true,
            init_position: -5,
            init_fill_qty: Some(0),
            table: None,
        })),
        ..OrderAttrs::default()
    };
    assert_eq!(
        pairs(&buying(&attrs)),
        vec![
            (6403, "100"),
            (6445, "50"),
            (6405, "0.05"),
            (6446, "1"),
            (6527, "-1"),
            (6526, "60"),
            (6461, "1"),
            (6795, "1"),
            (6485, "-5"),
            (6486, "0"),
        ],
    );
}

#[test]
fn a_soft_dollar_tier_is_stated_whole_or_not_at_all() {
    let attrs = OrderAttrs { soft_dollar_tier_name: "tier".to_string(), ..OrderAttrs::default() };
    assert!(buying(&attrs).is_empty());
    let attrs = OrderAttrs {
        soft_dollar_tier_name: "tier".to_string(),
        soft_dollar_tier_val: "1".to_string(),
        cash_qty: 5 * PRICE_SCALE,
        ..OrderAttrs::default()
    };
    assert_eq!(pairs(&buying(&attrs)), vec![(6519, "tier"), (6520, "1"), (152, "5")]);
}

#[test]
fn a_midpoint_peg_in_two_parts_is_a_type_of_its_own() {
    let peg = OrderKind::PegMid { offset: 0, price_cap: 0 };
    let attrs = OrderAttrs {
        mid_offset_at_whole: figure(0.02),
        mid_offset_at_half: figure(0.01),
        ..OrderAttrs::default()
    };
    let (fields, own) = stated(&attrs, &peg, Side::Buy, "M");
    assert!(own);
    assert_eq!(pairs(&fields), vec![(8403, "0.020000"), (8404, "0.010000"), (211, "0")]);
    let one = OrderAttrs { mid_offset_at_whole: figure(0.02), ..OrderAttrs::default() };
    let (fields, own) = stated(&one, &peg, Side::Buy, "M");
    assert!(!own);
    assert_eq!(
        pairs(&fields),
        vec![(18, "M"), (8403, "0.020000"), (8404, "0.000000"), (211, "0")],
    );
    let best = OrderKind::PegBest { price: 1 };
    assert_eq!(
        pairs(&stated(&one, &best, Side::Buy, "").0),
        vec![(8403, "0.020000"), (8404, "0.000000")],
    );
    assert!(stated(&OrderAttrs::default(), &best, Side::Buy, "").0.is_empty());
}

#[test]
fn what_a_type_appends_after_the_attributes() {
    let none = OrderAttrs::default();
    let peg = OrderKind::PegMkt { offset: PRICE_SCALE, price_cap: 2 * PRICE_SCALE };
    assert_eq!(
        pairs(&stated(&none, &peg, Side::Buy, "P").0),
        vec![(18, "P"), (211, "1"), (99, "1"), (44, "2")],
    );
    let trail = OrderKind::TrailPct { trail_pct: 100, trail_stop_price: Some(0) };
    assert_eq!(pairs(&stated(&none, &trail, Side::Buy, "a").0), vec![(18, "a"), (6117, "0")]);
    let adaptive = OrderKind::Adaptive { price: 1, priority: AdaptivePriority::Patient };
    assert_eq!(
        pairs(&stated(&none, &adaptive, Side::Buy, "").0),
        vec![(18, "e"), (847, "Adaptive"), (5957, "1"), (5958, "adaptivePriority"), (5960, "Patient")],
    );
    let mid = OrderKind::MidPrice { price_cap: PRICE_SCALE };
    assert_eq!(pairs(&stated(&none, &mid, Side::Buy, "").0), vec![(44, "1")]);
    let stop = |adjusted_order_type, adjusted_stop_limit_price| OrderKind::AdjustableStop {
        stop_price: 1,
        trigger_price: PRICE_SCALE,
        adjusted_order_type,
        adjusted_stop_price: 2 * PRICE_SCALE,
        adjusted_stop_limit_price,
        adjusted_trailing_amount: 3 * PRICE_SCALE,
        adjustable_trailing_unit: 100,
    };
    assert_eq!(
        pairs(&stated(&none, &stop(AdjustedOrderType::Stop, 0), Side::Buy, "").0),
        vec![(6257, "1"), (6261, "3"), (6258, "1"), (6259, "2")],
    );
    let trailing = stated(&none, &stop(AdjustedOrderType::TrailLimit, 4 * PRICE_SCALE), Side::Buy, "").0;
    assert_eq!(find(&trailing, 6262).as_deref(), Some("4"));
    assert_eq!(find(&trailing, 6260).as_deref(), Some("3"));
    assert_eq!(find(&trailing, 6269).as_deref(), Some("100"));
}

fn placed(context: &mut Context, known: &Known, kind: OrderKind, attrs: OrderAttrs) -> Vec<(u32, String)> {
    send_order_ex(context, known, "DU1", 11, 0, Side::Buy, QTY_SCALE / 2, kind, b'0', attrs, NOW)
}

#[test]
fn a_new_order_states_its_contract_its_originator_and_its_routing() {
    let mut context = Context::new();
    context.slots.push(slot(Some(17), "STK", None));
    let mut known = Known::new();
    known.currencies.insert(17, "EUR".to_string());
    let fields = placed(&mut context, &known, OrderKind::Market, OrderAttrs::default());
    assert_eq!(
        pairs(&fields),
        vec![
            (35, "D"),
            (52, NOW),
            (11, "11.0"),
            (1, "DU1"),
            (55, "ABC"),
            (54, "1"),
            (38, "0.5"),
            (40, "1"),
            (59, "0"),
            (60, NOW),
            (167, "STK"),
            (6008, "17"),
            (6088, "Socket"),
            (204, "0"),
            (6122, "c"),
            (6211, ""),
            (100, "SMART"),
            (6210, "SMART"),
            (15, "EUR"),
        ],
    );
    assert_eq!(context.order(11).unwrap().qty, QTY_SCALE / 2);
    assert_eq!(context.order_destination.get(&11).unwrap().1, "SMART");
    assert_eq!(context.record(11).unwrap().kind, OrderKind::Market);
}

#[test]
fn a_table_of_levels_drops_the_restart_and_goes_last() {
    let mut context = Context::new();
    context.slots.push(slot(None, "STK", None));
    let attrs = OrderAttrs {
        scale: Some(Arc::new(ScaleAttrs {
            auto_reset: true,
            table: Some(vec![
                ("100".to_string(), "10.5".to_string()),
                ("200".to_string(), "10.0".to_string()),
            ]),
            ..ScaleAttrs::default()
        })),
        ..OrderAttrs::default()
    };
    let fields = placed(&mut context, &Known::new(), OrderKind::Market, attrs);
    assert_eq!(find(&fields, 6461), None);
    assert_eq!(
        pairs(&fields[fields.len() - 5..]),
        vec![(6450, "2"), (6447, "10.5"), (6448, "100"), (6447, "10.0"), (6448, "200")],
    );
}

#[test]
fn a_hedged_limit_order_may_be_priced_at_its_parents_trade() {
    let hedged = |hedge_type, dont_use_auto_price_for_hedge| OrderAttrs {
        hedge_type,
        dont_use_auto_price_for_hedge,
        ..OrderAttrs::default()
    };
    let said = |features: &[&str], kind: OrderKind, attrs: OrderAttrs| {
        let mut context = Context::new();
        context.slots.push(slot(None, "STK", None));
        let mut known = Known::new();
        known.features = features.iter().map(|f| f.to_string()).collect();
        find(&placed(&mut context, &known, kind, attrs), 8262)
    };
    let limit = || OrderKind::Limit { price: 1 };
    assert_eq!(said(&["HDGLMT"], limit(), hedged(3, false)).as_deref(), Some("1"));
    assert_eq!(said(&["HDGLMT"], limit(), hedged(4, false)).as_deref(), Some("1"));
    assert_eq!(said(&["HDGLMT"], limit(), hedged(3, true)), None);
    assert_eq!(said(&["HDGLMT"], limit(), hedged(1, false)), None);
    assert_eq!(said(&["HDGLMT"], OrderKind::Market, hedged(3, false)), None);
    assert_eq!(said(&["TRAILSENDT"], limit(), hedged(3, false)), None);
}

#[test]
fn a_child_names_its_parent_as_the_venue_holds_it() {
    let mut context = Context::new();
    let child = OrderAttrs { parent_id: 10, ..OrderAttrs::default() };
    assert_eq!(parent_clord(&context, &OrderAttrs::default()), None);
    assert_eq!(parent_clord(&context, &child).as_deref(), Some("10.0"));
    context.modify_versions.insert(10, 3);
    assert_eq!(parent_clord(&context, &child).as_deref(), Some("10.3"));
    context.last_clord.insert(10, "10".to_string());
    assert_eq!(parent_clord(&context, &child).as_deref(), Some("10"));
}

fn identified(sec_type: &str, id: OrderIdentity) -> Vec<(u32, String)> {
    let mut context = Context::new();
    context.slots.push(slot(Some(17), sec_type, Some(id)));
    let mut fields = Vec::new();
    push_contract_identity(&mut fields, &context, 0, None);
    fields
}

#[test]
fn an_option_states_its_strike_its_right_and_its_class() {
    assert_eq!(
        pairs(&identified("OPT", identity("20261218", "150", StrikeReads::Above, "call"))),
        vec![
            (6008, "17"),
            (541, "20261218"),
            (6058, "ABCW"),
            (6035, "ABC LOCAL"),
            (202, "150"),
            (201, "1"),
            (231, "100"),
        ],
    );
    let odd = identified("OPT", identity("soon", "x", StrikeReads::Unreadable, "neither"));
    assert_eq!(
        pairs(&odd),
        vec![(6008, "17"), (6058, "ABCW"), (6035, "ABC LOCAL"), (231, "100")],
    );
    let put = identified("OPT", identity("", "0", StrikeReads::NotAbove, "0"));
    assert_eq!(find(&put, 201).as_deref(), Some("0"));
    assert_eq!(find(&put, 202), None);
}

#[test]
fn a_future_states_its_month_and_is_named_by_its_local_symbol() {
    assert_eq!(
        pairs(&identified("FUT", identity("202612", "", StrikeReads::Unreadable, ""))),
        vec![(6008, "17"), (200, "202612"), (48, "ABC LOCAL"), (22, "101"), (231, "100")],
    );
    assert_eq!(
        pairs(&identified("BOND", identity("20301231", "", StrikeReads::Unreadable, ""))),
        vec![(6008, "17"), (48, "ABC LOCAL"), (22, "101"), (231, "100")],
        "a bond states no maturity",
    );
    assert_eq!(maturity_tag("202612"), Some(200));
    assert_eq!(maturity_tag("20261218"), Some(541));
    assert_eq!(maturity_tag("2026-12"), None);
    assert_eq!(maturity_tag(""), None);
}

#[test]
fn a_currency_is_the_callers_then_the_venues_then_none() {
    let mut context = Context::new();
    context.slots.push(slot(Some(17), "STK", None));
    let mut known = Known::new();
    assert_eq!(currency_for(&context, &known, 0), "");
    known.currencies.insert(17, "EUR".to_string());
    assert_eq!(currency_for(&context, &known, 0), "EUR");
    context.slots[0].currency = Some("GBP".to_string());
    assert_eq!(currency_for(&context, &known, 0), "GBP");
    assert_eq!(currency_for(&context, &known, 9), "", "a slot that is not held");
}

#[test]
fn a_slot_that_went_to_another_contract_refuses_the_order() {
    let mut context = Context::new();
    context.slots.push(slot(Some(17), "STK", None));
    context.slots.push(slot(None, "STK", None));
    assert_eq!(the_slot_is_not_that_contract(&context, 0, 17), None);
    assert_eq!(the_slot_is_not_that_contract(&context, 0, 0), None, "nothing to check");
    assert_eq!(the_slot_is_not_that_contract(&context, 1, 9), None, "not named yet");
    assert_eq!(
        the_slot_is_not_that_contract(&context, 0, 9).as_deref(),
        Some(
            "this order names contract 9 and the place it was given now holds 17, so it was not \
             sent: ask for the contract again and place it afresh"
        ),
    );
}

#[test]
fn a_figure_nothing_was_stated_for_is_written_as_the_greatest() {
    assert_eq!(Figure::unset().text, format!("{:.6}", f64::MAX));
    assert_eq!(Figure::nought().text, format!("{:.6}", 0.0));
}
