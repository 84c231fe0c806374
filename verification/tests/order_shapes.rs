//! The shapes of orders, their algorithms and their conditions, as messages
//! state them.

use ibkr_dx::engine::order_builder::algos::{build_algo_tags, push_algo};
use ibkr_dx::engine::order_builder::conditions::{build_condition_strings, push_conditions};
use ibkr_dx::engine::order_builder::fields::{drop_stated, drop_tag, extend, find, holds, rename};
use ibkr_dx::engine::order_builder::shape::{
    exec_inst_for, fix_side, is_trigger_only, oca_type_str, origin_code, push_type_and_prices,
    replace_needs_the_placed_record, restate_with, states_a_limit_price, tracked_shape,
};
use ibkr_dx::text::PRICE_SCALE;
use ibkr_dx::types::attrs::{OrderAttrs, OrderCondition};
use ibkr_dx::types::kinds::{
    AdaptivePriority, AdjustedOrderType, AlgoParams, OrderKind, RiskAversion, Side,
};
use ibkr_dx::types::orders::{
    byte_as_text, ord_type_fix_str, ord_type_from_fix, ORD_LIT, ORD_MIDPX, ORD_PASSV_REL,
    ORD_PEG_BENCH, ORD_PEG_BEST, ORD_PEG_MID, ORD_PEG_MKT, ORD_SNAP_MKT, ORD_STP_PRT,
    ORD_TRAIL_LIMIT,
};
use std::sync::Arc;

fn dollars(n: i64) -> i64 {
    n * PRICE_SCALE
}

fn shaped(kind: &OrderKind, trail_as_t: bool) -> Vec<(u32, String)> {
    let mut fields = Vec::new();
    push_type_and_prices(&mut fields, kind, trail_as_t);
    fields
}

fn pairs(fields: &[(u32, String)]) -> Vec<(u32, &str)> {
    fields.iter().map(|(tag, text)| (*tag, text.as_str())).collect()
}

fn peg_bench(is_peg_decrease: bool) -> OrderKind {
    OrderKind::PegBench {
        price: dollars(9),
        ref_con_id: 756733,
        is_peg_decrease,
        pegged_change_amount: dollars(1) / 4,
        ref_change_amount: dollars(1) / 2,
        starting_price: dollars(100),
        stock_ref_price: dollars(50),
        ref_exchange: "ISLAND".to_string(),
    }
}

#[test]
fn a_plain_shape_states_its_type_and_its_prices() {
    assert_eq!(pairs(&shaped(&OrderKind::Market, false)), vec![(40, "1")]);
    assert_eq!(
        pairs(&shaped(&OrderKind::Limit { price: dollars(101) + dollars(1) / 4 }, false)),
        vec![(40, "2"), (44, "101.25")],
    );
    assert_eq!(
        pairs(&shaped(&OrderKind::Stop { stop_price: dollars(7) }, false)),
        vec![(40, "3"), (99, "7")],
    );
    assert_eq!(
        pairs(&shaped(
            &OrderKind::StopLimit { price: dollars(8), stop_price: dollars(7) },
            false
        )),
        vec![(40, "4"), (44, "8"), (99, "7")],
    );
    assert_eq!(
        pairs(&shaped(&OrderKind::Lit { price: dollars(8), stop_price: dollars(7) }, false)),
        vec![(40, "LT"), (44, "8"), (99, "7")],
    );
    assert_eq!(
        pairs(&shaped(&OrderKind::StpPrt { stop_price: dollars(7) }, false)),
        vec![(40, "SP"), (99, "7")],
    );
    assert_eq!(
        pairs(&shaped(&OrderKind::Mit { stop_price: dollars(7) }, false)),
        vec![(40, "J"), (99, "7")],
    );
    assert_eq!(
        pairs(&shaped(&OrderKind::Loc { price: dollars(7) }, false)),
        vec![(40, "B"), (44, "7")],
    );
    assert_eq!(pairs(&shaped(&OrderKind::Moc, false)), vec![(40, "5")]);
    assert_eq!(pairs(&shaped(&OrderKind::Mtl, false)), vec![(40, "K")]);
    assert_eq!(pairs(&shaped(&OrderKind::MktPrt, false)), vec![(40, "U")]);
    assert_eq!(
        pairs(&shaped(&OrderKind::MidPrice { price_cap: dollars(3) }, false)),
        vec![(40, "MIDPX")],
        "the cap comes after everything else the order states",
    );
    assert_eq!(
        pairs(&shaped(&OrderKind::PegBest { price: dollars(3) }, false)),
        vec![(40, "E2M"), (44, "3")],
    );
}

#[test]
fn a_trail_states_its_amount_twice_and_the_unit_it_is_in() {
    let trail = OrderKind::TrailingStop { trail_amt: dollars(5), trail_stop_price: None };
    assert_eq!(
        pairs(&shaped(&trail, false)),
        vec![(40, "P"), (99, "5"), (211, "5"), (6268, "0")],
    );
    assert_eq!(
        pairs(&shaped(&trail, true)),
        vec![(40, "T"), (99, "5"), (211, "5"), (6268, "0")],
    );
    let limited = OrderKind::TrailingStopLimit {
        lmt_offset: dollars(1),
        trail_amt: dollars(5),
        trail_stop_price: Some(0),
    };
    assert_eq!(
        pairs(&shaped(&limited, true)),
        vec![(40, "TSL"), (99, "5"), (6370, "1"), (211, "5"), (6268, "0")],
    );
}

#[test]
fn a_percentage_trail_states_the_percent_and_not_its_basis_points() {
    let trail = |trail_pct| OrderKind::TrailPct { trail_pct, trail_stop_price: None };
    assert_eq!(
        pairs(&shaped(&trail(100), false)),
        vec![(40, "P"), (99, "1.00"), (211, "1.00"), (6268, "100")],
    );
    assert_eq!(
        pairs(&shaped(&trail(250), true)),
        vec![(40, "T"), (99, "2.50"), (211, "2.50"), (6268, "100")],
    );
    assert_eq!(
        pairs(&shaped(&trail(5), false)),
        vec![(40, "P"), (99, "0.05"), (211, "0.05"), (6268, "100")],
    );
}

#[test]
fn a_decrease_of_a_benchmark_peg_is_a_negative_change() {
    assert_eq!(
        pairs(&shaped(&peg_bench(true), false)),
        vec![
            (40, "PB"),
            (6941, "756733"),
            (6938, "-0.25"),
            (6939, "0.5"),
            (6942, "ISLAND"),
            (6580, "50"),
            (99, "100"),
        ],
    );
    assert_eq!(find(&shaped(&peg_bench(false), false), 6938).as_deref(), Some("0.25"));
}

#[test]
fn a_relative_order_states_a_cap_only_where_it_has_one() {
    let rel = |price_cap| OrderKind::Rel { offset: dollars(1) / 10, price_cap };
    assert_eq!(pairs(&shaped(&rel(0), false)), vec![(40, "P"), (211, "0.1")]);
    assert_eq!(
        pairs(&shaped(&rel(dollars(9)), false)),
        vec![(40, "P"), (211, "0.1"), (44, "9")],
    );
    assert_eq!(
        pairs(&shaped(&OrderKind::SnapMkt { offset: 0 }, false)),
        vec![(40, "SMKT"), (211, "0")],
        "a snap states its offset even where it is nought",
    );
    assert_eq!(
        pairs(&shaped(&OrderKind::PassiveRel { offset: 1, price_cap: 1 }, false)),
        vec![(40, "PSVR")],
    );
    assert_eq!(
        pairs(&shaped(&OrderKind::PegMid { offset: 1, price_cap: 1 }, false)),
        vec![(40, "P")],
    );
}

#[test]
fn the_instruction_tells_apart_what_shares_a_name() {
    let said = |kind: OrderKind, as_t| exec_inst_for(&kind, as_t);
    let trail = OrderKind::TrailingStop { trail_amt: 1, trail_stop_price: None };
    assert_eq!(exec_inst_for(&trail, false), "a");
    assert_eq!(exec_inst_for(&trail, true), "", "the name says it");
    assert_eq!(said(OrderKind::TrailPct { trail_pct: 1, trail_stop_price: None }, false), "a");
    assert_eq!(said(OrderKind::PegMkt { offset: 0, price_cap: 0 }, false), "P");
    assert_eq!(said(OrderKind::PegMid { offset: 0, price_cap: 0 }, false), "M");
    assert_eq!(said(OrderKind::Rel { offset: 0, price_cap: 0 }, false), "R");
    assert_eq!(said(OrderKind::Limit { price: 0 }, false), "");
    let attached = OrderKind::Attached {
        ord_type: "P".to_string(),
        exec_inst: "M".to_string(),
        prices: Arc::new(Vec::new()),
    };
    assert_eq!(said(attached, true), "M");
}

#[test]
fn codes_for_sides_groups_and_originators() {
    assert_eq!(fix_side(Side::Buy), "1");
    assert_eq!(fix_side(Side::Sell), "2");
    assert_eq!(fix_side(Side::ShortSell), "5");
    assert_eq!(oca_type_str(1), "CancelOnFillWBlock");
    assert_eq!(oca_type_str(2), "ReduceOnFillWBlock");
    assert_eq!(oca_type_str(4), "ReduceOnFillWBlockFromTotal");
    for other in [0, 3, 5, 255] {
        assert_eq!(oca_type_str(other), "ReduceOnFillNonBlock");
    }
    let named = [(0, "c"), (1, "f"), (2, "b"), (3, "m"), (4, "n"), (5, "y"), (8, "v"), (-1, "p"), (9, "j")];
    for (origin, code) in named {
        assert_eq!(origin_code(origin), code);
    }
    for other in [6, 7, 10, -2, i32::MAX, i32::MIN] {
        assert_eq!(origin_code(other), "?");
    }
}

#[test]
fn which_types_are_a_trigger_and_which_state_a_limit() {
    let types: Vec<u8> = (0..=255).collect();
    let triggers: Vec<u8> = types.iter().copied().filter(|t| is_trigger_only(*t)).collect();
    assert_eq!(triggers, vec![b'3', b'J', ORD_STP_PRT]);
    let limits: Vec<u8> = types.iter().copied().filter(|t| states_a_limit_price(*t)).collect();
    assert_eq!(limits, vec![b'2', b'4', b'B', ORD_LIT, ORD_PEG_BEST]);
    for needs in [b'P', b'T', ORD_TRAIL_LIMIT, ORD_PEG_MKT, ORD_PEG_MID, ORD_PEG_BENCH, ORD_SNAP_MKT] {
        assert!(replace_needs_the_placed_record(needs));
    }
    assert!(replace_needs_the_placed_record(ORD_PASSV_REL));
    assert!(replace_needs_the_placed_record(ORD_PEG_BEST));
    for whole in [b'1', b'2', b'3', b'4', b'5', b'B', b'J', b'K', b'U', ORD_LIT, ORD_STP_PRT, ORD_MIDPX] {
        assert!(!replace_needs_the_placed_record(whole));
    }
}

#[test]
fn a_type_reads_back_as_it_is_named() {
    for ord_type in [ORD_LIT, ORD_STP_PRT, ORD_TRAIL_LIMIT, ORD_PEG_BENCH, ORD_PEG_BEST, ORD_MIDPX, b'2', b'K'] {
        assert_eq!(ord_type_from_fix(&ord_type_fix_str(ord_type), ""), ord_type);
    }
    assert_eq!(ord_type_fix_str(ORD_PEG_MID), "P");
    assert_eq!(ord_type_from_fix("P", "M"), ORD_PEG_MID);
    assert_eq!(ord_type_from_fix("P", "P"), ORD_PEG_MKT);
    assert_eq!(ord_type_from_fix("P", "a"), b'P');
    assert_eq!(ord_type_from_fix("NOSUCH", ""), 0);
    assert_eq!(byte_as_text(b'1'), "1");
    assert_eq!(byte_as_text(200), "0", "a byte that is no character");
}

#[test]
fn a_replacement_writes_what_it_names_into_the_shape() {
    let trail = OrderKind::TrailingStop { trail_amt: dollars(5), trail_stop_price: Some(3) };
    assert_eq!(
        restate_with(&trail, dollars(77), dollars(9)),
        OrderKind::TrailingStop { trail_amt: dollars(9), trail_stop_price: Some(3) },
        "the price is not the trail",
    );
    assert_eq!(restate_with(&trail, dollars(77), 0), trail, "nought states nothing");
    let limited = OrderKind::TrailingStopLimit {
        lmt_offset: 1,
        trail_amt: 2,
        trail_stop_price: None,
    };
    assert_eq!(
        restate_with(&limited, 10, 20),
        OrderKind::TrailingStopLimit { lmt_offset: 10, trail_amt: 20, trail_stop_price: None },
    );
    assert_eq!(
        restate_with(&OrderKind::Rel { offset: 1, price_cap: 2 }, 10, 20),
        OrderKind::Rel { offset: 20, price_cap: 10 },
    );
    assert_eq!(
        restate_with(&OrderKind::PegMid { offset: 1, price_cap: 2 }, 0, 20),
        OrderKind::PegMid { offset: 20, price_cap: 2 },
    );
    assert_eq!(
        restate_with(&OrderKind::MidPrice { price_cap: 2 }, 10, 20),
        OrderKind::MidPrice { price_cap: 10 },
    );
    assert_eq!(
        restate_with(&OrderKind::SnapPri { offset: 2 }, 10, 20),
        OrderKind::SnapPri { offset: 20 },
    );
    assert_eq!(
        restate_with(&OrderKind::Limit { price: 2 }, 10, 20),
        OrderKind::Limit { price: 2 },
        "every other shape stands",
    );
}

#[test]
fn the_shape_an_order_is_held_as() {
    assert_eq!(tracked_shape(&OrderKind::Stop { stop_price: 7 }), (b'3', 7, 7));
    assert_eq!(tracked_shape(&OrderKind::Mit { stop_price: 7 }), (b'J', 7, 7));
    assert_eq!(tracked_shape(&OrderKind::StpPrt { stop_price: 7 }), (ORD_STP_PRT, 0, 7));
    assert_eq!(tracked_shape(&OrderKind::StopLimit { price: 8, stop_price: 7 }), (b'4', 8, 7));
    assert_eq!(tracked_shape(&OrderKind::Rel { offset: 1, price_cap: 2 }), (b'P', 2, 1));
    assert_eq!(
        tracked_shape(&OrderKind::PassiveRel { offset: 1, price_cap: 2 }),
        (ORD_PASSV_REL, 0, 1),
    );
    assert_eq!(tracked_shape(&peg_bench(true)), (ORD_PEG_BENCH, dollars(9), 0));
    assert_eq!(
        tracked_shape(&OrderKind::Adaptive { price: 4, priority: AdaptivePriority::Urgent }),
        (b'2', 4, 0),
    );
    let adjustable = OrderKind::AdjustableStop {
        stop_price: 6,
        trigger_price: 1,
        adjusted_order_type: AdjustedOrderType::Trail,
        adjusted_stop_price: 2,
        adjusted_stop_limit_price: 3,
        adjusted_trailing_amount: 4,
        adjustable_trailing_unit: 0,
    };
    assert_eq!(tracked_shape(&adjustable), (b'3', 0, 6));
    assert_eq!(pairs(&shaped(&adjustable, false)), vec![(40, "3"), (99, "0.00000006")]);
}

fn strings(texts: &[&str]) -> Vec<String> {
    texts.iter().map(|text| text.to_string()).collect()
}

#[test]
fn an_algorithm_states_only_what_its_caller_stated() {
    let vwap = AlgoParams::Vwap {
        max_pct_vol: Some("0.1".to_string()),
        no_take_liq: Some(true),
        allow_past_end_time: None,
        start_time: Some("09:30:00".to_string()),
        end_time: None,
    };
    let (name, params) = build_algo_tags(&vwap);
    assert_eq!(name, "Vwap");
    assert_eq!(params, strings(&["noTakeLiq", "1", "startTime", "09:30:00"]));
    let arrival = AlgoParams::ArrivalPx {
        max_pct_vol: None,
        risk_aversion: Some(RiskAversion::GetDone),
        allow_past_end_time: Some(false),
        force_completion: Some(true),
        start_time: None,
        end_time: Some("16:00:00".to_string()),
    };
    let (name, params) = build_algo_tags(&arrival);
    assert_eq!(name, "ArrivalPx");
    assert_eq!(
        params,
        strings(&[
            "riskAversion", "Get Done", "allowPastEndTime", "0", "forceCompletion", "1", "endTime",
            "16:00:00",
        ]),
    );
    let twap = AlgoParams::Twap { allow_past_end_time: None, start_time: None, end_time: None };
    assert_eq!(build_algo_tags(&twap), ("Twap".to_string(), Vec::new()));
    let dark = AlgoParams::DarkIce {
        allow_past_end_time: None,
        display_size: "100".to_string(),
        start_time: None,
        end_time: None,
    };
    assert_eq!(
        build_algo_tags(&dark),
        ("DarkIce".to_string(), strings(&["displaySize", "100"])),
    );
    let pct = AlgoParams::PctVol {
        pct_vol: Some("0.2".to_string()),
        no_take_liq: Some(false),
        start_time: None,
        end_time: None,
    };
    assert_eq!(
        build_algo_tags(&pct),
        ("PctVol".to_string(), strings(&["noTakeLiq", "0", "pctVol", "0.2"])),
    );
    let close = AlgoParams::ClosePx {
        max_pct_vol: None,
        risk_aversion: Some(RiskAversion::Passive),
        force_completion: None,
        start_time: Some("15:00:00".to_string()),
    };
    assert_eq!(
        build_algo_tags(&close),
        (
            "ClosePx".to_string(),
            strings(&["riskAversion", "Passive", "startTime", "15:00:00"])
        ),
    );
}

#[test]
fn the_share_of_volume_is_stated_once_and_in_its_callers_spelling() {
    let named = |strategy: &str| AlgoParams::Named {
        strategy: strategy.to_string(),
        params: Arc::new(strings(&["startTime", "09:30", "maxPctVol", "5.0", "other", "x"])),
    };
    let mut fields = Vec::new();
    push_algo(&mut fields, &named("Arrival_Price"));
    assert_eq!(
        pairs(&fields),
        vec![
            (847, "Arrival_Price"),
            (849, "5.0"),
            (5957, "2"),
            (5958, "startTime"),
            (5960, "09:30"),
            (5958, "other"),
            (5960, "x"),
        ],
    );
    let mut fields = Vec::new();
    push_algo(&mut fields, &named("Homemade"));
    assert_eq!(find(&fields, 849), None, "a strategy that has no such tag");
    assert_eq!(find(&fields, 5957).as_deref(), Some("3"));
    let mut fields = Vec::new();
    let odd = AlgoParams::Named {
        strategy: "Homemade".to_string(),
        params: Arc::new(strings(&["a", "1", "left over"])),
    };
    push_algo(&mut fields, &odd);
    assert_eq!(
        pairs(&fields),
        vec![(847, "Homemade"), (5957, "1"), (5958, "a"), (5960, "1")],
    );
}

fn price_condition(joins: bool) -> OrderCondition {
    OrderCondition::Price {
        con_id: 265598,
        exchange: "SMART".to_string(),
        price: dollars(150),
        is_more: true,
        trigger_method: 2,
        is_conjunction_connection: joins,
    }
}

#[test]
fn every_condition_states_eleven_slots_after_the_count() {
    let conditions = vec![
        price_condition(false),
        OrderCondition::Time {
            time: "20260926-08:43:00".to_string(),
            is_more: false,
            is_conjunction_connection: true,
        },
        OrderCondition::Execution {
            symbol: "ABC".to_string(),
            exchange: "BEST".to_string(),
            sec_type: "STK".to_string(),
            is_conjunction_connection: true,
        },
    ];
    assert_eq!(
        build_condition_strings(&conditions),
        strings(&[
            "3", "1", "o", ">=", "265598", "SMART", "2", "150", "", "", "", "", "3", "a", "<=", "",
            "", "", "", "20260926-08:43:00", "", "", "", "5", "n", "", "", "", "", "", "", "", "",
            "symbol=ABC;exchange=*;securityType=STK;",
        ]),
    );
    assert_eq!(build_condition_strings(&Vec::new()), strings(&["0"]));
}

#[test]
fn a_margin_a_volume_and_a_percentage_state_their_own_slots() {
    let conditions = vec![
        OrderCondition::Margin { percent: -5, is_more: false, is_conjunction_connection: true },
        OrderCondition::Volume {
            con_id: 7,
            exchange: "NYSE".to_string(),
            volume: 1000,
            is_more: true,
            is_conjunction_connection: true,
        },
        OrderCondition::PercentChange {
            con_id: 8,
            exchange: "NYSE".to_string(),
            percent: "2.5".to_string(),
            is_more: true,
            is_conjunction_connection: true,
        },
    ];
    assert_eq!(
        build_condition_strings(&conditions),
        strings(&[
            "3", "4", "a", "<=", "", "", "", "", "", "-5", "", "", "6", "a", ">=", "7", "NYSE", "",
            "", "", "", "1000", "", "7", "n", ">=", "8", "NYSE", "", "", "", "2.5", "", "",
        ]),
    );
}

#[test]
fn conditions_go_out_in_the_order_of_their_slots() {
    let attrs = OrderAttrs {
        conditions: Arc::new(vec![price_condition(true)]),
        conditions_cancel_order: true,
        conditions_ignore_rth: true,
        ..OrderAttrs::default()
    };
    let mut fields = Vec::new();
    push_conditions(&mut fields, &attrs);
    let tags: Vec<u32> = fields.iter().map(|(tag, _)| *tag).collect();
    assert_eq!(
        tags,
        vec![6136, 6128, 6151, 6222, 6137, 6126, 6123, 6124, 6127, 6125, 6223, 6245, 6263, 6246],
    );
    assert_eq!(find(&fields, 6137).as_deref(), Some("n"), "the last joins nothing");
    let mut none = Vec::new();
    push_conditions(&mut none, &OrderAttrs::default());
    assert!(none.is_empty());
}

#[test]
fn lists_of_fields_are_searched_dropped_from_and_renamed() {
    let list = |tags: &[u32]| -> Vec<(u32, String)> {
        tags.iter().map(|tag| (*tag, format!("v{tag}"))).collect()
    };
    assert_eq!(drop_tag(list(&[1, 2, 1, 3]), 1), list(&[2, 3]));
    assert_eq!(drop_stated(list(&[1, 2, 3, 2]), &list(&[2, 9])), list(&[1, 3]));
    assert!(holds(&list(&[4, 5]), 5) && !holds(&list(&[4, 5]), 6));
    assert_eq!(find(&list(&[4, 5]), 5).as_deref(), Some("v5"));
    let mut fields = list(&[40, 44, 40]);
    rename(&mut fields, 40, "PMID2");
    assert_eq!(pairs(&fields), vec![(40, "PMID2"), (44, "v44"), (40, "PMID2")]);
    extend(&mut fields, list(&[7]));
    assert_eq!(fields.len(), 4);
}
