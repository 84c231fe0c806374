//! Orders of an attached family: what goes on the wire about them.

use ibkr_dx::engine::context::{Context, OrderIdentity, Slot, StrikeReads};
use ibkr_dx::engine::known::{AttachedOrderMetadata, Known};
use ibkr_dx::engine::order_builder::cancel::send_cancel;
use ibkr_dx::engine::order_builder::drain::{
    begin_drain, drain_and_send_orders, finish_drain, settle, DrainStep,
};
use ibkr_dx::engine::order_builder::merge::merge_statement;
use ibkr_dx::engine::order_builder::shape::tracked_shape;
use ibkr_dx::engine::order_builder::submit::send_order_ex;
use ibkr_dx::text::{PRICE_SCALE, QTY_SCALE};
use ibkr_dx::types::attrs::{
    AttachedAttrs, AttachedComboFrame, ComboLegSpec, DeltaNeutralContractSpec, Figure, OrderAttrs,
    ScaleAttrs, Standing,
};
use ibkr_dx::types::kinds::{AttachedPrice, OrderKind, Side};
use ibkr_dx::types::orders::{
    Order, OrderCancel, OrderRequest, OrderSpec, OrderStatus, ORD_LIT, ORD_PEG_MID, ORD_PEG_MKT,
    ORD_SNAP_MID, ORD_SNAP_MKT, ORD_SNAP_PRI, ORD_STP_PRT, ORD_TRAIL_LIMIT,
};
use std::sync::Arc;

const NOW: &str = "20260926-08:43:00";

/// A price an attached child states, under its tag.
fn price(tag: u32, text: &str) -> AttachedPrice {
    let scaled = text.parse::<f64>().map_or(0, |p| (p * PRICE_SCALE as f64).round() as i64);
    AttachedPrice { tag, text: text.to_string(), scaled }
}

fn prices(stated: &[(u32, &str)]) -> Arc<Vec<AttachedPrice>> {
    Arc::new(stated.iter().map(|(tag, text)| price(*tag, text)).collect())
}

/// A figure above nought.
fn figure(value: f64) -> Figure {
    Figure { standing: Standing::Above, text: format!("{value:.6}") }
}

fn slot(con_id: i64, sec_type: &str, identity: Option<OrderIdentity>) -> Slot {
    Slot {
        con_id: Some(con_id),
        symbol: "ABC".to_string(),
        sec_type: sec_type.to_string(),
        destination: "SMART".to_string(),
        identity,
        currency: None,
    }
}

fn sent(
    kind: OrderKind,
    attrs: OrderAttrs,
    tif: u8,
    parent_revision: Option<&str>,
) -> Vec<(u32, String)> {
    let mut context = Context::new();
    context.slots.push(slot(17, "STK", None));
    if let Some(revision) = parent_revision {
        context.last_clord.insert(10, revision.to_string());
    }
    send_order_ex(
        &mut context,
        &Known::new(),
        "DU1",
        11,
        0,
        Side::Sell,
        100 * QTY_SCALE,
        kind,
        tif,
        attrs,
        NOW,
    )
}

/// Everything that waits in a session goes out: the messages it went out as.
fn drained(context: &mut Context, known: &Known) -> Vec<Vec<(u32, String)>> {
    let mut messages = Vec::new();
    let mut notices = Vec::new();
    let mut drain = begin_drain(context, false, true, usize::MAX).expect("the session is up");
    loop {
        match drain_and_send_orders(
            &mut drain, context, known, &mut notices, "DU1", false, false, NOW, 1,
        ) {
            DrainStep::Finished => break,
            DrainStep::HeldBack | DrainStep::Taken => {}
            DrainStep::Send { message, flight } => {
                messages.push(message);
                settle(&mut drain, context, known, &mut notices, flight, true, 1);
            }
        }
    }
    finish_drain(drain, context);
    messages
}

fn field(fields: &[(u32, String)], tag: u32) -> Option<&str> {
    fields.iter().find(|(key, _)| *key == tag).map(|(_, value)| value.as_str())
}

fn count(fields: &[(u32, String)], tag: u32) -> usize {
    fields.iter().filter(|(key, _)| *key == tag).count()
}

#[test]
fn attached_metadata_survives_repricing_and_explicit_profit_zero_replaces_it() {
    let mut resting = OrderSpec {
        kind: OrderKind::Market,
        attrs: OrderAttrs {
            attached: Some(Arc::new(AttachedAttrs {
                api_identity: Some((0, 23)),
                contract_id: Some(91),
                ratio_factor: Some("2.00".to_string()),
                family_key: "7/1/-9934747".to_string(),
                parent: "10.7".to_string(),
                use_parent_price: true,
                profit_offset: Some("2.50".to_string()),
                combo: None,
            })),
            ..OrderAttrs::default()
        },
    };
    let held = resting.attrs.attached.clone();
    let statement = |attrs| OrderSpec { kind: OrderKind::Limit { price: 100 }, attrs };
    merge_statement(&mut resting, statement(OrderAttrs::default()));
    assert_eq!(resting.attrs.attached, held);
    let zero = OrderAttrs {
        attached: Some(Arc::new(AttachedAttrs {
            profit_offset: Some("0.00".to_string()),
            ..AttachedAttrs::default()
        })),
        ..OrderAttrs::default()
    };
    merge_statement(&mut resting, statement(zero));
    let attached = resting.attrs.attached.as_ref().unwrap();
    assert_eq!(attached.profit_offset.as_deref(), Some("0.00"));
    assert_eq!(attached.family_key, "7/1/-9934747", "and the rest of it stands");
}

#[test]
fn a_resolved_combination_id_survives_submission_replacement_and_cancellation() {
    let mut context = Context::new();
    let known = Known::new();
    context.slots.push(slot(
        0,
        "BAG",
        Some(OrderIdentity {
            expiry: String::new(),
            strike: String::new(),
            strike_reads: StrikeReads::Unreadable,
            right: String::new(),
            multiplier: "100".to_string(),
            trading_class: String::new(),
            local_symbol: String::new(),
            currency: String::new(),
        }),
    ));
    let legs = Arc::new(vec![ComboLegSpec { con_id: 18, ..ComboLegSpec::default() }]);
    let attrs = OrderAttrs {
        attached: Some(Arc::new(AttachedAttrs {
            contract_id: Some(91),
            ratio_factor: Some("2.00".to_string()),
            combo: Some(Arc::new(AttachedComboFrame {
                multiplier: Some("50.00".to_string()),
                price_mode: 1,
                combo_type: 2,
                ..AttachedComboFrame::default()
            })),
            ..AttachedAttrs::default()
        })),
        combo_legs: legs.clone(),
        ..OrderAttrs::default()
    };
    let submitted = send_order_ex(
        &mut context,
        &known,
        "DU1",
        11,
        0,
        Side::Buy,
        QTY_SCALE,
        OrderKind::Limit { price: 100 },
        b'0',
        attrs,
        NOW,
    );
    assert_eq!(field(&submitted, 6008), Some("91"));
    assert_eq!(field(&submitted, 6724), Some("2.00"));
    assert_eq!(field(&submitted, 231), Some("50.00"));
    assert_eq!(count(&submitted, 231), 1);
    assert_eq!(field(&submitted, 6175), Some("2"));
    assert_eq!(field(&submitted, 6134), Some("2"));
    assert_eq!(field(&submitted, 6080), Some("18"));
    assert_eq!(count(&submitted, 6008), 1);
    assert_eq!(context.con_id_of(0), Some(0));
    context.pending_orders.push(OrderRequest::Modify {
        order_id: 11,
        price: 101,
        qty: QTY_SCALE,
        outside_rth: false,
        ord_type: b'2',
        tif: b'0',
        stop_price: 0,
        spec: Some(Box::new(OrderSpec {
            kind: OrderKind::Limit { price: 101 },
            attrs: OrderAttrs { combo_legs: legs, ..OrderAttrs::default() },
        })),
    });
    let messages = drained(&mut context, &known);
    assert_eq!(messages.len(), 1);
    let replaced = &messages[0];
    assert_eq!(field(replaced, 35), Some("G"));
    assert_eq!(field(replaced, 6008), Some("91"));
    assert_eq!(field(replaced, 6724), Some("2.00"));
    assert_eq!(field(replaced, 231), Some("50.00"));
    assert_eq!(field(replaced, 6175), Some("2"));
    assert_eq!(field(replaced, 6134), Some("2"));
    let cancelled = send_cancel(&mut context, &known, "DU1", 11, &OrderCancel::default(), NOW);
    assert_eq!(field(&cancelled, 35), Some("F"));
    assert_eq!(field(&cancelled, 6008), Some("91"));
}

#[test]
fn resolved_combination_terms_control_destinations_and_underlying_prices() {
    for (stated, separate, mode) in [(false, false, 0), (true, true, 1)] {
        let attrs = OrderAttrs {
            attached: Some(Arc::new(AttachedAttrs {
                combo: Some(Arc::new(AttachedComboFrame {
                    multiplier: None,
                    price_mode: mode,
                    combo_type: 11,
                    include_leg_exchanges: stated,
                    market_data_generic: false,
                    separate_delta_neutral: separate,
                    delta_neutral_contract: Some(Arc::new(DeltaNeutralContractSpec {
                        con_id: 31,
                        delta: figure(0.5),
                        price: figure(12.5),
                    })),
                })),
                ..AttachedAttrs::default()
            })),
            delta_neutral_contract: Some(Arc::new(DeltaNeutralContractSpec {
                con_id: 31,
                delta: figure(0.5),
                price: figure(1250.0),
            })),
            combo_legs: Arc::new(vec![
                ComboLegSpec {
                    con_id: 18,
                    ratio: 1,
                    exchange: "ARCA".to_string(),
                    ..ComboLegSpec::default()
                },
                ComboLegSpec {
                    con_id: 19,
                    ratio: 2,
                    exchange: "SMART".to_string(),
                    ..ComboLegSpec::default()
                },
            ]),
            ..OrderAttrs::default()
        };
        let fields = sent(OrderKind::Market, attrs, b'0', None);
        let exchanges: Vec<_> =
            fields.iter().filter(|(tag, _)| *tag == 616).map(|(_, value)| value.as_str()).collect();
        assert_eq!(exchanges, if stated { vec!["ARCA", "SMART"] } else { vec![] });
        assert_eq!(field(&fields, 231), None);
        assert_eq!(field(&fields, 6175), Some(if mode == 0 { "0" } else { "2" }));
        assert_eq!(field(&fields, 6134), Some("11"));
        assert_eq!(field(&fields, 6147), if separate { Some("1") } else { None });
        assert_eq!(field(&fields, 6150), Some("31"));
        assert_eq!(field(&fields, 6148), Some("0.500000"));
        assert_eq!(field(&fields, 6149), Some("12.500000"));
        for tag in [6150, 6148, 6149] {
            assert_eq!(count(&fields, tag), 1);
        }
    }
}

#[test]
fn a_recovered_child_keeps_attachment_metadata_on_its_next_replace() {
    let mut context = Context::new();
    context.slots.push(slot(17, "", None));
    context.insert_order(Order {
        order_id: 11,
        instrument: 0,
        side: Side::Sell,
        price: 100 * PRICE_SCALE,
        qty: QTY_SCALE,
        filled: 0,
        status: OrderStatus::Submitted,
        ord_type: b'2',
        tif: b'0',
        stop_price: 0,
    });
    context.last_clord.insert(11, "11.0".to_string());
    let mut known = Known::new();
    known.attached.insert(
        11,
        AttachedOrderMetadata {
            family_key: "7/1/-9934747".to_string(),
            parent: "10.7".to_string(),
            use_parent_price: true,
            profit_offset: Some("2.50".to_string()),
            api_order_id: Some(0),
            api_client_id: Some(23),
        },
    );
    context.pending_orders.push(OrderRequest::Modify {
        order_id: 11,
        price: 101 * PRICE_SCALE,
        qty: QTY_SCALE,
        outside_rth: false,
        ord_type: b'2',
        tif: b'0',
        stop_price: 0,
        spec: Some(Box::new(OrderSpec {
            kind: OrderKind::Limit { price: 101 * PRICE_SCALE },
            attrs: OrderAttrs::default(),
        })),
    });
    let messages = drained(&mut context, &known);
    assert_eq!(messages.len(), 1);
    let fields = &messages[0];
    for (tag, value) in
        [(35, "G"), (6531, "7/1/-9934747"), (6107, "10.7"), (6704, "1"), (6446, "2.50")]
    {
        assert_eq!(field(fields, tag), Some(value), "field {tag}");
    }
    assert_eq!(field(fields, 6121), None);
    assert_eq!(field(fields, 6119), None);
}

#[test]
fn attached_trailing_limit_carries_absolute_limit_and_all_adjustments() {
    let stated = [
        (44, "98.5"),
        (99, "2.5"),
        (211, "2.5"),
        (6268, "100"),
        (6117, "99"),
        (6257, "1"),
        (6261, "TSL"),
        (6258, "105"),
        (6259, "101"),
        (6262, "100.5"),
        (6260, "1"),
        (6269, "0"),
    ];
    let fields = sent(
        OrderKind::Attached {
            ord_type: "TSL".to_string(),
            exec_inst: String::new(),
            prices: prices(&stated),
        },
        OrderAttrs::default(),
        b'1',
        None,
    );
    assert_eq!(field(&fields, 40), Some("TSL"));
    for (tag, value) in stated {
        assert_eq!(field(&fields, tag), Some(value), "field {tag}");
    }
    assert_eq!(field(&fields, 6370), None);
    assert_eq!(field(&fields, 18), None);
}

#[test]
fn attached_parent_price_and_family_metadata_are_stated_once() {
    let attrs = OrderAttrs {
        attached: Some(Arc::new(AttachedAttrs {
            api_identity: Some((0, 23)),
            family_key: "7/1/-9934747".to_string(),
            use_parent_price: true,
            profit_offset: Some("0.00".to_string()),
            ..AttachedAttrs::default()
        })),
        parent_id: 10,
        oca_group_str: "10".to_string(),
        oca_type: 3,
        scale: Some(Arc::new(ScaleAttrs {
            profit_offset: 20 * PRICE_SCALE,
            ..ScaleAttrs::default()
        })),
        ..OrderAttrs::default()
    };
    let fields = sent(
        OrderKind::Attached {
            ord_type: "3".to_string(),
            exec_inst: String::new(),
            prices: prices(&[(99, "99")]),
        },
        attrs,
        b'?',
        Some("10.7"),
    );
    for (tag, value) in [
        (6121, "0"),
        (6119, "23"),
        (6107, "10.7"),
        (6531, "7/1/-9934747"),
        (6704, "1"),
        (6446, "0.00"),
        (583, "10"),
        (6209, "ReduceOnFillNonBlock"),
        (59, "?"),
    ] {
        assert_eq!(field(&fields, tag), Some(value));
        assert_eq!(count(&fields, tag), 1);
    }
}

#[test]
fn attached_relative_and_trailing_instructions_are_separate_from_the_order_type() {
    for (kind, instruction) in [("P", "R"), ("P", "a"), ("T", "")] {
        let fields = sent(
            OrderKind::Attached {
                ord_type: kind.to_string(),
                exec_inst: instruction.to_string(),
                prices: prices(&[(211, "1")]),
            },
            OrderAttrs::default(),
            b'0',
            None,
        );
        assert_eq!(field(&fields, 40), Some(kind));
        let stated = if instruction.is_empty() { None } else { Some(instruction) };
        assert_eq!(field(&fields, 18), stated);
    }
}

#[test]
fn an_attached_child_is_tracked_under_the_type_it_is_sent_as() {
    for (sent, exec_inst, held) in [
        ("LT", "", ORD_LIT),
        ("SP", "", ORD_STP_PRT),
        ("SMKT", "", ORD_SNAP_MKT),
        ("SMID", "", ORD_SNAP_MID),
        ("SREL", "", ORD_SNAP_PRI),
        ("P", "P", ORD_PEG_MKT),
        ("P", "M", ORD_PEG_MID),
        ("TSL", "", ORD_TRAIL_LIMIT),
        ("3", "", b'3'),
    ] {
        let kind = OrderKind::Attached {
            ord_type: sent.to_string(),
            exec_inst: exec_inst.to_string(),
            prices: prices(&[(44, "10.5"), (99, "9")]),
        };
        assert_eq!(
            tracked_shape(&kind),
            (held, 21 * PRICE_SCALE / 2, 9 * PRICE_SCALE),
            "{sent} {exec_inst}"
        );
    }
}

#[test]
fn a_child_names_its_parent_by_the_parents_current_revision() {
    for (revision, named) in [(Some("10.3"), "10.3"), (Some("10"), "10"), (None, "10.0")] {
        let attrs = OrderAttrs { parent_id: 10, ..OrderAttrs::default() };
        let fields = sent(OrderKind::Limit { price: 100 }, attrs, b'0', revision);
        assert_eq!(field(&fields, 6107), Some(named), "{revision:?}");
    }
    let fields = sent(OrderKind::Limit { price: 100 }, OrderAttrs::default(), b'0', Some("10.3"));
    assert_eq!(field(&fields, 6107), None);
}
