//! Orders as their callers place them: from the call to the wire.

use ibkr_dx::engine::book::Book;
use ibkr_dx::engine::commands::{
    order_command, Bracket, ControlCommand, Exercise, LookupFilters, Pending, Placement,
};
use ibkr_dx::engine::context::{Context, Slot};
use ibkr_dx::engine::intake::bracket::{check_bracket, take_bracket};
use ibkr_dx::engine::intake::cancels::{
    finish_cancel_by_perm_id, order_under_perm_id, take_cancel, take_cancel_by_perm_id,
    take_global_cancel, ByPermId, Step,
};
use ibkr_dx::engine::intake::exercise::{
    against_the_natural_action, engine_owned, exercise_terms, IN_THE_MONEY, OWN_WATCHES,
};
use ibkr_dx::engine::intake::exercising::{
    begin_exercising, exercise_built, exercise_held, exercise_lookup_made, exercise_numbered,
    exercise_registered, exercise_weighed, figures_seen, name_exercised, watch_opened,
    Stage as ExerciseStage, Turn as ExerciseTurn,
};
use ibkr_dx::engine::intake::framing::Framing;
use ibkr_dx::engine::intake::kept::{family_of, keep, keeps_a_placement, release};
use ibkr_dx::engine::intake::lap::{
    begin_lap, end_lap, next_in_lap, settle, take_order_command, LapStep, Taking,
};
use ibkr_dx::engine::intake::naming::{name_order_contract, Naming, OrderNamed};
use ibkr_dx::engine::intake::one::{take_one, Next};
use ibkr_dx::engine::intake::placing::{
    begin_placing, command_built, contract_settled, group_settled, ids_judged, loading_went,
    lookup_made, name_it, number_given, prepared_with, registered, venues_listed_as, Loading,
    Stage, Turn,
};
use ibkr_dx::engine::intake::refuse::{
    beyond_the_wire, refuse_exercises_watching, refuse_held_order_commands,
};
use ibkr_dx::engine::intake::state::{built_order_commands_held, Intake};
use ibkr_dx::engine::intake::take::{Generated, Prepared, Taken};
use ibkr_dx::engine::known::{Known, Notice, OrderInfo};
use ibkr_dx::engine::order_builder::drain::{
    begin_drain, drain_and_send_orders, finish_drain, settle as settle_flight, DrainStep,
};
use ibkr_dx::error_codes::Refusal;
use ibkr_dx::text::{PRICE_SCALE, QTY_SCALE};
use ibkr_dx::types::attrs::{OrderAttrs, OrderCondition};
use ibkr_dx::types::contract::{Contract, OrderTerms};
use ibkr_dx::types::kinds::{OrderKind, Side};
use ibkr_dx::types::orders::{Order, OrderCancel, OrderOp, OrderRequest, OrderStatus};
use std::sync::Arc;

const NOW: &str = "20260926-08:43:00";

/// A session as its callers see it: what it holds, and what it hears back.
struct Session {
    intake: Intake,
    context: Context,
    book: Book,
    known: Known,
    notices: Vec<Notice>,
    /// What the venue answered lookups with.
    answers: Vec<(u32, OrderNamed)>,
    /// The venues each contract's definition lists.
    definition: Option<Vec<String>>,
    lookups: u32,
    own_watches: i64,
}

impl Session {
    fn new() -> Self {
        let mut book = Book::new();
        book.replay = Some(true);
        book.client_id = 23;
        Session {
            intake: Intake::new(),
            context: Context::new(),
            book,
            known: Known::new(),
            notices: Vec::new(),
            answers: Vec::new(),
            definition: None,
            lookups: 0,
            own_watches: 0,
        }
    }

    fn register(&mut self, contract: &Contract) -> u32 {
        if let Some(at) = self.on_slot(contract.con_id) {
            return at;
        }
        self.context.slots.push(Slot {
            con_id: Some(contract.con_id),
            symbol: contract.symbol.clone(),
            sec_type: contract.sec_type.clone(),
            destination: contract.exchange.clone(),
            identity: None,
            currency: Some(contract.currency.clone()),
        });
        self.context.slots.len() as u32 - 1
    }

    fn on_slot(&self, con_id: i64) -> Option<u32> {
        self.context.slots.iter().position(|s| s.con_id == Some(con_id)).map(|at| at as u32)
    }

    /// Take a placement as far as it goes: whether it waits.
    fn place(&mut self, pending: &mut Pending, attached: Option<Prepared>) -> bool {
        let mut attached = attached;
        let ControlCommand::Place(p) = &mut pending.cmd else { panic!("a placement") };
        let mut stage = begin_placing(&self.intake, &self.book, p, pending.wire_id);
        loop {
            let turn = match stage {
                Stage::Ids { existing, .. } => {
                    ids_judged(&self.book, &mut self.notices, p, existing, Ok(false))
                }
                Stage::Allot { existing } => number_given(
                    &mut self.notices, p, existing, &mut pending.wire_id, Some(p.order_id),
                ),
                Stage::Name { existing, order_id } => name_it(
                    &mut self.intake, &mut self.notices, &mut self.answers, p, &mut pending.lookup,
                    existing, order_id,
                ),
                Stage::Lookup { existing } => {
                    self.lookups += 1;
                    lookup_made(
                        &mut self.intake, &mut self.notices, p, &mut pending.lookup, existing,
                        Some(self.lookups),
                    )
                }
                Stage::Venues { existing, order_id, asked } => venues_listed_as(
                    &mut self.intake, &self.known, &mut self.notices, &mut self.answers, p,
                    &mut pending.lookup, existing, order_id, asked, self.definition.as_ref(),
                ),
                Stage::Load { existing, order_id } => {
                    let qty = p.order.qty;
                    loading_went(
                        &mut self.notices, p, existing, order_id, Loading::Ready { qty },
                    )
                }
                Stage::Contract { existing, order_id, loaded } => contract_settled(
                    &self.intake, &self.book, &mut self.notices, p, existing, order_id, loaded,
                    self.context.slots.iter().position(|s| s.con_id == Some(p.contract.con_id))
                        .map(|at| at as u32),
                    None,
                ),
                Stage::Register { existing, order_id, loaded, con_id } => {
                    let mut contract = p.contract.clone();
                    contract.con_id = con_id;
                    let instrument = match self.context.slots.iter()
                        .position(|s| s.con_id == Some(con_id))
                    {
                        Some(at) => at as u32,
                        None => {
                            self.context.slots.push(Slot {
                                con_id: Some(con_id),
                                symbol: contract.symbol,
                                sec_type: contract.sec_type,
                                destination: contract.exchange,
                                identity: None,
                                currency: Some(contract.currency),
                            });
                            self.context.slots.len() as u32 - 1
                        }
                    };
                    Turn::Ask(registered(existing, order_id, loaded, instrument))
                }
                Stage::Group { existing, order_id, loaded, instrument } => Turn::Ask(group_settled(
                    &self.intake, &self.book, p, existing, order_id, loaded, instrument, None,
                )),
                Stage::Build { existing, order_id, loaded, instrument } => {
                    let built = Ok(submission(&p.order, p.contract.con_id, order_id, instrument));
                    command_built(
                        &self.intake, &self.book, &mut self.notices, p, existing, order_id, loaded,
                        instrument, None, built,
                    )
                }
                Stage::Prepare { existing, order_id, loaded, instrument, command } => {
                    let framing = Framing { contract_id: None, legs: None, combo: None };
                    prepared_with(
                        &mut self.intake, &mut self.notices, &self.book, p, existing, order_id,
                        loaded, instrument, command, Ok(attached.take()), &framing,
                    )
                }
            };
            match turn {
                Turn::Ask(next) => stage = next,
                Turn::Waits => return true,
                Turn::Refused => return false,
                Turn::Took(taken) => {
                    if let Taken::Went(went) = taken {
                        self.context.pending_orders.extend(went.commands);
                    }
                    return false;
                }
            }
        }
    }

    fn placed(&mut self, p: Placement) {
        let mut pending = Pending::new(ControlCommand::Place(Box::new(p)), 0);
        assert!(!self.place(&mut pending, None), "it waits");
    }

    /// Everything that waits goes out: the messages, one text each.
    fn sent(&mut self) -> Vec<String> {
        let mut messages = Vec::new();
        let context = &mut self.context;
        let mut drain = begin_drain(context, false, true, usize::MAX).expect("the session is up");
        loop {
            match drain_and_send_orders(
                &mut drain, context, &self.known, &mut self.notices, "DU1", false, false, NOW, 1,
            ) {
                DrainStep::Finished => break,
                DrainStep::HeldBack | DrainStep::Taken => {}
                DrainStep::Send { message, flight } => {
                    let mut text = String::from("|");
                    for (tag, value) in &message {
                        text.push_str(&format!("{tag}={value}|"));
                    }
                    messages.push(text);
                    settle_flight(
                        &mut drain, context, &self.known, &mut self.notices, flight, true, 1,
                    );
                }
            }
        }
        finish_drain(drain, context);
        messages
    }

    /// What was refused: the number, what it did, the code.
    fn refused(&mut self) -> Vec<(i64, OrderOp, i32)> {
        let said: Vec<Notice> = self.notices.drain(..).collect();
        said.into_iter()
            .filter_map(|notice| match notice {
                Notice::OrderRefused { id, op, code, .. } => Some((id, op, code)),
                _ => None,
            })
            .collect()
    }
}

/// The instruction an order is built as.
fn submission(order: &OrderTerms, con_id: i64, order_id: u64, instrument: u32) -> OrderRequest {
    OrderRequest::SubmitEx {
        order_id,
        instrument,
        con_id,
        side: if order.action == "BUY" { Side::Buy } else { Side::Sell },
        qty: order.qty,
        kind: OrderKind::Limit { price: order.lmt_price },
        tif: b'0',
        attrs: OrderAttrs {
            conditions: order.conditions.clone(),
            conditions_include_overnight: order.conditions_include_overnight,
            parent_id: order.parent_id as u64,
            oca_group_str: order.oca_group.clone(),
            oca_type: order.oca_type as u8,
            ..OrderAttrs::default()
        },
    }
}

fn spy() -> Contract {
    Contract {
        con_id: 756733,
        symbol: "SPY".to_string(),
        sec_type: "STK".to_string(),
        exchange: "SMART".to_string(),
        currency: "USD".to_string(),
        ..Contract::default()
    }
}

fn limit(order_id: u64) -> Placement {
    Placement {
        order_id,
        contract: spy(),
        order: OrderTerms {
            action: "BUY".to_string(),
            order_type: "LMT".to_string(),
            qty: QTY_SCALE,
            lmt_price: 100 * PRICE_SCALE,
            ord_type: b'2',
            tif_byte: b'0',
            replace_price: 100 * PRICE_SCALE,
            ..OrderTerms::default()
        },
        warnings: Vec::new(),
    }
}

fn child(order_id: u64, parent: i64, transmit: bool) -> Placement {
    let mut p = limit(order_id);
    p.order.parent_id = parent;
    p.order.transmit = transmit;
    p
}

#[test]
fn conditions_count_the_overnight_session_only_where_a_gateway_takes_them() {
    let refused = Some(10371);
    for (features, venues, held, conditioned, replaced, expected) in [
        (&[][..], &["SMART", "OVERNIGHT"][..], true, true, false, refused),
        (&["CONDINCOVN"][..], &["SMART", "ARCA"][..], true, true, false, refused),
        (&["CONDINCOVN"][..], &["SMART", "OVERNIGHT"][..], true, true, false, None),
        (&["CONDINCOVN"][..], &["SMART", "IBEOS"][..], true, true, false, None),
        (&["CONDINCOVN"][..], &["SMART", "OVERNIGHT"][..], false, true, false, None),
        (&[][..], &["SMART"][..], true, false, false, None),
        (&[][..], &["SMART", "ARCA"][..], true, true, true, None),
    ] {
        let mut session = Session::new();
        session.known.features = features.iter().map(|f| f.to_string()).collect();
        let definition: Vec<String> = venues.iter().map(|v| v.to_string()).collect();
        if held {
            session.definition = Some(definition.clone());
        }
        let place = |overnight: bool| {
            let mut p = limit(10);
            if conditioned {
                p.order.conditions = Arc::new(vec![OrderCondition::Time {
                    time: "20260925-20:30:00".to_string(),
                    is_more: true,
                    is_conjunction_connection: false,
                }]);
            }
            p.order.conditions_include_overnight = overnight;
            Pending::new(ControlCommand::Place(Box::new(p)), 0)
        };
        let row = (features, venues, held, conditioned, replaced);
        if replaced {
            session.place(&mut place(false), None);
            let wire = session.sent();
            assert!(wire[0].contains("|35=D|"), "{row:?}: working before it is replaced");
        }
        let mut pending = place(true);
        let waits = session.place(&mut pending, None);
        assert_eq!(waits, !held, "{row:?}");
        if waits {
            assert!(session.lookups == 1 && session.sent().is_empty(), "{row:?}: asked for first");
            session.definition = Some(definition);
            session.answers.push((1, OrderNamed::Contract(Box::new(spy()))));
            assert!(!session.place(&mut pending, None), "{row:?}");
        }

        let wire = session.sent().concat();
        let codes: Vec<_> = session.refused().into_iter().map(|(_, _, code)| code).collect();
        assert_eq!(codes, expected.into_iter().collect::<Vec<_>>(), "{row:?}");
        let sent_as = if replaced { "|35=G|" } else { "|35=D|" };
        assert_eq!(wire.contains(sent_as), expected.is_none(), "{row:?}: {wire}");
        assert_eq!(
            wire.contains("|8612=1|"),
            expected.is_none() && conditioned,
            "{row:?}: {wire}"
        );
    }
}

#[test]
fn a_number_used_and_finished_is_refused_and_a_working_one_is_replaced() {
    let mut session = Session::new();
    session.placed(limit(10));
    assert_eq!(session.sent().len(), 1);
    session.placed(limit(10));
    let wire = session.sent();
    assert!(wire[0].contains("|35=G|"), "restated, it is a replace: {wire:?}");

    session.book.finished.push(11);
    session.notices.clear();
    session.placed(limit(11));
    assert_eq!(session.refused(), [(11, OrderOp::Place, 103)]);
    session.placed(limit(0x4000_0000_0000_0000));
    assert_eq!(session.refused(), [(0x4000_0000_0000_0000, OrderOp::Place, 321)]);
}

#[test]
fn a_contract_beyond_the_wire_is_refused() {
    let mut session = Session::new();
    let mut p = limit(10);
    p.contract.con_id = 1 << 32;
    session.placed(p);
    assert_eq!(session.refused(), [(10, OrderOp::Place, 321)]);
    assert!(beyond_the_wire(1 << 32).is_some() && beyond_the_wire(-1).is_some());
    assert!(beyond_the_wire(0).is_none() && beyond_the_wire((1 << 32) - 1).is_none());
}

#[test]
fn a_replacement_naming_another_contract_is_refused() {
    let mut session = Session::new();
    session.placed(limit(10));
    session.sent();
    session.notices.clear();
    let mut p = limit(10);
    p.contract.con_id = 265598;
    p.contract.symbol = "AAPL".to_string();
    session.placed(p);
    assert_eq!(session.refused(), [(10, OrderOp::Modify, 105)]);
}

#[test]
fn a_described_contract_is_named_once_and_its_lookup_shared() {
    let mut session = Session::new();
    let described = |order_id: u64| {
        let mut p = limit(order_id);
        p.contract.con_id = 0;
        p.contract.description = "SPY STK SMART USD".to_string();
        Pending::new(ControlCommand::Place(Box::new(p)), 0)
    };
    let (mut first, mut second) = (described(10), described(11));
    assert!(session.place(&mut first, None) && session.place(&mut second, None));
    assert_eq!(session.lookups, 1, "one lookup is out for both");
    session.answers.push((1, OrderNamed::Contract(Box::new(spy()))));
    assert!(!session.place(&mut first, None) && !session.place(&mut second, None));
    assert_eq!(session.sent().len(), 2);
    assert!(!session.place(&mut described(12), None), "and nothing more is asked");
    assert_eq!(session.lookups, 1);
}

#[test]
fn a_contract_that_cannot_be_named_refuses_every_order_that_waits_on_it() {
    let mut session = Session::new();
    let described = |order_id: u64| {
        let mut p = limit(order_id);
        p.contract.con_id = 0;
        p.contract.description = "NOPE".to_string();
        Pending::new(ControlCommand::Place(Box::new(p)), 0)
    };
    let (mut first, mut second) = (described(10), described(11));
    session.place(&mut first, None);
    session.place(&mut second, None);
    session.answers.push((1, OrderNamed::Unnamed("nothing matches".to_string())));
    assert!(!session.place(&mut first, None) && !session.place(&mut second, None));
    assert_eq!(session.refused(), [(10, OrderOp::Place, 200), (11, OrderOp::Place, 200)]);

    let mut contract = spy();
    let mut answers = vec![(9, OrderNamed::Refused(321, "no".to_string()))];
    assert_eq!(
        name_order_contract(&mut session.intake, &mut answers, &mut contract, &mut Some(9)),
        Naming::Refused(Refusal::stated(321, "no")),
    );
}

#[test]
fn a_lookup_that_cannot_be_sent_refuses_the_order() {
    let mut session = Session::new();
    let p = limit(10);
    let turn = lookup_made(
        &mut session.intake, &mut session.notices, &p, &mut None, false, None,
    );
    assert!(matches!(turn, Turn::Refused));
    assert_eq!(session.refused(), [(10, OrderOp::Place, 504)]);
}

#[test]
fn an_account_with_no_number_left_refuses_the_order() {
    let mut session = Session::new();
    let mut wire_id = None;
    let turn = number_given(&mut session.notices, &limit(10), false, &mut wire_id, None);
    assert!(matches!(turn, Turn::Refused));
    assert_eq!((session.refused(), wire_id), (vec![(10, OrderOp::Place, 321)], None));
    let turn = ids_judged(
        &session.book, &mut session.notices, &limit(10), false,
        Err(Refusal::stated(103, "Duplicate order id: 10")),
    );
    assert!(matches!(turn, Turn::Refused));
    assert_eq!(session.refused(), [(10, OrderOp::Place, 103)]);
}

#[test]
fn what_is_to_be_attached_is_waited_for() {
    let mut session = Session::new();
    let mut p = limit(10);
    assert!(matches!(
        loading_went(&mut session.notices, &mut p, false, 10, Loading::Pending),
        Turn::Waits
    ));
    let turn = loading_went(
        &mut session.notices, &mut p, false, 10, Loading::Refused(Refusal::stated(10000, "no")),
    );
    assert!(matches!(turn, Turn::Refused));
    assert_eq!(session.refused(), [(10, OrderOp::Place, 10000)]);
    loading_went(&mut session.notices, &mut p, false, 10, Loading::Ready { qty: 7 });
    assert_eq!(p.order.qty, 7);
}

#[test]
fn an_order_that_transmits_releases_its_family_parent_first() {
    let mut session = Session::new();
    let mut parent = limit(10);
    parent.order.transmit = false;
    session.placed(parent);
    session.placed(child(11, 10, false));
    assert!(session.sent().is_empty(), "nothing goes before one that transmits");
    assert!(keeps_a_placement(&session.intake.kept, 10));
    session.placed(child(12, 10, true));
    let wire = session.sent();
    assert_eq!(wire.len(), 3);
    for (message, id) in wire.iter().zip([10, 11, 12]) {
        assert!(message.contains(&format!("|11={id}.0|")), "{message}");
    }
    assert!(wire[1].contains("|6107=10.0|") && wire[1].contains("|583=10|"), "{wire:?}");
    assert!(session.intake.kept.is_empty());
}

#[test]
fn a_kept_family_goes_with_the_parent_that_is_withdrawn() {
    let mut session = Session::new();
    let mut parent = limit(10);
    parent.order.transmit = false;
    session.placed(parent);
    session.placed(child(11, 10, false));
    session.placed(child(12, 11, false));
    let mut other = limit(20);
    other.order.transmit = false;
    session.placed(other);
    session.notices.clear();

    let cmd = ControlCommand::CancelOrder { order_id: 10, stated: OrderCancel::default() };
    let taking = take_order_command(
        &mut session.intake, &session.book, &mut session.notices, cmd, 0, false,
    );
    assert_eq!(taking, Taking::Withdrawn);
    let forgotten: Vec<u64> = session.notices.iter()
        .filter_map(|n| match n { Notice::Forgotten(id) => Some(*id), _ => None })
        .collect();
    assert_eq!(forgotten, [10, 11, 12]);
    assert_eq!(session.intake.kept.len(), 1, "and the other order is kept yet");
}

#[test]
fn a_withdrawal_is_refused_waits_or_goes_by_what_the_venue_holds() {
    let mut session = Session::new();
    let stated = OrderCancel::default();
    let take = |session: &mut Session, id: u64| {
        let mut queued = Vec::new();
        let step = take_cancel(
            &mut session.intake, &mut queued, &mut session.notices, &session.book, &session.known,
            id, &stated, false,
        );
        (matches!(step, Step::Waits), queued.len())
    };
    session.book.replay = None;
    assert_eq!(take(&mut session, 10), (true, 0), "not known until the venue has named them");
    session.book.replay = Some(true);
    assert_eq!(take(&mut session, 10), (false, 0));
    assert_eq!(session.refused(), [(10, OrderOp::Cancel, 135)]);
    session.book.working.push(10);
    assert_eq!(take(&mut session, 10), (false, 1));
    session.book.finished.push(11);
    assert_eq!(take(&mut session, 11), (false, 0));
    assert_eq!(session.refused(), [(11, OrderOp::Cancel, 161)]);
    session.book.replay = Some(false);
    assert_eq!(take(&mut session, 12), (false, 1), "nothing is known, and it goes");
}

#[test]
fn a_withdrawals_time_is_said_not_to_travel() {
    let mut session = Session::new();
    session.book.working.push(10);
    let stated = OrderCancel {
        manual_order_cancel_time: "20260101-00:00:00".to_string(),
        ..OrderCancel::default()
    };
    take_cancel(
        &mut session.intake, &mut session.context.pending_orders, &mut session.notices,
        &session.book, &session.known, 10, &stated, false,
    );
    assert!(session.notices.iter().any(|n| matches!(
        n,
        Notice::Inactive { order_id: 10, op: OrderOp::Cancel, code: 321, text }
            if text.ends_with("(stated: 20260101-00:00:00)")
    )));
    assert_eq!(session.context.pending_orders.len(), 1);
}

#[test]
fn a_withdrawal_by_the_venues_number_reaches_the_order_held() {
    let mut session = Session::new();
    session.book.open_orders.push((7, 500));
    session.book.open_orders.push((8, 500));
    session.book.working.push(7);
    session.book.working.push(8);
    session.context.insert_order(Order {
        order_id: 8,
        instrument: 0,
        side: Side::Buy,
        price: 0,
        qty: QTY_SCALE,
        filled: 0,
        status: OrderStatus::Submitted,
        ord_type: b'2',
        tif: b'0',
        stop_price: 0,
    });
    assert_eq!(order_under_perm_id(&session.book, &session.context, 500), Some(8));
    assert_eq!(order_under_perm_id(&session.book, &session.context, 501), None);
    let found = take_cancel_by_perm_id(
        &mut session.intake, &session.context, &mut session.notices, &session.book, 500,
    );
    assert_eq!(found, ByPermId::Withdraws(8));
    finish_cancel_by_perm_id(
        &mut session.intake, &mut session.context.pending_orders, &mut session.notices,
        &session.book, &session.known, 8, true,
    );
    assert!(session.context.pending_orders.is_empty(), "withdrawn where it waited");
    finish_cancel_by_perm_id(
        &mut session.intake, &mut session.context.pending_orders, &mut session.notices,
        &session.book, &session.known, 8, false,
    );
    assert!(matches!(
        session.context.pending_orders[..],
        [OrderRequest::Cancel { order_id: 8, .. }]
    ));
    let found = take_cancel_by_perm_id(
        &mut session.intake, &session.context, &mut session.notices, &session.book, 501,
    );
    assert_eq!(found, ByPermId::Unknown);
    session.book.replay = None;
    let found = take_cancel_by_perm_id(
        &mut session.intake, &session.context, &mut session.notices, &session.book, 500,
    );
    assert_eq!(found, ByPermId::Waits);
    assert!(session.notices.iter().any(|n| matches!(n, Notice::Session { code: 135, .. })));
}

#[test]
fn everything_is_withdrawn_contract_by_contract() {
    let mut session = Session::new();
    session.book.replay = Some(false);
    session.book.naming_began = true;
    let mut queued = Vec::new();
    take_global_cancel(
        &mut queued, &mut session.notices, &session.book, 3, &OrderCancel::default(),
    );
    assert!(matches!(
        &queued[..],
        [OrderRequest::GlobalCancel { instruments, .. }] if instruments[..] == [0, 1, 2]
    ));
    assert!(matches!(session.notices[..], [Notice::Session { code: -1, .. }]));
}

#[test]
fn a_later_command_for_an_order_waits_behind_it_and_is_taken_after() {
    let mut session = Session::new();
    session.book.replay = None;
    let cancel = |id: u64| ControlCommand::CancelOrder { order_id: id, stated: OrderCancel::default() };
    let Taking::Take(first) = take_order_command(
        &mut session.intake, &session.book, &mut session.notices, cancel(10), 0, false,
    ) else { panic!("taken at once") };
    let next = take_one(
        &mut session.intake, &mut session.context, &mut session.notices, &session.book,
        &session.known, &first.cmd, false, 0,
    );
    assert!(matches!(next, Next::Waits));
    let mut left = 10;
    settle(&mut session.intake, first, true, &mut left);
    let behind = take_order_command(
        &mut session.intake, &session.book, &mut session.notices,
        ControlCommand::Place(Box::new(limit(10))), 0, false,
    );
    assert_eq!(behind, Taking::Behind);
    assert_eq!(session.intake.waiting(), 2);

    // The venue names the working orders: both are taken, the first first.
    session.book.replay = Some(true);
    let count = begin_lap(&mut session.intake, &session.book, false);
    let mut taken = Vec::new();
    for _ in 0..count {
        if let LapStep::Take(pending) = next_in_lap(&mut session.intake, left) {
            taken.push(matches!(pending.cmd, ControlCommand::CancelOrder { .. }));
            settle(&mut session.intake, pending, false, &mut left);
        }
    }
    end_lap(&mut session.intake);
    assert_eq!((taken, left, session.intake.waiting()), (vec![true, false], 8, 0));
}

#[test]
fn a_lap_past_its_allowance_takes_nothing_more() {
    let mut session = Session::new();
    session.book.replay = None;
    for id in [10, 11] {
        let cmd = ControlCommand::CancelOrder { order_id: id, stated: OrderCancel::default() };
        let Taking::Take(pending) = take_order_command(
            &mut session.intake, &session.book, &mut session.notices, cmd, 0, false,
        ) else { panic!("taken at once") };
        settle(&mut session.intake, pending, true, &mut 1);
    }
    let mut left = 1;
    let count = begin_lap(&mut session.intake, &session.book, false);
    for _ in 0..count {
        if let LapStep::Take(pending) = next_in_lap(&mut session.intake, left) {
            settle(&mut session.intake, pending, false, &mut left);
        }
    }
    assert_eq!((left, session.intake.waiting()), (0, 1));
}

#[test]
fn only_commands_about_orders_are_taken_here() {
    assert!(order_command(ControlCommand::GlobalCancel { stated: OrderCancel::default() }).is_ok());
    let other = ControlCommand::Order(OrderRequest::Cancel {
        order_id: 1,
        stated: OrderCancel::default(),
    });
    assert!(order_command(other).is_err());
}

#[test]
fn the_family_of_an_order_is_its_parent_its_siblings_and_its_children() {
    let mut kept = Vec::new();
    let command = |id: u64| OrderRequest::Cancel { order_id: id, stated: OrderCancel::default() };
    for (id, parent) in [(11, 10), (10, 0), (12, 10), (13, 11), (20, 0)] {
        keep(&mut kept, id, parent, command(id));
    }
    keep(&mut kept, 12, 10, command(12));
    assert_eq!(kept.len(), 5, "restated, it keeps its place");
    let own = release(&mut kept, 11).expect("it is kept");
    assert_eq!(own.order_id, 11);
    let family: Vec<u64> = family_of(&mut kept, 11, 10).iter().map(|k| k.order_id).collect();
    assert_eq!(family, [10, 12, 13]);
    assert_eq!(kept.iter().map(|k| k.order_id).collect::<Vec<_>>(), [20]);
}

#[test]
fn generated_orders_are_kept_with_the_placement_that_admitted_them() {
    let mut session = Session::new();
    let mut p = limit(10);
    p.order.attaches = true;
    p.order.transmit = false;
    let mut order = limit(0).order;
    order.order_id = 77;
    order.parent_id = 10;
    order.action = "SELL".to_string();
    let prepared = Prepared {
        parent_family_key: "7/1/-9".to_string(),
        children: vec![Generated {
            wire_id: 1001,
            command: submission(&order, 756733, 1001, 0),
            order,
        }],
    };
    let mut pending = Pending::new(ControlCommand::Place(Box::new(p)), 0);
    assert!(!session.place(&mut pending, Some(prepared)));
    assert_eq!(session.intake.kept.iter().map(|k| k.order_id).collect::<Vec<_>>(), [10, 1001]);
    assert_eq!(session.intake.generated.get(&1001), Some(&10));
    assert_eq!(built_order_commands_held(&session.intake, &session.context.pending_orders, &Vec::new()), 1);
}

#[test]
fn a_bracket_is_recorded_leg_by_leg_and_goes_as_one() {
    let mut session = Session::new();
    let b = Bracket {
        parent_id: 10,
        contract: spy(),
        side: Side::Buy,
        qty: QTY_SCALE,
        entry: 100 * PRICE_SCALE,
        take_profit: 110 * PRICE_SCALE,
        stop_loss: 90 * PRICE_SCALE,
    };
    assert!(check_bracket(&mut session.notices, &b));
    let instrument = session.register(&spy());
    take_bracket(
        &mut session.intake, &mut session.context.pending_orders, &mut session.notices, &b,
        instrument,
    );
    let exit = &session.intake.placed.get(&12).expect("the stop is recorded").order;
    assert_eq!(
        (exit.action.as_str(), exit.order_type.as_str(), exit.tif.as_str()),
        ("SELL", "STP", "GTC")
    );
    assert_eq!((exit.oca_group.as_str(), exit.oca_type, exit.parent_id), ("10", 3, 10));
    assert_eq!(session.sent().len(), 3);
    let mut beyond = b;
    beyond.contract.con_id = -1;
    assert!(!check_bracket(&mut session.notices, &beyond));
    assert_eq!(session.refused(), [(10, OrderOp::Place, 321)]);
}

fn exercise() -> Exercise {
    Exercise {
        req_id: 5,
        order_id: 30,
        unnumbered: false,
        stated: true,
        contract: spy(),
        action: 1,
        override_: false,
        qty: 10 * QTY_SCALE,
        account: String::new(),
        states: Arc::new(OrderAttrs::default()),
    }
}

fn nothing_narrows() -> LookupFilters {
    LookupFilters {
        primary_exchange: String::new(),
        local_symbol: String::new(),
        trading_class: String::new(),
        sec_id_type: String::new(),
        sec_id: String::new(),
        issuer_id: String::new(),
    }
}

#[test]
fn an_exercise_goes_for_no_more_than_the_position_once_it_is_in_the_money() {
    let mut session = Session::new();
    let mut e = exercise();
    e.unnumbered = true;
    let mut watch = None;
    assert_eq!(begin_exercising(&e), ExerciseStage::Number);
    assert_eq!(
        exercise_numbered(&mut e, &session.book, &mut session.notices, Some(31)),
        ExerciseTurn::Ask(ExerciseStage::Name),
    );
    assert_eq!(e.order_id, 31);
    let turn = name_exercised(
        &mut session.intake, &session.book, &mut session.notices, &mut session.answers, &mut e,
        &mut None,
    );
    assert_eq!(turn, ExerciseTurn::Ask(ExerciseStage::Register));
    let instrument = session.register(&e.contract);
    assert_eq!(exercise_registered(instrument), ExerciseStage::Position { instrument });
    let held = 3.75f64.to_bits();
    assert_eq!(
        exercise_held("DU1", &mut session.notices, &mut e, watch, instrument, Some(held), 0),
        ExerciseTurn::Ask(ExerciseStage::Figures { instrument }),
    );
    assert_eq!(e.qty, 3 * QTY_SCALE, "no more than the position, whole contracts of it");
    let seen = figures_seen(
        &mut session.notices, &e, &mut watch, instrument, &Vec::new(), false,
    );
    assert_eq!(seen, ExerciseTurn::Ask(ExerciseStage::Watch));
    let request = watch_opened(&mut session.own_watches, &e, &mut watch, nothing_narrows());
    assert_eq!(watch, Some(OWN_WATCHES + 1));
    assert!(engine_owned(request.req_id) && !engine_owned(5));
    assert_eq!(*request.generic_ticks, [IN_THE_MONEY]);
    let figures = vec![2.5f64.to_bits(), 0.0f64.to_bits()];
    assert_eq!(
        figures_seen(&mut session.notices, &e, &mut watch, instrument, &figures, false),
        ExerciseTurn::Waits,
        "nought does not say whether it is in the money",
    );
    let figures = vec![2.5f64.to_bits(), 1.0f64.to_bits()];
    let seen = figures_seen(&mut session.notices, &e, &mut watch, instrument, &figures, false);
    assert_eq!(
        seen,
        ExerciseTurn::Ask(ExerciseStage::Weigh {
            instrument,
            value: figures[0],
            attribute: figures[1],
            withdraw: Some(OWN_WATCHES + 1),
        }),
    );
    assert_eq!(
        exercise_weighed(&mut session.notices, &e, instrument, figures[0], figures[1]),
        ExerciseTurn::Ask(ExerciseStage::Build { instrument }),
    );
    e.account = "DU7".to_string();
    e.states = Arc::new(OrderAttrs { order_ref: "mine".to_string(), ..OrderAttrs::default() });
    let terms = exercise_terms(&e, instrument);
    assert_eq!((terms.order_id, terms.instrument, terms.action), (31, instrument, 1));
    assert_eq!((terms.qty, terms.account.as_str()), (3 * QTY_SCALE, "DU7"));
    assert_eq!(terms.states.order_ref, "mine");
    let built = submission(&limit(31).order, 756733, 31, instrument);
    assert_eq!(
        exercise_built(&mut session.context.pending_orders, built),
        ExerciseTurn::Went,
    );
    assert_eq!(session.context.pending_orders.len(), 1);
    assert!(session.notices.is_empty());
}

#[test]
fn an_exercise_is_refused_under_its_callers_number() {
    let mut session = Session::new();
    let mut e = exercise();
    // No position.
    exercise_held("DU1", &mut session.notices, &mut e, None, 0, None, 0);
    assert!(session.notices.iter().any(|n| matches!(
        n,
        Notice::OrderRefused { id: 5, op: OrderOp::Exercise, code: 322, text }
            if text.ends_with("account DU1.")
    )));
    session.notices.clear();
    // A working order's number.
    session.book.working.push(30);
    name_exercised(
        &mut session.intake, &session.book, &mut session.notices, &mut session.answers, &mut e,
        &mut None,
    );
    assert_eq!(session.refused(), [(5, OrderOp::Exercise, 103)]);
    // No number left, and none until the venue has named the working orders.
    e.unnumbered = true;
    assert_eq!(
        exercise_numbered(&mut e, &session.book, &mut session.notices, None),
        ExerciseTurn::Refused,
    );
    assert_eq!(session.refused(), [(5, OrderOp::Exercise, 321)]);
    session.book.replay = None;
    assert_eq!(
        exercise_numbered(&mut e, &session.book, &mut session.notices, Some(9)),
        ExerciseTurn::Waits,
    );
    // A lookup that cannot be sent, a stop, and the natural action.
    exercise_lookup_made(&mut session.intake, &mut session.notices, &e, &mut None, None);
    figures_seen(&mut session.notices, &e, &mut None, 0, &Vec::new(), true);
    let out_of_the_money = (0.0f64.to_bits(), 0.0f64.to_bits());
    let turn =
        exercise_weighed(&mut session.notices, &e, 0, out_of_the_money.0, out_of_the_money.1);
    assert_eq!(turn, ExerciseTurn::Refused);
    let codes: Vec<i32> = session.refused().into_iter().map(|(_, _, code)| code).collect();
    assert_eq!(codes, [504, 504, 322]);
    assert!(session.context.pending_orders.is_empty());
}

#[test]
fn the_natural_action_is_read_off_the_figure() {
    let against = |action: u8, forced: bool, value: f64, attribute: f64| {
        against_the_natural_action(action, forced, value.to_bits(), attribute.to_bits()).is_some()
    };
    assert!(!against(1, false, 2.0, 1.0), "an exercise in the money goes");
    assert!(against(1, false, 2.0, 0.0), "out of the money it does not");
    assert!(against(1, false, f64::MAX, 1.0) && against(1, false, f64::NAN, 1.0));
    assert!(against(1, false, -1.0, 1.0) && !against(1, false, -0.0, 1.0));
    assert!(!against(2, false, 0.0, 1.0), "a lapse out of the money goes");
    assert!(against(2, false, 2.0, 1.0) && against(2, false, 0.0, 0.0));
    assert!(!against(1, true, 0.0, 0.0), "the override lets it go");
    assert!(!against(2, true, 2.0, 1.0));
}

#[test]
fn a_stop_refuses_what_still_waits_in_its_own_words() {
    let mut session = Session::new();
    session.book.working.push(11);
    let waits = [
        ControlCommand::Place(Box::new(limit(10))),
        ControlCommand::Place(Box::new(limit(11))),
        ControlCommand::CancelOrder { order_id: 12, stated: OrderCancel::default() },
        ControlCommand::GlobalCancel { stated: OrderCancel::default() },
    ];
    for cmd in waits {
        session.intake.waiting.push(Pending::new(cmd, 0));
    }
    let mut watching = Pending::new(ControlCommand::Exercise(Box::new(exercise())), 0);
    watching.watch = Some(OWN_WATCHES + 1);
    session.intake.waiting.push(watching);

    let open = refuse_exercises_watching(
        &mut session.intake, &session.book, &mut session.notices, "the engine stopped",
    );
    assert_eq!(open, [OWN_WATCHES + 1], "the watches to withdraw");
    assert_eq!(session.refused(), [(5, OrderOp::Exercise, 504)]);
    refuse_held_order_commands(
        &mut session.intake, &session.book, &mut session.notices, "the engine stopped",
    );
    assert_eq!(session.intake.waiting(), 0);
    let ops: Vec<_> = session.notices.iter()
        .filter_map(|n| match n {
            Notice::Inactive { order_id, op, code: 504, .. } => Some((*order_id, *op)),
            _ => None,
        })
        .collect();
    assert_eq!(ops, [(10, OrderOp::Place), (11, OrderOp::Modify), (12, OrderOp::Cancel)]);
    assert!(session.notices.iter().any(|n| matches!(n, Notice::Session { code: 504, .. })));
}

#[test]
fn what_the_venue_says_of_an_order_is_used_when_it_is_finished() {
    let mut session = Session::new();
    session.book.finished.push(10);
    session.known.orders.insert(
        10,
        OrderInfo { account: String::new(), perm_id: 777, parent_id: 0, avg_price: 0 },
    );
    take_cancel(
        &mut session.intake, &mut Vec::new(), &mut session.notices, &session.book, &session.known,
        10, &OrderCancel::default(), false,
    );
    assert!(matches!(
        &session.notices[..],
        [Notice::OrderRefused { id: 10, code: 161, text, .. }] if text.ends_with("permId = 777")
    ));
}
