//! Exercising an option, and letting one lapse.
//!
//! The account's position in the option is looked up, the option's standing in
//! the money is asked for whatever the override says, the instruction is
//! refused where it goes against the natural action and the override does not
//! say otherwise, and what goes is no more than the position.

use crate::bits::{above, is_above, is_nought, is_stated, nought, stated, whole_part,
    whole_part_of, SIGN};
use crate::engine::book::Book;
use crate::engine::commands::{Calculation, ContractRef, Exercise, LookupFilters, Subscription};
use crate::engine::intake::refuse::{beyond_the_wire, beyond_the_wire_text};
use crate::engine::intake::state::Intake;
use crate::engine::known::{said, say, Notice, Said};
use crate::error_codes::{Refusal, DUPLICATE_ORDER_ID, REQUEST_NOT_PROCESSED};
use crate::text::{decimal, int_text, joined, joined3, QTY_SCALE};
use crate::types::attrs::OrderAttrs;
use crate::types::orders::{InstrumentId, OrderOp};
use std::sync::Arc;
use vstd::prelude::*;

verus! {

/// The series a gateway reads an option's standing in the money off: its
/// intrinsic value, whether it is in the money, and its time value.
pub const IN_THE_MONEY: u32 = 493;

/// The first number the engine takes for itself, apart from every number a
/// caller may state.
pub const ENGINE_ID_BASE: u64 = 0x4000_0000_0000_0000;

/// The first number the engine opens its own watches under.
pub const OWN_WATCHES: i64 = 0x4000_0000_0000_0000;

/// Whether a market-data request is one the engine opened for itself, which
/// nothing is said of to a caller.
pub fn engine_owned(req_id: i64) -> (owned: bool)
    ensures
        owned == (req_id >= OWN_WATCHES),
{
    req_id >= OWN_WATCHES
}

/// Whether an exercise or a lapse goes against the natural action: an exercise
/// of an option that is not in the money, or the lapse of one that is.
pub open spec fn is_against(action: u8, override_: bool, value: u64, attribute: u64) -> bool {
    let not_below = value < SIGN || is_nought(value);
    !override_ && ((action == 1 && !(!is_nought(attribute) && is_stated(value) && not_below)) || (
    action == 2 && (is_nought(attribute) || (is_stated(value) && is_above(value)))))
}

/// What is said of an exercise or a lapse against the natural action.
pub open spec fn against_text(action: u8) -> Seq<char> {
    if action == 1 {
        "Error processing request:Exercise ignored because option is not in-the-money."@
    } else {
        "Error processing request:Lapse ignored because option is in-the-money."@
    }
}

/// A gateway's refusal of an exercise or a lapse against the natural action,
/// from its option's standing in the money: the intrinsic value and the
/// attribute that says whether it is in the money, as their bits. None where
/// it goes.
pub fn against_the_natural_action(
    action: u8,
    override_: bool,
    value: u64,
    attribute: u64,
) -> (why: Option<Refusal>)
    ensures
        why is Some <==> is_against(action, override_, value, attribute),
        why matches Some(why) ==> why.is(322, against_text(action)),
{
    if override_ {
        return None;
    }
    let valid: bool = stated(value);
    if action == 1 && !(!nought(attribute) && valid && (value < SIGN || nought(value))) {
        return Some(
            Refusal::stated(
                REQUEST_NOT_PROCESSED,
                "Error processing request:Exercise ignored because option is not in-the-money.",
            ),
        );
    }
    if action == 2 && (nought(attribute) || (valid && above(value))) {
        return Some(
            Refusal::stated(
                REQUEST_NOT_PROCESSED,
                "Error processing request:Lapse ignored because option is in-the-money.",
            ),
        );
    }
    None
}

/// What is said of an exercise that is refused.
pub open spec fn exercise_refused(
    before: Seq<Said>,
    e: Exercise,
    code: i32,
    text: Seq<char>,
) -> Seq<Said> {
    before.push(Said::OrderRefused { id: e.req_id, op: OrderOp::Exercise, code, text })
}

/// Refuse an exercise, under the number its caller gave it.
pub fn refuse_exercise(notices: &mut Vec<Notice>, e: &Exercise, why: Refusal)
    ensures
        said(final(notices)@) == exercise_refused(said(old(notices)@), *e, why.code, why.message@),
{
    say(
        notices,
        Notice::OrderRefused {
            id: e.req_id,
            op: OrderOp::Exercise,
            code: why.code,
            text: why.message,
        },
    );
}

/// Where an exercise that asked to be given a number stands.
#[derive(Clone, Copy, Debug, PartialEq, Eq, Structural)]
pub enum Numbering {
    /// It has its number.
    Numbered,
    /// The venue is still naming the account's working orders.
    Waits,
    /// The account has no number left.
    Refused,
}

/// Give an exercise the number it asked for, once the venue has named the
/// account's working orders. `given` is the next number the account has.
pub fn number_exercise(
    e: &mut Exercise,
    book: &Book,
    notices: &mut Vec<Notice>,
    given: Option<u64>,
) -> (numbering: Numbering)
    ensures
        numbering == (if !old(e).unnumbered {
            Numbering::Numbered
        } else if book.replay is None {
            Numbering::Waits
        } else if given is None {
            Numbering::Refused
        } else {
            Numbering::Numbered
        }),
        *final(e) == (if old(e).unnumbered && book.replay is Some && given is Some {
            Exercise { order_id: given->Some_0, unnumbered: false, ..*old(e) }
        } else {
            *old(e)
        }),
        said(final(notices)@) == (if numbering is Refused {
            exercise_refused(
                said(old(notices)@),
                *old(e),
                321,
                "this account has no order id left"@,
            )
        } else {
            said(old(notices)@)
        }),
{
    if !e.unnumbered {
        return Numbering::Numbered;
    }
    if book.replay.is_none() {
        return Numbering::Waits;
    }
    match given {
        Some(id) => {
            e.order_id = id;
            e.unnumbered = false;
            Numbering::Numbered
        },
        None => {
            refuse_exercise(notices, e, Refusal::validation("this account has no order id left"));
            Numbering::Refused
        },
    }
}

/// Whether an exercise's contract is to be named: its caller described it, or
/// numbered it and left out what it is or where it trades.
pub open spec fn wants_a_name(e: Exercise) -> bool {
    let c = e.contract;
    (c.con_id == 0 && c.symbol@.len() > 0) || (c.con_id != 0 && (c.sec_type@.len() == 0
        || c.exchange@.len() == 0))
}

/// Whether an exercise's contract is to be named.
pub fn exercise_wants_a_name(e: &Exercise) -> (wants: bool)
    ensures
        wants == wants_a_name(*e),
{
    let c = &e.contract;
    (c.con_id == 0 && c.symbol.as_str().unicode_len() > 0) || (c.con_id != 0 && (
    c.sec_type.as_str().unicode_len() == 0 || c.exchange.as_str().unicode_len() == 0))
}

/// What is said of an exercise that states a working order's number.
pub open spec fn number_taken_text(req_id: i64) -> Seq<char> {
    decimal(req_id as int)
        + " is the number of an order the venue is working: an exercise takes an order's number, so pass 0 to be given one"@
}

/// Hold an exercise against what the wire carries and what the venue is
/// working, and say whether it goes on. It takes an order's number, so a number
/// its caller states is under the rules a placement's is.
pub fn check_exercise(
    intake: &Intake,
    book: &Book,
    notices: &mut Vec<Notice>,
    e: &Exercise,
) -> (goes: bool)
    ensures
        goes <==> 0 <= e.contract.con_id <= u32::MAX && !(e.stated && intake@.works(
            *book,
            e.order_id,
        )),
        said(final(notices)@) == (if !(0 <= e.contract.con_id <= u32::MAX) {
            exercise_refused(
                said(old(notices)@),
                *e,
                321,
                beyond_the_wire_text(e.contract.con_id),
            )
        } else if e.stated && intake@.works(*book, e.order_id) {
            exercise_refused(said(old(notices)@), *e, 103, number_taken_text(e.req_id))
        } else {
            said(old(notices)@)
        }),
{
    match beyond_the_wire(e.contract.con_id) {
        Some(why) => {
            refuse_exercise(notices, e, why);
            return false;
        },
        None => {},
    }
    if e.stated && intake.working(book, e.order_id) {
        let text: String = joined(
            int_text(e.req_id).as_str(),
            " is the number of an order the venue is working: an exercise takes an order's number, so pass 0 to be given one",
        );
        refuse_exercise(notices, e, Refusal::stated(DUPLICATE_ORDER_ID, text.as_str()));
        return false;
    }
    true
}

/// The position an account holds in an option: the row the venue states for the
/// contract, or what the engine counted on its slot.
pub open spec fn position(row: Option<u64>, on_slot: u64) -> u64 {
    match row {
        Some(row) => row,
        None => on_slot,
    }
}

/// The account an exercise is for.
pub open spec fn exercising_account(session: Seq<char>, e: Exercise) -> Seq<char> {
    if e.account@.len() == 0 {
        session
    } else {
        e.account@
    }
}

/// What is said where the account holds no position in the option.
pub open spec fn no_position_text(account: Seq<char>) -> Seq<char> {
    "Error processing request:No unlapsed position exists in this option in account "@ + account
        + "."@
}

/// The account must hold a positive position in the option. Positions are the
/// bits of their binary figures.
pub fn position_to_exercise(
    session: &str,
    e: &Exercise,
    row: Option<u64>,
    on_slot: u64,
) -> (held: Result<u64, Refusal>)
    ensures
        match held {
            Ok(held) => is_above(position(row, on_slot)) && held == position(row, on_slot),
            Err(why) => !is_above(position(row, on_slot)) && why.is(
                322,
                no_position_text(exercising_account(session@, *e)),
            ),
        },
{
    let held: u64 = match row {
        Some(row) => row,
        None => on_slot,
    };
    if above(held) {
        return Ok(held);
    }
    let account: &str = if e.account.as_str().unicode_len() == 0 {
        session
    } else {
        e.account.as_str()
    };
    Err(
        Refusal::stated(
            REQUEST_NOT_PROCESSED,
            joined3(
                "Error processing request:No unlapsed position exists in this option in account ",
                account,
                ".",
            ).as_str(),
        ),
    )
}

/// The smaller of two quantities.
pub open spec fn no_more_than(qty: i64, most: int) -> int {
    if qty <= most {
        qty as int
    } else {
        most
    }
}

/// Hold an exercise to the position the account has, whole contracts of it,
/// and say whether it goes on. One that already watches was held to it before.
pub fn hold_to_position(
    session: &str,
    notices: &mut Vec<Notice>,
    e: &mut Exercise,
    watching: bool,
    row: Option<u64>,
    on_slot: u64,
) -> (goes: bool)
    ensures
        goes <==> watching || is_above(position(row, on_slot)),
        *final(e) == (if !watching && goes {
            Exercise {
                qty: no_more_than(
                    old(e).qty,
                    whole_part(position(row, on_slot)) * QTY_SCALE,
                ) as i64,
                ..*old(e)
            }
        } else {
            *old(e)
        }),
        said(final(notices)@) == (if goes {
            said(old(notices)@)
        } else {
            exercise_refused(
                said(old(notices)@),
                *old(e),
                322,
                no_position_text(exercising_account(session@, *old(e))),
            )
        }),
{
    if watching {
        return true;
    }
    match position_to_exercise(session, e, row, on_slot) {
        Ok(held) => {
            let whole: i32 = whole_part_of(held);
            let most: i64 = whole as i64 * QTY_SCALE;
            if most < e.qty {
                e.qty = most;
            }
            true
        },
        Err(why) => {
            refuse_exercise(notices, e, why);
            false
        },
    }
}

/// What is known of an option's standing in the money.
#[derive(Clone, Copy, Debug, PartialEq, Eq, Structural)]
pub enum InTheMoney {
    /// The venue stated it: the value and the attribute, and the watch to
    /// withdraw where one was opened.
    Stated { value: u64, attribute: u64, withdraw: Option<i64> },
    /// A watch is to be opened.
    Watch,
    /// It is watched for.
    Waits,
    /// The engine is stopping, and does not wait for it.
    Stopping,
}

/// What is known of an option's standing in the money. One already held is used
/// at once; otherwise it is watched for until the venue states one that says
/// whether the option is in the money.
pub open spec fn standing_in_the_money(
    watch: Option<i64>,
    figures: Seq<u64>,
    finishing: bool,
) -> InTheMoney {
    if figures.len() >= 2 && (watch is None || !is_nought(figures[1])) {
        InTheMoney::Stated { value: figures[0], attribute: figures[1], withdraw: watch }
    } else if watch is Some {
        InTheMoney::Waits
    } else if finishing {
        InTheMoney::Stopping
    } else {
        InTheMoney::Watch
    }
}

/// See whether an option's standing in the money is known, and refuse the
/// exercise where the engine is stopping and would have to wait for it.
pub fn see_in_the_money(
    notices: &mut Vec<Notice>,
    e: &Exercise,
    watch: &mut Option<i64>,
    figures: &Vec<u64>,
    finishing: bool,
) -> (known: InTheMoney)
    ensures
        known == standing_in_the_money(*old(watch), figures@, finishing),
        *final(watch) == (if known is Stated {
            None
        } else {
            *old(watch)
        }),
        said(final(notices)@) == (if known is Stopping {
            exercise_refused(
                said(old(notices)@),
                *e,
                504,
                "the engine stopped before this order reached the venue, so it was never placed"@,
            )
        } else {
            said(old(notices)@)
        }),
{
    if figures.len() >= 2 && (watch.is_none() || !nought(figures[1])) {
        let withdraw: Option<i64> = *watch;
        *watch = None;
        return InTheMoney::Stated { value: figures[0], attribute: figures[1], withdraw };
    }
    if watch.is_some() {
        return InTheMoney::Waits;
    }
    if finishing {
        refuse_exercise(
            notices,
            e,
            Refusal::not_connected(
                "the engine stopped before this order reached the venue, so it was never placed",
            ),
        );
        return InTheMoney::Stopping;
    }
    InTheMoney::Watch
}

/// Whether a request watches an option's standing in the money for an exercise,
/// and asks for nothing else.
pub open spec fn watches_for(
    request: Subscription,
    req_id: i64,
    e: Exercise,
    filters: LookupFilters,
) -> bool {
    let c = request.contract;
    &&& request.req_id == req_id
    &&& c.con_id == e.contract.con_id
    &&& c.symbol@ == e.contract.symbol@
    &&& c.exchange@ == e.contract.exchange@
    &&& c.sec_type@ == e.contract.sec_type@
    &&& c.currency@ == e.contract.currency@
    &&& c.last_trade_date@ == e.contract.last_trade_date_or_contract_month@
    &&& c.strike@ == e.contract.strike@
    &&& c.right@ == e.contract.right@
    &&& c.multiplier@ == e.contract.multiplier@
    &&& request.filters == filters
    &&& request.mode == 0
    &&& request.delayed_mode is None
    &&& !request.frozen
    &&& !request.delayed_frozen
    &&& !request.regulatory_snapshot
    &&& !request.snapshot
    &&& request.generic_ticks@ == seq![IN_THE_MONEY]
    &&& request.news is None
    &&& request.spread_scan is None
    &&& request.calculation is None
}

/// Watch an option's standing in the money for an exercise, under a number of
/// the engine's own, which nothing is said of to a caller. The number is the
/// one the request carries.
pub fn watch_in_the_money(
    own_watches: &mut i64,
    e: &Exercise,
    filters: LookupFilters,
) -> (request: Subscription)
    requires
        0 <= *old(own_watches) < i64::MAX - OWN_WATCHES,
    ensures
        *final(own_watches) == *old(own_watches) + 1,
        watches_for(request, (OWN_WATCHES + *final(own_watches)) as i64, *e, filters),
{
    *own_watches = *own_watches + 1;
    let c = &e.contract;
    let none: Option<Calculation> = None;
    let mut series: Vec<u32> = Vec::new();
    series.push(IN_THE_MONEY);
    proof {
        assert(series@ =~= seq![IN_THE_MONEY]);
    }
    Subscription {
        req_id: OWN_WATCHES + *own_watches,
        contract: ContractRef {
            con_id: c.con_id,
            symbol: c.symbol.clone(),
            exchange: c.exchange.clone(),
            sec_type: c.sec_type.clone(),
            currency: c.currency.clone(),
            last_trade_date: c.last_trade_date_or_contract_month.clone(),
            strike: c.strike.clone(),
            right: c.right.clone(),
            multiplier: c.multiplier.clone(),
        },
        filters,
        mode: 0,
        delayed_mode: None,
        frozen: false,
        delayed_frozen: false,
        regulatory_snapshot: false,
        snapshot: false,
        generic_ticks: Arc::new(series),
        news: None,
        spread_scan: None,
        calculation: none,
    }
}

/// Refuse an exercise that goes against the natural action, and say whether it
/// goes.
pub fn weigh_exercise(
    notices: &mut Vec<Notice>,
    e: &Exercise,
    value: u64,
    attribute: u64,
) -> (goes: bool)
    ensures
        goes == !is_against(e.action, e.override_, value, attribute),
        said(final(notices)@) == (if goes {
            said(old(notices)@)
        } else {
            exercise_refused(said(old(notices)@), *e, 322, against_text(e.action))
        }),
{
    match against_the_natural_action(e.action, e.override_, value, attribute) {
        Some(why) => {
            refuse_exercise(notices, e, why);
            false
        },
        None => true,
    }
}

/// What the instruction an exercise goes out as is built from.
#[derive(Debug, PartialEq)]
pub struct ExerciseTerms {
    pub order_id: u64,
    pub instrument: InstrumentId,
    /// One to exercise, two to let lapse.
    pub action: u8,
    /// The quantity, scaled.
    pub qty: i64,
    /// The account it names, empty for the session's own.
    pub account: String,
    /// What else it states.
    pub states: Arc<OrderAttrs>,
}

/// What the instruction an exercise goes out as is built from: its own number,
/// action, quantity, account and what else it states, on the slot of its
/// contract.
pub fn exercise_terms(e: &Exercise, instrument: InstrumentId) -> (terms: ExerciseTerms)
    ensures
        terms.order_id == e.order_id,
        terms.instrument == instrument,
        terms.action == e.action,
        terms.qty == e.qty,
        terms.account == e.account,
        terms.states == e.states,
{
    ExerciseTerms {
        order_id: e.order_id,
        instrument,
        action: e.action,
        qty: e.qty,
        account: e.account.clone(),
        states: e.states.clone(),
    }
}

/// An exercise never asks for more than the position the account holds, whole
/// contracts of it.
pub proof fn no_more_is_exercised_than_held(qty: i64, held: u64)
    ensures
        no_more_than(qty, whole_part(held) * QTY_SCALE) <= whole_part(held) * QTY_SCALE,
        no_more_than(qty, whole_part(held) * QTY_SCALE) <= qty,
{
}

/// The override lets any exercise or lapse go.
pub proof fn the_override_lets_it_go(action: u8, value: u64, attribute: u64)
    ensures
        !is_against(action, true, value, attribute),
{
}

} // verus!
