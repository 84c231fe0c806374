//! The questions an order is asked before it is built.
//!
//! Each refuses the order under its caller's own number, or lets it go on to
//! the next. What only the venue, the account's numbers or the order's builder
//! can say comes in as an answer.

use crate::engine::book::Book;
use crate::engine::commands::Placement;
use crate::engine::intake::kept::{keeps_a_placement, placement_kept};
use crate::engine::intake::refuse::{beyond_the_wire, beyond_the_wire_text};
use crate::engine::intake::state::{Intake, IntakeView};
use crate::engine::known::{said, say, Known, Notice, Said};
use crate::error_codes::{Refusal, DUPLICATE_ORDER_ID, ORDER_DOES_NOT_MATCH};
use crate::text::{decimal, digits, int_text, joined, joined3, uint_text};
use crate::types::attrs::Standing;
use crate::types::contract::{Contract, OrderTerms};
use crate::types::orders::{InstrumentId, OrderOp, OrderRequest, OrderSpec};
use vstd::prelude::*;

verus! {

/// The highest number this client can carry an order under, below those the
/// engine takes for itself.
pub const MAX_ORDER_ID: u64 = 0x3fff_ffff_ffff_ffff;

/// The code conditions that count the overnight session are refused under,
/// where the account or the contract does not take them.
pub const OVERNIGHT_CONDITIONS: i32 = 10371;

/// What is said of an operation on an order that is refused.
pub open spec fn order_refused(
    before: Seq<Said>,
    id: i64,
    op: OrderOp,
    code: i32,
    text: Seq<char>,
) -> Seq<Said> {
    before.push(Said::OrderRefused { id, op, code, text })
}

/// Refuse an operation on an order, under its caller's number for it.
pub fn refuse_order(notices: &mut Vec<Notice>, id: i64, op: OrderOp, why: Refusal)
    ensures
        said(final(notices)@) == order_refused(
            said(old(notices)@),
            id,
            op,
            why.code,
            why.message@,
        ),
{
    say(notices, Notice::OrderRefused { id, op, code: why.code, text: why.message });
}

impl IntakeView {
    /// Whether a number already names an order: one kept to be placed, or one
    /// the venue is working.
    pub open spec fn names_an_order(self, book: Book, order_id: u64) -> bool {
        placement_kept(self.kept, order_id) || self.works(book, order_id)
    }

    /// Whether a placement replaces an order the venue is working. One waiting
    /// for what is attached to it is amended where it waits.
    pub open spec fn replaces(self, book: Book, order_id: u64) -> bool {
        self.works(book, order_id) && !book.waiting_attached@.contains(order_id)
    }
}

/// What a placement does: change an order there is, or place one.
pub open spec fn placement_op(existing: bool) -> OrderOp {
    if existing {
        OrderOp::Modify
    } else {
        OrderOp::Place
    }
}

/// What a placement does.
pub fn op_of(existing: bool) -> (op: OrderOp)
    ensures
        op == placement_op(existing),
{
    if existing {
        OrderOp::Modify
    } else {
        OrderOp::Place
    }
}

/// Write the caller's own numbers on an order, and say whether its number
/// already names one.
pub fn open_placement(intake: &Intake, book: &Book, p: &mut Placement) -> (existing: bool)
    ensures
        existing == intake@.names_an_order(*book, book.wire_number(old(p).order_id)),
        *final(p) == (Placement {
            order: OrderTerms {
                order_id: old(p).order_id as i64,
                client_id: book.client_id,
                ..old(p).order
            },
            ..*old(p)
        }),
{
    p.order.order_id = p.order_id as i64;
    p.order.client_id = book.client_id;
    let order_id: u64 = book.wire_order_id(p.order_id);
    keeps_a_placement(&intake.kept, order_id) || intake.working(book, order_id)
}

/// The highest number an order's is held against: the highest placed here, or
/// used by this client before. A preview raises neither, and is held against
/// this session's alone.
pub fn highest_known(intake: &Intake, book: &Book, what_if: bool) -> (highest: i64)
    ensures
        highest == (if what_if || book.highest_used as i64 <= intake@.attached.highest {
            intake@.attached.highest
        } else {
            book.highest_used as i64
        }),
{
    let used: i64 = book.highest_used as i64;
    if what_if || used <= intake.attached.highest {
        intake.attached.highest
    } else {
        used
    }
}

/// Where the number of an order stands.
#[derive(Clone, Copy, Debug, PartialEq, Eq, Structural)]
pub enum Number {
    /// It goes out under this one.
    Has(u64),
    /// It is to be allotted one.
    Allot,
    /// It is refused.
    Refused,
}

/// What is said of an order numbered past the highest this client carries.
pub open spec fn past_highest_text(api_id: i64) -> Seq<char> {
    "place_order: order_id "@ + decimal(api_id as int)
        + (" is past the highest this client can carry an order under ("@ + digits(
        MAX_ORDER_ID as nat,
    ) + ")"@)
}

/// Hold an order's number against what this session placed and what the venue
/// is working. `ids` is what the rules on attached numbers said of it: a
/// refusal, or whether a finished number may be used again.
pub fn check_number(
    book: &Book,
    notices: &mut Vec<Notice>,
    p: &Placement,
    existing: bool,
    wire_id: Option<u64>,
    ids: Result<bool, Refusal>,
) -> (number: Number)
    ensures
        ({
            let order_id = book.wire_number(p.order_id);
            let api_id = p.order_id as i64;
            let op = placement_op(existing);
            let before = said(old(notices)@);
            match wire_id {
                Some(wire) => number == Number::Has(wire) && said(final(notices)@) == before,
                None => match ids {
                    Err(why) => {
                        &&& number is Refused
                        &&& said(final(notices)@) == order_refused(
                            before,
                            api_id,
                            op,
                            why.code,
                            why.message@,
                        )
                    },
                    Ok(reusable) => if !existing && book.has_finished(order_id) && !reusable {
                        &&& number is Refused
                        &&& said(final(notices)@) == order_refused(
                            before,
                            api_id,
                            op,
                            103,
                            "Duplicate order id: "@ + decimal(api_id as int),
                        )
                    } else if order_id > MAX_ORDER_ID {
                        &&& number is Refused
                        &&& said(final(notices)@) == order_refused(
                            before,
                            api_id,
                            op,
                            321,
                            past_highest_text(api_id),
                        )
                    } else {
                        number is Allot && said(final(notices)@) == before
                    },
                },
            }
        }),
{
    match wire_id {
        Some(wire) => {
            return Number::Has(wire);
        },
        None => {},
    }
    let api_id: i64 = p.order_id as i64;
    let order_id: u64 = book.wire_order_id(p.order_id);
    let op: OrderOp = op_of(existing);
    match ids {
        Err(why) => {
            refuse_order(notices, api_id, op, why);
            Number::Refused
        },
        Ok(reusable) => {
            if !existing && book.number_finished(order_id) && !reusable {
                let text: String = joined("Duplicate order id: ", int_text(api_id).as_str());
                refuse_order(
                    notices,
                    api_id,
                    op,
                    Refusal::stated(DUPLICATE_ORDER_ID, text.as_str()),
                );
                return Number::Refused;
            }
            if order_id > MAX_ORDER_ID {
                let tail: String = joined3(
                    " is past the highest this client can carry an order under (",
                    uint_text(MAX_ORDER_ID).as_str(),
                    ")",
                );
                let text: String = joined3(
                    "place_order: order_id ",
                    int_text(api_id).as_str(),
                    tail.as_str(),
                );
                refuse_order(notices, api_id, op, Refusal::validation(text.as_str()));
                return Number::Refused;
            }
            Number::Allot
        },
    }
}

/// Take the number an order was allotted, or refuse it where none was left, and
/// say whether it goes on.
pub fn number_allotted(
    notices: &mut Vec<Notice>,
    p: &Placement,
    existing: bool,
    wire_id: &mut Option<u64>,
    allotted: Option<u64>,
) -> (goes: bool)
    ensures
        goes == (allotted is Some),
        *final(wire_id) == (if goes {
            allotted
        } else {
            *old(wire_id)
        }),
        said(final(notices)@) == (if goes {
            said(old(notices)@)
        } else {
            order_refused(
                said(old(notices)@),
                p.order_id as i64,
                placement_op(existing),
                321,
                "No venue order identifier is available"@,
            )
        }),
{
    match allotted {
        Some(_) => {
            *wire_id = allotted;
            true
        },
        None => {
            refuse_order(
                notices,
                p.order_id as i64,
                op_of(existing),
                Refusal::validation("No venue order identifier is available"),
            );
            false
        },
    }
}

/// Whether an order's contract is to be named: its caller described it, and it
/// is not a combination of an attached family, which is named by its legs.
pub open spec fn contract_wants_a_name(view: IntakeView, p: Placement, order_id: u64) -> bool {
    let by_its_legs = (p.order.attaches || view.attached.family_keys.dom().contains(order_id))
        && p.contract.exchange@ == "SMART"@ && p.contract.combination();
    p.contract.con_id == 0 && p.contract.symbol@.len() > 0 && !by_its_legs
}

/// Whether an order's contract is to be named.
pub fn placement_wants_a_name(intake: &Intake, p: &Placement, order_id: u64) -> (wants: bool)
    ensures
        wants == contract_wants_a_name(intake@, *p, order_id),
{
    let by_its_legs: bool = (p.order.attaches || intake.attached.family_keys.contains_key(
        &order_id,
    )) && *p.contract.exchange.as_str() == *"SMART" && p.contract.is_combination();
    p.contract.con_id == 0 && p.contract.symbol.as_str().unicode_len() > 0 && !by_its_legs
}

/// Where conditions that count the overnight session stand.
#[derive(Clone, Copy, Debug, PartialEq, Eq, Structural)]
pub enum Overnight {
    /// The order goes on.
    Fine,
    /// The contract's definition is to be asked for first.
    Define,
    /// The order is refused.
    Refused,
}

/// Whether a contract trades on an overnight venue.
pub open spec fn trades_overnight(venues: Seq<String>) -> bool {
    exists|i: int|
        0 <= i < venues.len() && ((#[trigger] venues[i])@ == "OVERNIGHT"@ || venues[i]@
            == "IBEOS"@)
}

fn overnight_venue(venues: &Vec<String>) -> (r: bool)
    ensures
        r == trades_overnight(venues@),
{
    let mut at: usize = 0;
    while at < venues.len()
        invariant
            at <= venues@.len(),
            forall|i: int|
                0 <= i < at ==> (#[trigger] venues@[i])@ != "OVERNIGHT"@ && venues@[i]@
                    != "IBEOS"@,
        decreases venues@.len() - at,
    {
        let venue: &str = venues[at].as_str();
        if *venue == *"OVERNIGHT" || *venue == *"IBEOS" {
            return true;
        }
        at = at + 1;
    }
    false
}

/// Whether an order's conditions ask to count the overnight session. A change
/// is not asked, and an order with no conditions states nothing by it.
pub open spec fn counts_overnight(p: Placement, existing: bool) -> bool {
    !existing && p.order.conditions@.len() > 0 && p.order.conditions_include_overnight
}

/// Where an order's conditions stand: those that count the overnight session
/// are placed only where the logon turned them on and the contract trades on an
/// overnight venue. The definition says where it trades, so one not held is
/// asked for once.
pub open spec fn overnight_standing(
    enabled: bool,
    p: Placement,
    existing: bool,
    venues: Option<Seq<String>>,
    asked: bool,
) -> Overnight {
    if !counts_overnight(p, existing) {
        Overnight::Fine
    } else if enabled && p.contract.con_id != 0 && venues is None && !asked {
        Overnight::Define
    } else if enabled && venues is Some && trades_overnight(venues->Some_0) {
        Overnight::Fine
    } else {
        Overnight::Refused
    }
}

/// The venues a contract's definition lists, where it is held.
pub open spec fn venues_listed(venues: Option<&Vec<String>>) -> Option<Seq<String>> {
    match venues {
        Some(venues) => Some(venues@),
        None => None,
    }
}

/// Hold conditions that count the overnight session against the logon and the
/// contract. `venues` are those the contract's definition lists, where it is
/// held, and `asked` says whether it was asked for.
pub fn check_overnight(
    known: &Known,
    notices: &mut Vec<Notice>,
    p: &Placement,
    existing: bool,
    venues: Option<&Vec<String>>,
    asked: bool,
) -> (standing: Overnight)
    ensures
        standing == overnight_standing(
            known.turned_on("CONDINCOVN"@),
            *p,
            existing,
            venues_listed(venues),
            asked,
        ),
        said(final(notices)@) == (if standing is Refused {
            order_refused(
                said(old(notices)@),
                p.order_id as i64,
                placement_op(existing),
                10371,
                "Conditions include overnight is not supported for this instrument or is not enabled for this account."@,
            )
        } else {
            said(old(notices)@)
        }),
{
    if existing || p.order.conditions.len() == 0 || !p.order.conditions_include_overnight {
        return Overnight::Fine;
    }
    let enabled: bool = known.enables("CONDINCOVN");
    if enabled && p.contract.con_id != 0 && venues.is_none() && !asked {
        return Overnight::Define;
    }
    let overnight: bool = match venues {
        Some(venues) => overnight_venue(venues),
        None => false,
    };
    if enabled && overnight {
        return Overnight::Fine;
    }
    refuse_order(
        notices,
        p.order_id as i64,
        op_of(existing),
        Refusal::stated(
            OVERNIGHT_CONDITIONS,
            "Conditions include overnight is not supported for this instrument or is not enabled for this account.",
        ),
    );
    Overnight::Refused
}

/// The contract an order goes on.
#[derive(Clone, Copy, Debug, PartialEq, Eq, Structural)]
pub enum OnContract {
    /// The one on this slot, which the order it replaces is on.
    Slot(InstrumentId),
    /// The one it names, registered under this number.
    Register(i64),
    /// It is refused.
    Refused,
}

/// What is said of a replacement that names another contract.
pub open spec fn wrong_contract_text(order_id: u64, symbol: Seq<char>) -> Seq<char> {
    "order "@ + digits(order_id as nat)
        + (" is working on another contract, and a replace names the order rather than the contract: withdraw it and place a new order to trade "@
        + symbol)
}

fn wrong_contract(order_id: u64, symbol: &str) -> (why: Refusal)
    ensures
        why.is(105, wrong_contract_text(order_id, symbol@)),
{
    let tail: String = joined(
        " is working on another contract, and a replace names the order rather than the contract: withdraw it and place a new order to trade ",
        symbol,
    );
    let text: String = joined3("order ", uint_text(order_id).as_str(), tail.as_str());
    Refusal::stated(ORDER_DOES_NOT_MATCH, text.as_str())
}

impl IntakeView {
    /// The slot the order a placement replaces was placed on, where it replaces
    /// one placed here.
    pub open spec fn placed_on(self, book: Book, order_id: u64) -> Option<InstrumentId> {
        if self.replaces(book, order_id) && self.placed.dom().contains(order_id) {
            Some(self.placed[order_id].instrument)
        } else {
            None
        }
    }

    /// The contract an order goes on. A replacement names the order and not the
    /// contract, so it stays on the slot it was placed on, and one naming
    /// another contract is refused.
    pub open spec fn contract_for(
        self,
        book: Book,
        order_id: u64,
        contract: Contract,
        on_slot: Option<InstrumentId>,
        same: Option<bool>,
    ) -> OnContract {
        match self.placed_on(book, order_id) {
            Some(placed_on) if contract.con_id != 0 && !contract.combination() => if on_slot
                == Some(placed_on) {
                OnContract::Slot(placed_on)
            } else {
                OnContract::Refused
            },
            _ => if self.replaces(book, order_id) && same == Some(false) {
                OnContract::Refused
            } else {
                OnContract::Register(
                    if contract.combination() {
                        0
                    } else {
                        contract.con_id
                    },
                )
            },
        }
    }
}

/// Whether a placement replaces an order the venue is working.
pub fn is_replacing(intake: &Intake, book: &Book, order_id: u64) -> (replacing: bool)
    ensures
        replacing == intake@.replaces(*book, order_id),
{
    intake.working(book, order_id) && !book.is_waiting_attached(order_id)
}

/// The slot the order a placement replaces was placed on.
pub fn slot_placed_on(intake: &Intake, book: &Book, order_id: u64) -> (slot: Option<InstrumentId>)
    ensures
        slot == intake@.placed_on(*book, order_id),
{
    if is_replacing(intake, book, order_id) {
        match intake.placed.get(&order_id) {
            Some(placed) => Some(placed.instrument),
            None => None,
        }
    } else {
        None
    }
}

/// Settle the contract an order goes on. `on_slot` is the slot the contract it
/// names is held on, where one is, and `same` says whether that is the contract
/// the venue's own book names the order on, where it names one.
pub fn settle_contract(
    intake: &Intake,
    book: &Book,
    notices: &mut Vec<Notice>,
    p: &Placement,
    existing: bool,
    order_id: u64,
    on_slot: Option<InstrumentId>,
    same: Option<bool>,
) -> (on: OnContract)
    ensures
        ({
            let api_id = p.order_id as i64;
            if !(0 <= p.contract.con_id <= u32::MAX) {
                &&& on is Refused
                &&& said(final(notices)@) == order_refused(
                    said(old(notices)@),
                    api_id,
                    placement_op(existing),
                    321,
                    beyond_the_wire_text(p.contract.con_id),
                )
            } else {
                &&& on == intake@.contract_for(*book, order_id, p.contract, on_slot, same)
                &&& said(final(notices)@) == (if on is Refused {
                    order_refused(
                        said(old(notices)@),
                        api_id,
                        OrderOp::Modify,
                        105,
                        wrong_contract_text(order_id, p.contract.symbol@),
                    )
                } else {
                    said(old(notices)@)
                })
            }
        }),
{
    let api_id: i64 = p.order_id as i64;
    match beyond_the_wire(p.contract.con_id) {
        Some(why) => {
            refuse_order(notices, api_id, op_of(existing), why);
            return OnContract::Refused;
        },
        None => {},
    }
    let combination: bool = p.contract.is_combination();
    match slot_placed_on(intake, book, order_id) {
        Some(placed_on) => {
            if p.contract.con_id != 0 && !combination {
                if on_slot == Some(placed_on) {
                    return OnContract::Slot(placed_on);
                }
                refuse_order(
                    notices,
                    api_id,
                    OrderOp::Modify,
                    wrong_contract(order_id, p.contract.symbol.as_str()),
                );
                return OnContract::Refused;
            }
        },
        None => {},
    }
    if is_replacing(intake, book, order_id) && same == Some(false) {
        refuse_order(
            notices,
            api_id,
            OrderOp::Modify,
            wrong_contract(order_id, p.contract.symbol.as_str()),
        );
        return OnContract::Refused;
    }
    OnContract::Register(
        if combination {
            0
        } else {
            p.contract.con_id
        },
    )
}

/// Whether the order one hangs from is a ladder, as it was placed here or as
/// the venue's own book says.
pub open spec fn parent_is_scale(
    view: IntakeView,
    parent: u64,
    reported: Option<bool>,
) -> Option<bool> {
    if view.placed.dom().contains(parent) {
        Some(view.placed[parent].order.is_scale)
    } else {
        reported
    }
}

/// Whether an order shares the group of the order it hangs from. A child of a
/// ladder that takes its profit keeps the group the ladder gave it.
pub open spec fn shares_the_group(
    view: IntakeView,
    order: OrderTerms,
    replacing: bool,
    reported: Option<bool>,
) -> bool {
    let scale = parent_is_scale(view, view.attached.wire_number(order.parent_id), reported);
    !replacing && order.parent_id != 0 && scale is Some && !(scale == Some(true)
        && order.scale_profit_offset is Above)
}

/// Put an order that hangs from another in its parent's group. `reported` says
/// whether the parent is a ladder, where the venue's own book says.
pub fn share_the_group(
    intake: &Intake,
    p: &mut Placement,
    replacing: bool,
    reported: Option<bool>,
)
    ensures
        if shares_the_group(intake@, old(p).order, replacing, reported) {
            &&& final(p).order.oca_group@ == digits(
                intake@.attached.wire_number(old(p).order.parent_id) as nat,
            )
            &&& *final(p) == (Placement {
                order: OrderTerms {
                    oca_group: final(p).order.oca_group,
                    oca_type: if old(p).order.oca_type == 0 {
                        3
                    } else {
                        old(p).order.oca_type
                    },
                    ..old(p).order
                },
                ..*old(p)
            })
        } else {
            *final(p) == *old(p)
        },
{
    if replacing || p.order.parent_id == 0 {
        return;
    }
    let parent: u64 = intake.attached.wire_order_id(p.order.parent_id);
    let scale: Option<bool> = match intake.placed.get(&parent) {
        Some(placed) => Some(placed.order.is_scale),
        None => reported,
    };
    match scale {
        Some(scale) => {
            if !(scale && p.order.scale_profit_offset == Standing::Above) {
                p.order.oca_group = uint_text(parent);
                if p.order.oca_type == 0 {
                    p.order.oca_type = 3;
                }
            }
        },
        None => {},
    }
}

/// The replacement of an order that is restated whole.
pub open spec fn replacement(order: OrderTerms, order_id: u64, built: OrderRequest) -> OrderRequest {
    OrderRequest::Modify {
        order_id,
        price: order.replace_price,
        qty: order.qty,
        outside_rth: order.outside_rth,
        ord_type: order.ord_type,
        tif: order.tif_byte,
        stop_price: order.replace_trigger,
        spec: match built {
            OrderRequest::SubmitEx { kind, attrs, .. } => Some(Box::new(OrderSpec { kind, attrs })),
            _ => None,
        },
    }
}

/// The replacement of an order that is restated whole.
pub fn replacing_with(order: &OrderTerms, order_id: u64, built: OrderRequest) -> (r: OrderRequest)
    ensures
        r == replacement(*order, order_id, built),
{
    let spec: Option<Box<OrderSpec>> = match built {
        OrderRequest::SubmitEx { kind, attrs, .. } => Some(Box::new(OrderSpec { kind, attrs })),
        _ => None,
    };
    OrderRequest::Modify {
        order_id,
        price: order.replace_price,
        qty: order.qty,
        outside_rth: order.outside_rth,
        ord_type: order.ord_type,
        tif: order.tif_byte,
        stop_price: order.replace_trigger,
        spec,
    }
}

/// The instruction an order goes out as, or nothing where it is refused. A
/// replacement is its caller's statement of the order, restated whole: what a
/// gateway refuses in one (`change_refused`) is refused here, and one that
/// cannot be built refuses the replacement.
pub fn settle_command(
    intake: &Intake,
    book: &Book,
    notices: &mut Vec<Notice>,
    p: &Placement,
    order_id: u64,
    instrument: InstrumentId,
    change_refused: Option<Refusal>,
    built: Result<OrderRequest, Refusal>,
) -> (command: Option<OrderRequest>)
    ensures
        ({
            let api_id = p.order_id as i64;
            let before = said(old(notices)@);
            let placed_on = intake@.placed_on(*book, order_id);
            let op = placement_op(intake@.replaces(*book, order_id));
            if intake@.replaces(*book, order_id) && placed_on is Some && placed_on != Some(
                instrument,
            ) {
                &&& command is None
                &&& said(final(notices)@) == order_refused(
                    before,
                    api_id,
                    op,
                    105,
                    wrong_contract_text(order_id, p.contract.symbol@),
                )
            } else if intake@.replaces(*book, order_id) && change_refused is Some {
                &&& command is None
                &&& said(final(notices)@) == order_refused(
                    before,
                    api_id,
                    op,
                    change_refused->Some_0.code,
                    change_refused->Some_0.message@,
                )
            } else {
                match built {
                    Err(why) => {
                        &&& command is None
                        &&& said(final(notices)@) == order_refused(
                            before,
                            api_id,
                            op,
                            why.code,
                            why.message@,
                        )
                    },
                    Ok(built) => {
                        &&& command == Some(
                            if intake@.replaces(*book, order_id) {
                                replacement(p.order, order_id, built)
                            } else {
                                built
                            },
                        )
                        &&& said(final(notices)@) == before
                    },
                }
            }
        }),
{
    let api_id: i64 = p.order_id as i64;
    let replacing: bool = is_replacing(intake, book, order_id);
    let op: OrderOp = op_of(replacing);
    if replacing {
        match slot_placed_on(intake, book, order_id) {
            Some(placed_on) => {
                if placed_on != instrument {
                    refuse_order(
                        notices,
                        api_id,
                        op,
                        wrong_contract(order_id, p.contract.symbol.as_str()),
                    );
                    return None;
                }
            },
            None => {},
        }
        match change_refused {
            Some(why) => {
                refuse_order(notices, api_id, op, why);
                return None;
            },
            None => {},
        }
    }
    match built {
        Err(why) => {
            refuse_order(notices, api_id, op, why);
            None
        },
        Ok(built) => {
            if replacing {
                Some(replacing_with(&p.order, order_id, built))
            } else {
                Some(built)
            }
        },
    }
}

/// Conditions that count the overnight session go out on a new order only where
/// the logon turned them on and the contract trades overnight.
pub proof fn overnight_conditions_go_only_where_taken(
    enabled: bool,
    p: Placement,
    existing: bool,
    venues: Option<Seq<String>>,
    asked: bool,
)
    requires
        counts_overnight(p, existing),
        overnight_standing(enabled, p, existing, venues, asked) is Fine,
    ensures
        enabled,
        venues is Some,
        trades_overnight(venues->Some_0),
{
}

/// A replacement never moves an order to another slot.
pub proof fn a_replacement_stays_on_its_slot(
    view: IntakeView,
    book: Book,
    order_id: u64,
    contract: Contract,
    on_slot: Option<InstrumentId>,
    same: Option<bool>,
)
    requires
        view.placed_on(book, order_id) is Some,
    ensures
        match view.contract_for(book, order_id, contract, on_slot, same) {
            OnContract::Slot(slot) => Some(slot) == view.placed_on(book, order_id),
            _ => true,
        },
{
}

} // verus!
