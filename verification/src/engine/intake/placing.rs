//! How a placement is taken, question by question.
//!
//! What the venue, the account's numbers or the order's builder must say is
//! asked for one thing at a time, and each answer leads to the next question,
//! to a wait, or to the end.

use crate::engine::book::Book;
use crate::engine::commands::Placement;
use crate::engine::intake::framing::Framing;
use crate::engine::intake::naming::{
    lookup_sent, name_order_contract, naming_goes, Naming, OrderNamed,
};
use crate::engine::intake::placement::{
    check_number, check_overnight, contract_wants_a_name, highest_known, is_replacing,
    number_allotted, op_of, open_placement, order_refused, overnight_standing, past_highest_text,
    placement_op, placement_wants_a_name, refuse_order, replacement, settle_command,
    settle_contract, share_the_group, shares_the_group, venues_listed, wrong_contract_text, Number,
    OnContract, Overnight, MAX_ORDER_ID,
};
use crate::engine::intake::refuse::beyond_the_wire_text;
use crate::engine::intake::state::{Intake, IntakeView};
use crate::engine::intake::take::{placement_taken, take_placement, Prepared, Taken};
use crate::engine::known::{said, Known, Notice, Said};
use crate::error_codes::Refusal;
use crate::text::{decimal, digits};
use crate::types::contract::{Contract, OrderTerms};
use crate::types::orders::{InstrumentId, OrderOp, OrderRequest};
use vstd::prelude::*;

verus! {

/// What a placement asks next. `existing` says whether its number names an
/// order there is, and `order_id` is the number it goes out under.
#[derive(Debug, PartialEq)]
#[allow(inconsistent_fields)]
pub enum Stage {
    /// Whether its numbers may be used, counted from the highest known.
    Ids { existing: bool, highest: i64 },
    /// The number it goes out under.
    Allot { existing: bool },
    /// Its contract's name, where it is to be named.
    Name { existing: bool, order_id: u64 },
    /// A lookup of its contract, sent to the venue.
    Lookup { existing: bool },
    /// The venues its contract's definition lists.
    Venues { existing: bool, order_id: u64, asked: bool },
    /// What it is to be attached is loaded.
    Load { existing: bool, order_id: u64 },
    /// The slot its contract is on, and whether the order it changes is on it.
    Contract { existing: bool, order_id: u64, loaded: bool },
    /// A slot for its contract, registered under a number.
    Register { existing: bool, order_id: u64, loaded: bool, con_id: i64 },
    /// Whether the order it hangs from is a ladder of components.
    Group { existing: bool, order_id: u64, loaded: bool, instrument: InstrumentId },
    /// The instruction it is built as.
    Build { existing: bool, order_id: u64, loaded: bool, instrument: InstrumentId },
    /// What is attached to it, and how its family is framed.
    Prepare {
        existing: bool,
        order_id: u64,
        loaded: bool,
        instrument: InstrumentId,
        command: OrderRequest,
    },
}

/// Where a placement stands once it has an answer.
#[derive(Debug)]
pub enum Turn {
    /// It asks something more.
    Ask(Stage),
    /// It waits on the venue, and is taken again from the beginning.
    Waits,
    /// It is refused, and done.
    Refused,
    /// It is taken.
    Took(Taken),
}

/// What became of loading what an order is to be attached.
#[derive(Debug, PartialEq)]
#[allow(inconsistent_fields)]
pub enum Loading {
    /// It is not in yet.
    Pending,
    /// It cannot be had.
    Refused(Refusal),
    /// It is in, and this is the quantity the order is created with.
    Ready { qty: i64 },
}

/// The first question of a placement: whether its numbers may be used, unless
/// it has the number it goes out under.
pub open spec fn first_stage(
    view: IntakeView,
    book: Book,
    p: Placement,
    wire_id: Option<u64>,
) -> Stage {
    let existing = view.names_an_order(book, book.wire_number(p.order_id));
    match wire_id {
        Some(order_id) => Stage::Name { existing, order_id },
        None => Stage::Ids {
            existing,
            highest: if p.order.what_if || book.highest_used as i64 <= view.attached.highest {
                view.attached.highest
            } else {
                book.highest_used as i64
            },
        },
    }
}

/// Begin to take a placement: it carries its caller's own number and client
/// from here on.
pub fn begin_placing(intake: &Intake, book: &Book, p: &mut Placement, wire_id: Option<u64>) -> (stage:
    Stage)
    ensures
        *final(p) == (Placement {
            order: OrderTerms {
                order_id: old(p).order_id as i64,
                client_id: book.client_id,
                ..old(p).order
            },
            ..*old(p)
        }),
        stage == first_stage(intake@, *book, *old(p), wire_id),
{
    let existing: bool = open_placement(intake, book, p);
    match wire_id {
        Some(order_id) => Stage::Name { existing, order_id },
        None => Stage::Ids { existing, highest: highest_known(intake, book, p.order.what_if) },
    }
}

/// Why a placement's number cannot be used, with the code it is said under.
pub open spec fn number_refused(
    book: Book,
    p: Placement,
    existing: bool,
    ids: Result<bool, Refusal>,
) -> Option<(i32, Seq<char>)> {
    let order_id = book.wire_number(p.order_id);
    let api_id = p.order_id as i64;
    match ids {
        Err(why) => Some((why.code, why.message@)),
        Ok(reusable) => if !existing && book.has_finished(order_id) && !reusable {
            Some((103i32, "Duplicate order id: "@ + decimal(api_id as int)))
        } else if order_id > MAX_ORDER_ID {
            Some((321i32, past_highest_text(api_id)))
        } else {
            None
        },
    }
}

/// Take the judgment of a placement's numbers.
pub fn ids_judged(
    book: &Book,
    notices: &mut Vec<Notice>,
    p: &Placement,
    existing: bool,
    ids: Result<bool, Refusal>,
) -> (turn: Turn)
    ensures
        match number_refused(*book, *p, existing, ids) {
            Some((code, text)) => {
                &&& turn is Refused
                &&& said(final(notices)@) == order_refused(
                    said(old(notices)@),
                    p.order_id as i64,
                    placement_op(existing),
                    code,
                    text,
                )
            },
            None => {
                &&& turn == Turn::Ask(Stage::Allot { existing })
                &&& said(final(notices)@) == said(old(notices)@)
            },
        },
{
    match check_number(book, notices, p, existing, None, ids) {
        Number::Refused => Turn::Refused,
        _ => Turn::Ask(Stage::Allot { existing }),
    }
}

/// Take the number a placement goes out under.
pub fn number_given(
    notices: &mut Vec<Notice>,
    p: &Placement,
    existing: bool,
    wire_id: &mut Option<u64>,
    allotted: Option<u64>,
) -> (turn: Turn)
    ensures
        match allotted {
            Some(order_id) => {
                &&& turn == Turn::Ask(Stage::Name { existing, order_id })
                &&& *final(wire_id) == Some(order_id)
                &&& said(final(notices)@) == said(old(notices)@)
            },
            None => {
                &&& turn is Refused
                &&& *final(wire_id) == *old(wire_id)
                &&& said(final(notices)@) == order_refused(
                    said(old(notices)@),
                    p.order_id as i64,
                    placement_op(existing),
                    321,
                    "No venue order identifier is available"@,
                )
            },
        },
{
    let goes: bool = number_allotted(notices, p, existing, wire_id, allotted);
    match allotted {
        Some(order_id) => {
            assert(goes);
            Turn::Ask(Stage::Name { existing, order_id })
        },
        None => Turn::Refused,
    }
}

/// Whether a turn, and what is said with it, follow from naming a contract:
/// the placement goes on once it is named, waits for a lookup, asks for one, or
/// is refused as the lookup was.
pub open spec fn follows_naming(
    naming: Naming,
    turn: Turn,
    next: Stage,
    p: Placement,
    existing: bool,
    before: Seq<Said>,
    after: Seq<Said>,
) -> bool {
    match naming {
        Naming::Named => turn == Turn::Ask(next) && after == before,
        Naming::Waits => turn is Waits && after == before,
        Naming::Ask => turn == Turn::Ask(Stage::Lookup { existing }) && after == before,
        Naming::Refused(why) => turn is Refused && after == order_refused(
            before,
            p.order_id as i64,
            placement_op(existing),
            why.code,
            why.message@,
        ),
    }
}

fn follow(notices: &mut Vec<Notice>, p: &Placement, existing: bool, naming: Naming, next: Stage) -> (
turn: Turn)
    ensures
        follows_naming(
            naming,
            turn,
            next,
            *p,
            existing,
            said(old(notices)@),
            said(final(notices)@),
        ),
{
    match naming {
        Naming::Named => Turn::Ask(next),
        Naming::Waits => Turn::Waits,
        Naming::Ask => Turn::Ask(Stage::Lookup { existing }),
        Naming::Refused(why) => {
            refuse_order(notices, p.order_id as i64, op_of(existing), why);
            Turn::Refused
        },
    }
}

/// Name a placement's contract, where it is to be named.
pub fn name_it(
    intake: &mut Intake,
    notices: &mut Vec<Notice>,
    answers: &mut Vec<(u32, OrderNamed)>,
    p: &mut Placement,
    lookup: &mut Option<u32>,
    existing: bool,
    order_id: u64,
) -> (turn: Turn)
    ensures
        ({
            let next = Stage::Venues { existing, order_id, asked: false };
            if contract_wants_a_name(old(intake)@, *old(p), order_id) {
                exists|naming: Naming|
                    {
                        &&& #[trigger] naming_goes(
                            old(intake)@,
                            final(intake)@,
                            old(answers)@,
                            final(answers)@,
                            old(p).contract,
                            final(p).contract,
                            *old(lookup),
                            *final(lookup),
                            naming,
                        )
                        &&& follows_naming(
                            naming,
                            turn,
                            next,
                            *old(p),
                            existing,
                            said(old(notices)@),
                            said(final(notices)@),
                        )
                    }
            } else {
                &&& turn == Turn::Ask(next)
                &&& final(intake)@ == old(intake)@
                &&& final(answers)@ == old(answers)@
                &&& final(p).contract == old(p).contract
                &&& *final(lookup) == *old(lookup)
                &&& said(final(notices)@) == said(old(notices)@)
            }
        }),
        *final(p) == (Placement { contract: final(p).contract, ..*old(p) }),
{
    let next: Stage = Stage::Venues { existing, order_id, asked: false };
    if !placement_wants_a_name(intake, p, order_id) {
        return Turn::Ask(next);
    }
    let naming: Naming = name_order_contract(intake, answers, &mut p.contract, lookup);
    let ghost went = naming;
    let turn: Turn = follow(notices, p, existing, naming, next);
    assert(naming_goes(
        old(intake)@,
        intake@,
        old(answers)@,
        answers@,
        old(p).contract,
        p.contract,
        *old(lookup),
        *lookup,
        went,
    ));
    turn
}

/// Take the number of the lookup that was sent for a placement's contract, or
/// refuse it where none could be.
pub fn lookup_made(
    intake: &mut Intake,
    notices: &mut Vec<Notice>,
    p: &Placement,
    lookup: &mut Option<u32>,
    existing: bool,
    asked: Option<u32>,
) -> (turn: Turn)
    ensures
        match asked {
            Some(number) => {
                &&& turn is Waits
                &&& *final(lookup) == Some(number)
                &&& final(intake)@ == (IntakeView {
                    naming: old(intake)@.naming.insert(p.contract.naming_key(), number),
                    ..old(intake)@
                })
                &&& said(final(notices)@) == said(old(notices)@)
            },
            None => {
                &&& turn is Refused
                &&& *final(lookup) == *old(lookup)
                &&& final(intake)@ == old(intake)@
                &&& said(final(notices)@) == order_refused(
                    said(old(notices)@),
                    p.order_id as i64,
                    placement_op(existing),
                    504,
                    "the order's contract could not be named: there is no connection to the venue to ask on"@,
                )
            },
        },
{
    match lookup_sent(intake, &p.contract, lookup, asked) {
        Ok(()) => Turn::Waits,
        Err(why) => {
            refuse_order(notices, p.order_id as i64, op_of(existing), why);
            Turn::Refused
        },
    }
}

/// What a placement asks once its conditions may stand: what it is to be
/// attached, where it is new and asks for it, and its contract's slot
/// otherwise.
pub open spec fn once_conditions_stand(p: Placement, existing: bool, order_id: u64) -> Stage {
    if p.order.attaches && !existing {
        Stage::Load { existing, order_id }
    } else {
        Stage::Contract { existing, order_id, loaded: false }
    }
}

/// Hold a placement's conditions against the logon and the venues its
/// contract's definition lists. One not held is asked for, once.
pub fn venues_listed_as(
    intake: &mut Intake,
    known: &Known,
    notices: &mut Vec<Notice>,
    answers: &mut Vec<(u32, OrderNamed)>,
    p: &Placement,
    lookup: &mut Option<u32>,
    existing: bool,
    order_id: u64,
    asked: bool,
    venues: Option<&Vec<String>>,
) -> (turn: Turn)
    ensures
        ({
            let standing = overnight_standing(
                known.turned_on("CONDINCOVN"@),
                *p,
                existing,
                venues_listed(venues),
                asked,
            );
            if standing is Define {
                exists|naming: Naming, found: Contract|
                    {
                        &&& #[trigger] naming_goes(
                            old(intake)@,
                            final(intake)@,
                            old(answers)@,
                            final(answers)@,
                            p.contract,
                            found,
                            *old(lookup),
                            *final(lookup),
                            naming,
                        )
                        &&& follows_naming(
                            naming,
                            turn,
                            Stage::Venues { existing, order_id, asked: true },
                            *p,
                            existing,
                            said(old(notices)@),
                            said(final(notices)@),
                        )
                    }
            } else {
                &&& final(intake)@ == old(intake)@
                &&& final(answers)@ == old(answers)@
                &&& *final(lookup) == *old(lookup)
                &&& if standing is Fine {
                    &&& turn == Turn::Ask(once_conditions_stand(*p, existing, order_id))
                    &&& said(final(notices)@) == said(old(notices)@)
                } else {
                    &&& turn is Refused
                    &&& said(final(notices)@) == order_refused(
                        said(old(notices)@),
                        p.order_id as i64,
                        placement_op(existing),
                        10371,
                        "Conditions include overnight is not supported for this instrument or is not enabled for this account."@,
                    )
                }
            }
        }),
{
    match check_overnight(known, notices, p, existing, venues, asked) {
        Overnight::Fine => if p.order.attaches && !existing {
            Turn::Ask(Stage::Load { existing, order_id })
        } else {
            Turn::Ask(Stage::Contract { existing, order_id, loaded: false })
        },
        Overnight::Refused => Turn::Refused,
        Overnight::Define => {
            let mut found: Contract = p.contract.clone();
            let naming: Naming = name_order_contract(intake, answers, &mut found, lookup);
            let ghost went = naming;
            let next: Stage = Stage::Venues { existing, order_id, asked: true };
            let turn: Turn = follow(notices, p, existing, naming, next);
            assert(naming_goes(
                old(intake)@,
                intake@,
                old(answers)@,
                answers@,
                p.contract,
                found,
                *old(lookup),
                *lookup,
                went,
            ));
            turn
        },
    }
}

/// Take what became of loading what a placement is to be attached.
pub fn loading_went(
    notices: &mut Vec<Notice>,
    p: &mut Placement,
    existing: bool,
    order_id: u64,
    loading: Loading,
) -> (turn: Turn)
    ensures
        match loading {
            Loading::Pending => {
                &&& turn is Waits
                &&& *final(p) == *old(p)
                &&& said(final(notices)@) == said(old(notices)@)
            },
            Loading::Refused(why) => {
                &&& turn is Refused
                &&& *final(p) == *old(p)
                &&& said(final(notices)@) == order_refused(
                    said(old(notices)@),
                    old(p).order_id as i64,
                    placement_op(existing),
                    why.code,
                    why.message@,
                )
            },
            Loading::Ready { qty } => {
                &&& turn == Turn::Ask(Stage::Contract { existing, order_id, loaded: true })
                &&& *final(p) == (Placement {
                    order: OrderTerms { qty, ..old(p).order },
                    ..*old(p)
                })
                &&& said(final(notices)@) == said(old(notices)@)
            },
        },
{
    match loading {
        Loading::Pending => Turn::Waits,
        Loading::Refused(why) => {
            refuse_order(notices, p.order_id as i64, op_of(existing), why);
            Turn::Refused
        },
        Loading::Ready { qty } => {
            p.order.qty = qty;
            Turn::Ask(Stage::Contract { existing, order_id, loaded: true })
        },
    }
}

/// What a placement asks once its contract is settled.
pub open spec fn once_settled(
    on: OnContract,
    existing: bool,
    order_id: u64,
    loaded: bool,
) -> Turn {
    match on {
        OnContract::Slot(instrument) => Turn::Ask(
            Stage::Group { existing, order_id, loaded, instrument },
        ),
        OnContract::Register(con_id) => Turn::Ask(
            Stage::Register { existing, order_id, loaded, con_id },
        ),
        OnContract::Refused => Turn::Refused,
    }
}

/// Settle the contract a placement goes on, before anything is registered.
pub fn contract_settled(
    intake: &Intake,
    book: &Book,
    notices: &mut Vec<Notice>,
    p: &Placement,
    existing: bool,
    order_id: u64,
    loaded: bool,
    on_slot: Option<InstrumentId>,
    same: Option<bool>,
) -> (turn: Turn)
    ensures
        if !(0 <= p.contract.con_id <= u32::MAX) {
            &&& turn is Refused
            &&& said(final(notices)@) == order_refused(
                said(old(notices)@),
                p.order_id as i64,
                placement_op(existing),
                321,
                beyond_the_wire_text(p.contract.con_id),
            )
        } else {
            let on = intake@.contract_for(*book, order_id, p.contract, on_slot, same);
            &&& turn == once_settled(on, existing, order_id, loaded)
            &&& said(final(notices)@) == (if on is Refused {
                order_refused(
                    said(old(notices)@),
                    p.order_id as i64,
                    OrderOp::Modify,
                    105,
                    wrong_contract_text(order_id, p.contract.symbol@),
                )
            } else {
                said(old(notices)@)
            })
        },
{
    match settle_contract(intake, book, notices, p, existing, order_id, on_slot, same) {
        OnContract::Slot(instrument) => Turn::Ask(
            Stage::Group { existing, order_id, loaded, instrument },
        ),
        OnContract::Register(con_id) => Turn::Ask(
            Stage::Register { existing, order_id, loaded, con_id },
        ),
        OnContract::Refused => Turn::Refused,
    }
}

/// Take the slot a placement's contract was registered on.
pub fn registered(existing: bool, order_id: u64, loaded: bool, instrument: InstrumentId) -> (stage:
    Stage)
    ensures
        stage == (Stage::Group { existing, order_id, loaded, instrument }),
{
    Stage::Group { existing, order_id, loaded, instrument }
}

/// Put a placement in its parent's group, where it shares it. `reported` says
/// whether the venue's book names the parent as a ladder of components.
pub fn group_settled(
    intake: &Intake,
    book: &Book,
    p: &mut Placement,
    existing: bool,
    order_id: u64,
    loaded: bool,
    instrument: InstrumentId,
    reported: Option<bool>,
) -> (stage: Stage)
    ensures
        stage == (Stage::Build { existing, order_id, loaded, instrument }),
        if shares_the_group(
            intake@,
            old(p).order,
            intake@.replaces(*book, order_id),
            reported,
        ) {
            &&& final(p).order.oca_group@ == digits(
                intake@.attached.wire_number(old(p).order.parent_id) as nat,
            )
            &&& *final(p) == (Placement {
                order: OrderTerms {
                    oca_group: final(p).order.oca_group,
                    oca_type: if old(p).order.oca_type == 0 {
                        3
                    } else {
                        old(p).order.oca_type
                    },
                    ..old(p).order
                },
                ..*old(p)
            })
        } else {
            *final(p) == *old(p)
        },
{
    let replacing: bool = is_replacing(intake, book, order_id);
    share_the_group(intake, p, replacing, reported);
    Stage::Build { existing, order_id, loaded, instrument }
}

/// Why a placement cannot be built, with the code it is said under.
pub open spec fn command_refused(
    view: IntakeView,
    book: Book,
    p: Placement,
    order_id: u64,
    instrument: InstrumentId,
    change_refused: Option<Refusal>,
    built: Result<OrderRequest, Refusal>,
) -> Option<(i32, Seq<char>)> {
    let replacing = view.replaces(book, order_id);
    let placed_on = view.placed_on(book, order_id);
    if replacing && placed_on is Some && placed_on != Some(instrument) {
        Some((105i32, wrong_contract_text(order_id, p.contract.symbol@)))
    } else if replacing && change_refused is Some {
        Some((change_refused->Some_0.code, change_refused->Some_0.message@))
    } else {
        match built {
            Err(why) => Some((why.code, why.message@)),
            Ok(_) => None,
        }
    }
}

/// Take the instruction a placement is built as.
pub fn command_built(
    intake: &Intake,
    book: &Book,
    notices: &mut Vec<Notice>,
    p: &Placement,
    existing: bool,
    order_id: u64,
    loaded: bool,
    instrument: InstrumentId,
    change_refused: Option<Refusal>,
    built: Result<OrderRequest, Refusal>,
) -> (turn: Turn)
    ensures
        ({
            let replacing = intake@.replaces(*book, order_id);
            match command_refused(
                intake@,
                *book,
                *p,
                order_id,
                instrument,
                change_refused,
                built,
            ) {
                Some((code, text)) => {
                    &&& turn is Refused
                    &&& said(final(notices)@) == order_refused(
                        said(old(notices)@),
                        p.order_id as i64,
                        placement_op(replacing),
                        code,
                        text,
                    )
                },
                None => {
                    &&& turn == Turn::Ask(
                        Stage::Prepare {
                            existing,
                            order_id,
                            loaded,
                            instrument,
                            command: if replacing {
                                replacement(p.order, order_id, built->Ok_0)
                            } else {
                                built->Ok_0
                            },
                        },
                    )
                    &&& said(final(notices)@) == said(old(notices)@)
                },
            }
        }),
{
    match settle_command(
        intake,
        book,
        notices,
        p,
        order_id,
        instrument,
        change_refused,
        built,
    ) {
        Some(command) => Turn::Ask(
            Stage::Prepare { existing, order_id, loaded, instrument, command },
        ),
        None => Turn::Refused,
    }
}

/// What is attached to an order: nothing where nothing was loaded.
pub open spec fn attached_to(loaded: bool, prepared: Option<Prepared>) -> Option<Prepared> {
    if loaded {
        prepared
    } else {
        None
    }
}

/// Take a placement, with what is attached to it.
pub fn prepared_with(
    intake: &mut Intake,
    notices: &mut Vec<Notice>,
    book: &Book,
    p: &Placement,
    existing: bool,
    order_id: u64,
    loaded: bool,
    instrument: InstrumentId,
    command: OrderRequest,
    prepared: Result<Option<Prepared>, Refusal>,
    framing: &Framing,
) -> (turn: Turn)
    ensures
        match prepared {
            Err(why) => if loaded {
                &&& turn is Refused
                &&& final(intake)@ == old(intake)@
                &&& said(final(notices)@) == order_refused(
                    said(old(notices)@),
                    p.order_id as i64,
                    placement_op(existing),
                    why.code,
                    why.message@,
                )
            } else {
                taken_with(
                    old(intake)@,
                    final(intake)@,
                    said(old(notices)@),
                    said(final(notices)@),
                    *book,
                    *p,
                    existing,
                    order_id,
                    instrument,
                    command,
                    None,
                    *framing,
                    turn,
                )
            },
            Ok(prepared) => taken_with(
                old(intake)@,
                final(intake)@,
                said(old(notices)@),
                said(final(notices)@),
                *book,
                *p,
                existing,
                order_id,
                instrument,
                command,
                attached_to(loaded, prepared),
                *framing,
                turn,
            ),
        },
{
    let attached: Option<Prepared> = match prepared {
        Ok(prepared) => if loaded {
            prepared
        } else {
            None
        },
        Err(why) => {
            if loaded {
                refuse_order(notices, p.order_id as i64, op_of(existing), why);
                return Turn::Refused;
            }
            None
        },
    };
    Turn::Took(
        take_placement(
            intake,
            notices,
            book,
            p,
            order_id,
            instrument,
            op_of(existing),
            command,
            attached,
            framing,
        ),
    )
}

/// Whether a placement is taken as it was built.
pub open spec fn taken_with(
    before: IntakeView,
    after: IntakeView,
    said_before: Seq<Said>,
    said_after: Seq<Said>,
    book: Book,
    p: Placement,
    existing: bool,
    order_id: u64,
    instrument: InstrumentId,
    built: OrderRequest,
    prepared: Option<Prepared>,
    framing: Framing,
    turn: Turn,
) -> bool {
    &&& turn is Took
    &&& exists|command: OrderRequest, framed: Seq<OrderRequest>| #[trigger]
        placement_taken(
            before,
            after,
            said_before,
            said_after,
            book,
            p,
            order_id,
            instrument,
            placement_op(existing),
            built,
            prepared,
            framing,
            turn->Took_0,
            command,
            framed,
        )
}

/// Naming a contract records no order, whether it is named, asked for or
/// refused: what is placed, kept, attached and waiting is what it was.
pub proof fn naming_a_contract_records_no_order(
    before: IntakeView,
    after: IntakeView,
    answers: Seq<(u32, OrderNamed)>,
    left: Seq<(u32, OrderNamed)>,
    contract: Contract,
    named: Contract,
    lookup: Option<u32>,
    next: Option<u32>,
    naming: Naming,
)
    requires
        naming_goes(before, after, answers, left, contract, named, lookup, next, naming),
    ensures
        after.placed == before.placed,
        after.kept == before.kept,
        after.attached == before.attached,
        after.waiting == before.waiting,
{
}

} // verus!
