//! How an exercise is taken, question by question.

use crate::bits::{is_above, whole_part};
use crate::engine::book::Book;
use crate::engine::commands::{Exercise, LookupFilters, Subscription};
use crate::engine::intake::exercise::{
    against_text, check_exercise, exercise_refused, exercise_wants_a_name, exercising_account,
    hold_to_position, is_against, no_more_than, no_position_text, number_exercise,
    number_taken_text, position, refuse_exercise, see_in_the_money, standing_in_the_money,
    wants_a_name, watch_in_the_money, watches_for, weigh_exercise, InTheMoney, Numbering,
    OWN_WATCHES,
};
use crate::engine::intake::naming::{
    lookup_sent, name_order_contract, naming_goes, Naming, OrderNamed,
};
use crate::engine::intake::refuse::beyond_the_wire_text;
use crate::engine::intake::state::{Intake, IntakeView};
use crate::engine::known::{said, Notice, Said};
use crate::text::QTY_SCALE;
use crate::types::orders::{InstrumentId, OrderRequest};
use vstd::prelude::*;

verus! {

/// What an exercise asks next.
#[derive(Clone, Copy, Debug, PartialEq, Eq, Structural)]
#[allow(inconsistent_fields)]
pub enum Stage {
    /// The next number the account has.
    Number,
    /// Its contract's name, where it is to be named.
    Name,
    /// A lookup of its contract, sent to the venue.
    Lookup,
    /// A slot for its contract, registered under its number.
    Register,
    /// The account's position in the option.
    Position { instrument: InstrumentId },
    /// What the venue states of the option's standing in the money.
    Figures { instrument: InstrumentId },
    /// A watch on that standing.
    Watch,
    /// The withdrawal of the watch that was opened for it, where one was.
    Weigh { instrument: InstrumentId, value: u64, attribute: u64, withdraw: Option<i64> },
    /// The instruction it goes out as.
    Build { instrument: InstrumentId },
}

/// Where an exercise stands once it has an answer.
#[derive(Clone, Copy, Debug, PartialEq, Eq, Structural)]
pub enum Turn {
    /// It asks something more.
    Ask(Stage),
    /// It waits on the venue, and is taken again from the beginning.
    Waits,
    /// It is refused, and done.
    Refused,
    /// It went.
    Went,
}

/// The first question of an exercise.
pub fn begin_exercising(e: &Exercise) -> (stage: Stage)
    ensures
        stage == (if e.unnumbered {
            Stage::Number
        } else {
            Stage::Name
        }),
{
    if e.unnumbered {
        Stage::Number
    } else {
        Stage::Name
    }
}

/// Take the number an exercise asked for.
pub fn exercise_numbered(
    e: &mut Exercise,
    book: &Book,
    notices: &mut Vec<Notice>,
    given: Option<u64>,
) -> (turn: Turn)
    ensures
        turn == (if !old(e).unnumbered {
            Turn::Ask(Stage::Name)
        } else if book.replay is None {
            Turn::Waits
        } else if given is None {
            Turn::Refused
        } else {
            Turn::Ask(Stage::Name)
        }),
        *final(e) == (if old(e).unnumbered && book.replay is Some && given is Some {
            Exercise { order_id: given->Some_0, unnumbered: false, ..*old(e) }
        } else {
            *old(e)
        }),
        said(final(notices)@) == (if turn is Refused {
            exercise_refused(
                said(old(notices)@),
                *old(e),
                321,
                "this account has no order id left"@,
            )
        } else {
            said(old(notices)@)
        }),
{
    match number_exercise(e, book, notices, given) {
        Numbering::Numbered => Turn::Ask(Stage::Name),
        Numbering::Waits => Turn::Waits,
        Numbering::Refused => Turn::Refused,
    }
}

/// Whether a turn, and what is said with it, follow from an exercise whose
/// contract is named: it goes on to a slot unless the wire cannot carry it or
/// it states a working order's number.
pub open spec fn follows_check(
    view: IntakeView,
    book: Book,
    e: Exercise,
    turn: Turn,
    before: Seq<Said>,
    after: Seq<Said>,
) -> bool {
    if !(0 <= e.contract.con_id <= u32::MAX) {
        turn is Refused && after == exercise_refused(
            before,
            e,
            321,
            beyond_the_wire_text(e.contract.con_id),
        )
    } else if e.stated && view.works(book, e.order_id) {
        turn is Refused && after == exercise_refused(before, e, 103, number_taken_text(e.req_id))
    } else {
        turn == Turn::Ask(Stage::Register) && after == before
    }
}

fn checked(intake: &Intake, book: &Book, notices: &mut Vec<Notice>, e: &Exercise) -> (turn: Turn)
    ensures
        follows_check(
            intake@,
            *book,
            *e,
            turn,
            said(old(notices)@),
            said(final(notices)@),
        ),
{
    if check_exercise(intake, book, notices, e) {
        Turn::Ask(Stage::Register)
    } else {
        Turn::Refused
    }
}

/// Whether a turn, and what is said with it, follow from naming an exercise's
/// contract.
pub open spec fn follows_naming(
    naming: Naming,
    view: IntakeView,
    book: Book,
    e: Exercise,
    turn: Turn,
    before: Seq<Said>,
    after: Seq<Said>,
) -> bool {
    match naming {
        Naming::Named => follows_check(view, book, e, turn, before, after),
        Naming::Waits => turn is Waits && after == before,
        Naming::Ask => turn == Turn::Ask(Stage::Lookup) && after == before,
        Naming::Refused(why) => turn is Refused && after == exercise_refused(
            before,
            e,
            why.code,
            why.message@,
        ),
    }
}

/// Name an exercise's contract, where it is to be named, and hold it against
/// what the wire carries and what the venue is working.
pub fn name_exercised(
    intake: &mut Intake,
    book: &Book,
    notices: &mut Vec<Notice>,
    answers: &mut Vec<(u32, OrderNamed)>,
    e: &mut Exercise,
    lookup: &mut Option<u32>,
) -> (turn: Turn)
    ensures
        if wants_a_name(*old(e)) {
            exists|naming: Naming|
                {
                    &&& #[trigger] naming_goes(
                        old(intake)@,
                        final(intake)@,
                        old(answers)@,
                        final(answers)@,
                        old(e).contract,
                        final(e).contract,
                        *old(lookup),
                        *final(lookup),
                        naming,
                    )
                    &&& follows_naming(
                        naming,
                        final(intake)@,
                        *book,
                        *final(e),
                        turn,
                        said(old(notices)@),
                        said(final(notices)@),
                    )
                }
        } else {
            &&& follows_check(
                old(intake)@,
                *book,
                *old(e),
                turn,
                said(old(notices)@),
                said(final(notices)@),
            )
            &&& final(intake)@ == old(intake)@
            &&& final(answers)@ == old(answers)@
            &&& *final(e) == *old(e)
            &&& *final(lookup) == *old(lookup)
        },
        *final(e) == (Exercise { contract: final(e).contract, ..*old(e) }),
{
    if !exercise_wants_a_name(e) {
        return checked(intake, book, notices, e);
    }
    let naming: Naming = name_order_contract(intake, answers, &mut e.contract, lookup);
    let ghost went = naming;
    let turn: Turn = match naming {
        Naming::Named => checked(intake, book, notices, e),
        Naming::Waits => Turn::Waits,
        Naming::Ask => Turn::Ask(Stage::Lookup),
        Naming::Refused(why) => {
            refuse_exercise(notices, e, why);
            Turn::Refused
        },
    };
    assert(naming_goes(
        old(intake)@,
        intake@,
        old(answers)@,
        answers@,
        old(e).contract,
        e.contract,
        *old(lookup),
        *lookup,
        went,
    ));
    turn
}

/// Take the number of the lookup that was sent for an exercise's contract, or
/// refuse it where none could be.
pub fn exercise_lookup_made(
    intake: &mut Intake,
    notices: &mut Vec<Notice>,
    e: &Exercise,
    lookup: &mut Option<u32>,
    asked: Option<u32>,
) -> (turn: Turn)
    ensures
        match asked {
            Some(number) => {
                &&& turn is Waits
                &&& *final(lookup) == Some(number)
                &&& final(intake)@ == (IntakeView {
                    naming: old(intake)@.naming.insert(e.contract.naming_key(), number),
                    ..old(intake)@
                })
                &&& said(final(notices)@) == said(old(notices)@)
            },
            None => {
                &&& turn is Refused
                &&& *final(lookup) == *old(lookup)
                &&& final(intake)@ == old(intake)@
                &&& said(final(notices)@) == exercise_refused(
                    said(old(notices)@),
                    *e,
                    504,
                    "the order's contract could not be named: there is no connection to the venue to ask on"@,
                )
            },
        },
{
    match lookup_sent(intake, &e.contract, lookup, asked) {
        Ok(()) => Turn::Waits,
        Err(why) => {
            refuse_exercise(notices, e, why);
            Turn::Refused
        },
    }
}

/// Take the slot an exercise's contract was registered on.
pub fn exercise_registered(instrument: InstrumentId) -> (stage: Stage)
    ensures
        stage == (Stage::Position { instrument }),
{
    Stage::Position { instrument }
}

/// Hold an exercise to the position the account has.
pub fn exercise_held(
    session: &str,
    notices: &mut Vec<Notice>,
    e: &mut Exercise,
    watch: Option<i64>,
    instrument: InstrumentId,
    row: Option<u64>,
    on_slot: u64,
) -> (turn: Turn)
    ensures
        turn == (if watch is Some || is_above(position(row, on_slot)) {
            Turn::Ask(Stage::Figures { instrument })
        } else {
            Turn::Refused
        }),
        *final(e) == (if watch is None && is_above(position(row, on_slot)) {
            Exercise {
                qty: no_more_than(
                    old(e).qty,
                    whole_part(position(row, on_slot)) * QTY_SCALE,
                ) as i64,
                ..*old(e)
            }
        } else {
            *old(e)
        }),
        said(final(notices)@) == (if turn is Refused {
            exercise_refused(
                said(old(notices)@),
                *old(e),
                322,
                no_position_text(exercising_account(session@, *old(e))),
            )
        } else {
            said(old(notices)@)
        }),
{
    if hold_to_position(session, notices, e, watch.is_some(), row, on_slot) {
        Turn::Ask(Stage::Figures { instrument })
    } else {
        Turn::Refused
    }
}

/// What an exercise asks once what the venue states is seen.
pub open spec fn once_seen(known: InTheMoney, instrument: InstrumentId) -> Turn {
    match known {
        InTheMoney::Stated { value, attribute, withdraw } => Turn::Ask(
            Stage::Weigh { instrument, value, attribute, withdraw },
        ),
        InTheMoney::Watch => Turn::Ask(Stage::Watch),
        InTheMoney::Waits => Turn::Waits,
        InTheMoney::Stopping => Turn::Refused,
    }
}

/// See what the venue states of the option's standing in the money.
pub fn figures_seen(
    notices: &mut Vec<Notice>,
    e: &Exercise,
    watch: &mut Option<i64>,
    instrument: InstrumentId,
    figures: &Vec<u64>,
    finishing: bool,
) -> (turn: Turn)
    ensures
        turn == once_seen(standing_in_the_money(*old(watch), figures@, finishing), instrument),
        *final(watch) == (if turn matches Turn::Ask(Stage::Weigh { .. }) {
            None
        } else {
            *old(watch)
        }),
        said(final(notices)@) == (if turn is Refused {
            exercise_refused(
                said(old(notices)@),
                *e,
                504,
                "the engine stopped before this order reached the venue, so it was never placed"@,
            )
        } else {
            said(old(notices)@)
        }),
{
    match see_in_the_money(notices, e, watch, figures, finishing) {
        InTheMoney::Stated { value, attribute, withdraw } => Turn::Ask(
            Stage::Weigh { instrument, value, attribute, withdraw },
        ),
        InTheMoney::Watch => Turn::Ask(Stage::Watch),
        InTheMoney::Waits => Turn::Waits,
        InTheMoney::Stopping => Turn::Refused,
    }
}

/// Open a watch on the option's standing in the money, and wait on it.
pub fn watch_opened(
    own_watches: &mut i64,
    e: &Exercise,
    watch: &mut Option<i64>,
    filters: LookupFilters,
) -> (request: Subscription)
    requires
        0 <= *old(own_watches) < i64::MAX - OWN_WATCHES,
    ensures
        *final(own_watches) == *old(own_watches) + 1,
        *final(watch) == Some((OWN_WATCHES + *final(own_watches)) as i64),
        watches_for(request, (OWN_WATCHES + *final(own_watches)) as i64, *e, filters),
{
    let request: Subscription = watch_in_the_money(own_watches, e, filters);
    *watch = Some(request.req_id);
    request
}

/// Hold an exercise against the natural action, now that no watch of its own is
/// open.
pub fn exercise_weighed(
    notices: &mut Vec<Notice>,
    e: &Exercise,
    instrument: InstrumentId,
    value: u64,
    attribute: u64,
) -> (turn: Turn)
    ensures
        turn == (if is_against(e.action, e.override_, value, attribute) {
            Turn::Refused
        } else {
            Turn::Ask(Stage::Build { instrument })
        }),
        said(final(notices)@) == (if turn is Refused {
            exercise_refused(said(old(notices)@), *e, 322, against_text(e.action))
        } else {
            said(old(notices)@)
        }),
{
    if weigh_exercise(notices, e, value, attribute) {
        Turn::Ask(Stage::Build { instrument })
    } else {
        Turn::Refused
    }
}

/// Send an exercise on. `built` is the instruction it goes out as, built from
/// its terms.
pub fn exercise_built(pending: &mut Vec<OrderRequest>, built: OrderRequest) -> (turn: Turn)
    ensures
        turn is Went,
        final(pending)@ == old(pending)@.push(built),
{
    pending.push(built);
    Turn::Went
}

} // verus!
