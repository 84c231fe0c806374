//! Naming a contract before an order or an exercise registers it.

use crate::engine::intake::state::{Intake, IntakeView};
use crate::error_codes::Refusal;
use crate::types::attrs::shared_copy;
use crate::types::contract::Contract;
use vstd::prelude::*;

verus! {

/// What the venue answered a lookup with.
#[derive(Debug, PartialEq)]
pub enum OrderNamed {
    /// The one contract that was described.
    Contract(Box<Contract>),
    /// None, or more than one, in words.
    Unnamed(String),
    /// A refusal of the lookup.
    Refused(i32, String),
}

/// Where the naming of a contract stands.
#[derive(Debug, PartialEq)]
pub enum Naming {
    /// The contract is named.
    Named,
    /// A lookup is out.
    Waits,
    /// A lookup is to be sent.
    Ask,
    /// It cannot be named.
    Refused(Refusal),
}

/// Where an answer to a lookup first stands in a list.
pub open spec fn answered_at(answers: Seq<(u32, OrderNamed)>, asked: u32) -> Option<int>
    decreases answers.len(),
{
    if answers.len() == 0 {
        None
    } else {
        match answered_at(answers.drop_last(), asked) {
            Some(at) => Some(at),
            None => if answers.last().0 == asked {
                Some(answers.len() - 1)
            } else {
                None
            },
        }
    }
}

proof fn first_answer(answers: Seq<(u32, OrderNamed)>, asked: u32, at: int)
    requires
        0 <= at <= answers.len(),
        forall|i: int| 0 <= i < at ==> (#[trigger] answers[i]).0 != asked,
        at < answers.len() ==> answers[at].0 == asked,
    ensures
        answered_at(answers, asked) == (if at < answers.len() {
            Some(at)
        } else {
            None::<int>
        }),
    decreases answers.len(),
{
    if answers.len() > 0 {
        let before = answers.drop_last();
        if at < answers.len() - 1 {
            assert(before[at] == answers[at]);
            first_answer(before, asked, at);
        } else {
            assert forall|i: int| 0 <= i < before.len() implies (#[trigger] before[i]).0
                != asked by {
                assert(before[i] == answers[i]);
            }
            first_answer(before, asked, before.len() as int);
        }
    }
}

/// Whether a refusal is what the venue answered a lookup with.
pub open spec fn refuses_as(why: Refusal, answer: OrderNamed) -> bool {
    match answer {
        OrderNamed::Contract(_) => false,
        OrderNamed::Unnamed(text) => why.is(200, text@),
        OrderNamed::Refused(code, text) => why.is(code as int, text@),
    }
}

/// Whether an outcome, and what is held after it, are those of naming a
/// contract.
pub open spec fn naming_goes(
    before: IntakeView,
    after: IntakeView,
    answers: Seq<(u32, OrderNamed)>,
    left: Seq<(u32, OrderNamed)>,
    contract: Contract,
    named: Contract,
    lookup: Option<u32>,
    next: Option<u32>,
    naming: Naming,
) -> bool {
    let key = contract.naming_key();
    if before.named.dom().contains(key) {
        &&& naming is Named
        &&& named == before.named[key].with_what_was_stated(contract)
        &&& after == before && left == answers && next == lookup
    } else {
        match lookup {
            None => if before.naming.dom().contains(key) {
                &&& naming is Waits
                &&& next == Some(before.naming[key])
                &&& after == before && left == answers && named == contract
            } else {
                &&& naming is Ask
                &&& after == before && left == answers && named == contract && next == lookup
            },
            Some(asked) => if before.unnamed.dom().contains(asked) {
                &&& naming == Naming::Refused(before.unnamed[asked])
                &&& after == before && left == answers && named == contract && next == lookup
            } else {
                match answered_at(answers, asked) {
                    None => {
                        &&& naming is Waits
                        &&& after == before && left == answers && named == contract && next
                            == lookup
                    },
                    Some(at) => {
                        &&& next == lookup
                        &&& left == answers.remove(at)
                        &&& match answers[at].1 {
                            OrderNamed::Contract(found) => {
                                &&& naming is Named
                                &&& named == found.with_what_was_stated(contract)
                                &&& after == (IntakeView {
                                    naming: before.naming.remove(key),
                                    named: before.named.insert(key, *found),
                                    ..before
                                })
                            },
                            _ => {
                                &&& naming matches Naming::Refused(why) && refuses_as(
                                    why,
                                    answers[at].1,
                                ) && after == (IntakeView {
                                    naming: before.naming.remove(key),
                                    unnamed: before.unnamed.insert(asked, why),
                                    ..before
                                })
                                &&& named == contract
                            },
                        }
                    },
                }
            },
        }
    }
}

fn state_beside(named: &Contract, stated: &Contract) -> (both: Contract)
    ensures
        both == named.with_what_was_stated(*stated),
{
    let mut both: Contract = named.clone();
    both.delta_neutral_contract = shared_copy(&stated.delta_neutral_contract);
    if stated.combo_legs.len() > 0 {
        both.combo_legs = stated.combo_legs.clone();
    }
    both
}

fn find_answer(answers: &Vec<(u32, OrderNamed)>, asked: u32) -> (at: Option<usize>)
    ensures
        match at {
            Some(at) => at < answers@.len() && answered_at(answers@, asked) == Some(at as int),
            None => answered_at(answers@, asked) is None,
        },
{
    let mut at: usize = 0;
    while at < answers.len()
        invariant
            at <= answers@.len(),
            forall|i: int| 0 <= i < at ==> (#[trigger] answers@[i]).0 != asked,
        decreases answers@.len() - at,
    {
        if answers[at].0 == asked {
            proof {
                first_answer(answers@, asked, at as int);
            }
            return Some(at);
        }
        at = at + 1;
    }
    proof {
        first_answer(answers@, asked, at as int);
    }
    None
}

/// Name a contract before an order or an exercise registers it. The lookup is
/// kept with the instruction so a later lap can finish it. Naming supplies the
/// contract's terms without removing the hedge or the legs its caller stated.
pub fn name_order_contract(
    intake: &mut Intake,
    answers: &mut Vec<(u32, OrderNamed)>,
    contract: &mut Contract,
    lookup: &mut Option<u32>,
) -> (naming: Naming)
    ensures
        naming_goes(
            old(intake)@,
            final(intake)@,
            old(answers)@,
            final(answers)@,
            *old(contract),
            *final(contract),
            *old(lookup),
            *final(lookup),
            naming,
        ),
{
    let key: String = contract.naming_key_text();
    match intake.named.get(&key) {
        Some(known) => {
            let both: Contract = state_beside(known, contract);
            *contract = both;
            return Naming::Named;
        },
        None => {},
    }
    match *lookup {
        None => match intake.naming.get(&key) {
            Some(asked) => {
                *lookup = Some(*asked);
                Naming::Waits
            },
            None => Naming::Ask,
        },
        Some(asked) => {
            match intake.unnamed.get(&asked) {
                Some(why) => {
                    return Naming::Refused(why.clone());
                },
                None => {},
            }
            match find_answer(answers, asked) {
                None => Naming::Waits,
                Some(at) => {
                    let _ = intake.naming.remove(&key);
                    let (_, answer) = answers.remove(at);
                    match answer {
                        OrderNamed::Contract(found) => {
                            let both: Contract = state_beside(&found, contract);
                            intake.named.insert(key, *found);
                            *contract = both;
                            Naming::Named
                        },
                        OrderNamed::Unnamed(text) => {
                            let why: Refusal = Refusal::no_definition(text.as_str());
                            intake.unnamed.insert(asked, why.clone());
                            Naming::Refused(why)
                        },
                        OrderNamed::Refused(code, text) => {
                            let why: Refusal = Refusal::stated(code, text.as_str());
                            intake.unnamed.insert(asked, why.clone());
                            Naming::Refused(why)
                        },
                    }
                },
            }
        },
    }
}

/// Take note of the lookup sent for a contract, or refuse the instruction where
/// none could be sent.
pub fn lookup_sent(
    intake: &mut Intake,
    contract: &Contract,
    lookup: &mut Option<u32>,
    asked: Option<u32>,
) -> (sent: Result<(), Refusal>)
    ensures
        match asked {
            Some(asked) => {
                &&& sent is Ok
                &&& *final(lookup) == Some(asked)
                &&& final(intake)@ == (IntakeView {
                    naming: old(intake)@.naming.insert(contract.naming_key(), asked),
                    ..old(intake)@
                })
            },
            None => {
                &&& sent matches Err(why) && why.is(
                    504,
                    "the order's contract could not be named: there is no connection to the venue to ask on"@,
                )
                &&& *final(lookup) == *old(lookup)
                &&& final(intake)@ == old(intake)@
            },
        },
{
    match asked {
        Some(asked) => {
            intake.naming.insert(contract.naming_key_text(), asked);
            *lookup = Some(asked);
            Ok(())
        },
        None => Err(
            Refusal::not_connected(
                "the order's contract could not be named: there is no connection to the venue to ask on",
            ),
        ),
    }
}

/// A contract once named is named again without asking the venue.
pub proof fn a_name_is_asked_for_once(
    before: IntakeView,
    after: IntakeView,
    answers: Seq<(u32, OrderNamed)>,
    left: Seq<(u32, OrderNamed)>,
    contract: Contract,
    named: Contract,
    lookup: Option<u32>,
    next: Option<u32>,
    naming: Naming,
)
    requires
        naming_goes(before, after, answers, left, contract, named, lookup, next, naming),
        naming is Named,
    ensures
        after.named.dom().contains(contract.naming_key()),
{
}

/// Naming never takes away the hedge or the legs a caller stated.
pub proof fn naming_keeps_what_was_stated(
    before: IntakeView,
    after: IntakeView,
    answers: Seq<(u32, OrderNamed)>,
    left: Seq<(u32, OrderNamed)>,
    contract: Contract,
    named: Contract,
    lookup: Option<u32>,
    next: Option<u32>,
    naming: Naming,
)
    requires
        naming_goes(before, after, answers, left, contract, named, lookup, next, naming),
    ensures
        named.delta_neutral_contract == contract.delta_neutral_contract,
        contract.combo_legs@.len() > 0 ==> named.combo_legs == contract.combo_legs,
{
}

/// Two orders on one contract share one lookup: where one is out, the other
/// waits on it and asks for none.
pub proof fn a_lookup_is_shared(
    before: IntakeView,
    after: IntakeView,
    answers: Seq<(u32, OrderNamed)>,
    left: Seq<(u32, OrderNamed)>,
    contract: Contract,
    named: Contract,
    next: Option<u32>,
    naming: Naming,
)
    requires
        naming_goes(before, after, answers, left, contract, named, None, next, naming),
        before.naming.dom().contains(contract.naming_key()),
        !before.named.dom().contains(contract.naming_key()),
    ensures
        naming is Waits,
        next == Some(before.naming[contract.naming_key()]),
{
}

} // verus!
