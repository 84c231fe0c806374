//! What is counted of a schedule, and how an option is worked out.

use crate::options::method::{differs_beside_a_quote, method, Terms};
use crate::options::schedule::{
    counting, index_states, last_counting, last_paid, Dividend,
};
use vstd::prelude::*;

verus! {

/// Volatility in price units is worked arithmetically, and proportional
/// volatility lognormally; what may be exercised early is worked on a tree,
/// unless its premium is settled as a future's is. Where nothing is left to
/// chance the intrinsic value is all there is, but for the side of an option
/// that may be exercised early.
pub proof fn an_option_is_worked_as_its_terms_say(terms: Terms, side: bool)
    ensures
        terms.price_based && terms.american ==> method(terms, side) is ArithmeticTree,
        terms.price_based && !terms.american ==> method(terms, side) is Arithmetic,
        !terms.price_based && !terms.degenerate && terms.american && !terms.futures_style ==> method(
            terms,
            side,
        ) is LognormalTree,
        !terms.price_based && !terms.degenerate && (!terms.american || terms.futures_style)
            ==> method(terms, side) is Lognormal,
        !terms.price_based && terms.degenerate && (!side || !terms.american || terms.futures_style)
            ==> method(terms, side) is Deterministic,
        !terms.price_based && terms.degenerate && side && terms.american && !terms.futures_style
            ==> method(terms, side) is LognormalTree,
{
}

/// A side is worked apart from the middle only beside a quote, and only for an
/// option that may be exercised early with nothing left to chance.
pub proof fn a_side_is_worked_apart_only_where_it_differs(terms: Terms, quoted: bool)
    ensures
        differs_beside_a_quote(terms, quoted) <==> quoted && !terms.price_based && terms.degenerate
            && terms.american && !terms.futures_style,
{
}

/// A dividend counts exactly where its day is past today and no later than the
/// expiry. Those that count are listed by their places, each once, in the order
/// of the schedule.
pub proof fn a_dividend_counts_up_to_the_expiry(
    schedule: Seq<Dividend>,
    expiry_day: i32,
    place: int,
)
    ensures
        ({
            let list = counting(schedule, expiry_day);
            &&& list.contains(place) <==> 0 <= place < schedule.len() && 0 < schedule[place].ex_day
                <= expiry_day
            &&& forall|i: int, j: int|
                0 <= i < j < list.len() ==> #[trigger] list[i] < #[trigger] list[j]
            &&& forall|i: int| 0 <= i < list.len() ==> #[trigger] list[i] < schedule.len()
        }),
    decreases schedule.len(),
{
    if schedule.len() > 0 {
        let less = schedule.drop_last();
        a_dividend_counts_up_to_the_expiry(less, expiry_day, place);
        let before = counting(less, expiry_day);
        let list = counting(schedule, expiry_day);
        if before.contains(place) {
            let i = choose|i: int| 0 <= i < before.len() && before[i] == place;
            assert(list[i] == place);
        }
        if list.contains(place) {
            let i = choose|i: int| 0 <= i < list.len() && list[i] == place;
            if i < before.len() {
                assert(before[i] == place);
            }
        }
        if list.len() > before.len() {
            assert(list[before.len() as int] == schedule.len() - 1);
        }
    }
}

proof fn the_last_that_counts(schedule: Seq<Dividend>, expiry_day: i32)
    ensures
        match last_counting(schedule, expiry_day) {
            Some(one) => exists|i: int|
                0 <= i < schedule.len() && #[trigger] schedule[i] == one && 0 < one.ex_day
                    <= expiry_day && forall|later: int|
                    i < later < schedule.len() ==> !(0 < (#[trigger] schedule[later]).ex_day
                        <= expiry_day),
            None => forall|i: int|
                0 <= i < schedule.len() ==> !(0 < (#[trigger] schedule[i]).ex_day <= expiry_day),
        },
    decreases schedule.len(),
{
    if schedule.len() > 0 {
        let less = schedule.drop_last();
        let last = schedule.len() - 1;
        the_last_that_counts(less, expiry_day);
        if 0 < schedule[last].ex_day <= expiry_day {
            assert(schedule[last] == schedule.last());
        } else {
            match last_counting(less, expiry_day) {
                Some(one) => {
                    let i = choose|i: int|
                        0 <= i < less.len() && #[trigger] less[i] == one && 0 < one.ex_day
                            <= expiry_day && forall|later: int|
                            i < later < less.len() ==> !(0 < (#[trigger] less[later]).ex_day
                                <= expiry_day);
                    assert(schedule[i] == one);
                    assert forall|later: int| i < later < schedule.len() implies !(0 < (
                    #[trigger] schedule[later]).ex_day <= expiry_day) by {
                        if later < last {
                            assert(less[later] == schedule[later]);
                        }
                    }
                },
                None => {
                    assert forall|i: int| 0 <= i < schedule.len() implies !(0 < (
                    #[trigger] schedule[i]).ex_day <= expiry_day) by {
                        if i < last {
                            assert(less[i] == schedule[i]);
                        }
                    }
                },
            }
        }
    }
}

proof fn the_last_that_was_paid(schedule: Seq<Dividend>)
    ensures
        match last_paid(schedule) {
            Some(one) => schedule.contains(one) && one.millis_from_today <= 0,
            None => forall|i: int|
                0 <= i < schedule.len() ==> (#[trigger] schedule[i]).millis_from_today > 0,
        },
    decreases schedule.len(),
{
    if schedule.len() > 0 {
        let less = schedule.drop_last();
        the_last_that_was_paid(less);
        let last = schedule.len() - 1;
        assert(schedule[last] == schedule.last());
        match last_paid(less) {
            Some(one) => {
                let i = choose|i: int| 0 <= i < less.len() && less[i] == one;
                assert(schedule[i] == one);
            },
            None => {
                assert forall|i: int|
                    last_paid(schedule) is None && 0 <= i < schedule.len() implies (
                #[trigger] schedule[i]).millis_from_today > 0 by {
                    if i < last {
                        assert(less[i] == schedule[i]);
                    }
                }
            },
        }
    }
}

/// An index's figure is the last dividend that counts, beside the last already
/// paid and the time between the two. There is none exactly where no dividend
/// counts.
pub proof fn an_index_figure_is_the_last_that_counts(
    schedule: Seq<Dividend>,
    expiry_day: i32,
    place: int,
)
    ensures
        match index_states(schedule, expiry_day) {
            Some(figures) => {
                &&& schedule.contains(figures.last)
                &&& 0 < figures.last.ex_day <= expiry_day
                &&& figures.before matches Some((paid, apart)) ==> schedule.contains(paid)
                    && paid.millis_from_today <= 0 && (i64::MIN <= figures.last.millis_from_today
                    - paid.millis_from_today <= i64::MAX ==> apart
                    == figures.last.millis_from_today - paid.millis_from_today)
                &&& figures.before is None && 0 <= place < schedule.len()
                    ==> schedule[place].millis_from_today > 0
            },
            None => 0 <= place < schedule.len() ==> !(0 < schedule[place].ex_day <= expiry_day),
        },
{
    the_last_that_counts(schedule, expiry_day);
    the_last_that_was_paid(schedule);
}

} // verus!
