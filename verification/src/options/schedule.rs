//! Which dividends of a schedule count.

use vstd::prelude::*;

verus! {

/// A dividend and its ex-date relative to the calculation's clock.
///
/// Schedules are in ascending ex-date order. Calendar days and elapsed time are
/// separate: the caller resolves the contract's calendar before calculating.
#[derive(Clone, Copy, Debug, PartialEq, Eq, Structural)]
pub struct Dividend {
    /// Calendar days from today to the ex-date; zero means today.
    pub ex_day: i32,
    /// Milliseconds from the calculation time to the ex-date.
    pub millis_to_ex_date: i64,
    /// Milliseconds from midnight of the calculation date to the ex-date.
    pub millis_from_today: i64,
    /// Complete elapsed days until the end of the ex-date, used by the tree.
    pub days_to_end_of_ex_date: i64,
    /// Cash amount, or cumulative amount for an index schedule.
    pub amount: u64,
}

/// Whether a dividend is paid after today, through the expiry's calendar day.
pub open spec fn counts(dividend: Dividend, expiry_day: i32) -> bool {
    0 < dividend.ex_day <= expiry_day
}

/// The places of the dividends that count, in the order of the schedule.
pub open spec fn counting(schedule: Seq<Dividend>, expiry_day: i32) -> Seq<int>
    decreases schedule.len(),
{
    if schedule.len() == 0 {
        Seq::empty()
    } else {
        let before = counting(schedule.drop_last(), expiry_day);
        if counts(schedule.last(), expiry_day) {
            before.push(schedule.len() - 1)
        } else {
            before
        }
    }
}

/// The places of the dividends that count, paid after today through the
/// expiry's calendar day.
pub fn dividends_counting(schedule: &Vec<Dividend>, expiry_day: i32) -> (places: Vec<usize>)
    ensures
        places@.map_values(|at: usize| at as int) == counting(schedule@, expiry_day),
{
    let mut places: Vec<usize> = Vec::new();
    let mut at: usize = 0;
    let ghost number = |at: usize| at as int;
    proof {
        assert(schedule@.take(0) =~= Seq::empty());
        assert(places@.map_values(number) =~= Seq::empty());
    }
    while at < schedule.len()
        invariant
            at <= schedule@.len(),
            number == (|at: usize| at as int),
            places@.map_values(number) == counting(schedule@.take(at as int), expiry_day),
        decreases schedule@.len() - at,
    {
        proof {
            assert(schedule@.take(at + 1).drop_last() =~= schedule@.take(at as int));
            assert(schedule@.take(at + 1).last() == schedule@[at as int]);
        }
        if schedule[at].ex_day > 0 && schedule[at].ex_day <= expiry_day {
            proof {
                assert(places@.push(at).map_values(number) =~= places@.map_values(number).push(
                    at as int,
                ));
            }
            places.push(at);
        }
        at = at + 1;
    }
    proof {
        assert(schedule@.take(at as int) =~= schedule@);
    }
    places
}

/// The last dividend of a schedule that counts.
pub open spec fn last_counting(schedule: Seq<Dividend>, expiry_day: i32) -> Option<Dividend>
    decreases schedule.len(),
{
    if schedule.len() == 0 {
        None
    } else if counts(schedule.last(), expiry_day) {
        Some(schedule.last())
    } else {
        last_counting(schedule.drop_last(), expiry_day)
    }
}

/// The last dividend of a schedule on or before the calculation time.
pub open spec fn last_paid(schedule: Seq<Dividend>) -> Option<Dividend>
    decreases schedule.len(),
{
    if schedule.len() == 0 {
        None
    } else if schedule.last().millis_from_today <= 0 {
        Some(schedule.last())
    } else {
        last_paid(schedule.drop_last())
    }
}

/// What the value of an index schedule is worked from: the last cumulative
/// amount that counts, and the last on or before the calculation time, with the
/// milliseconds between them.
#[derive(Clone, Copy, Debug, PartialEq, Eq)]
pub struct IndexFigures {
    pub last: Dividend,
    pub before: Option<(Dividend, i64)>,
}

/// What the value of an index schedule is worked from, where it has one.
pub open spec fn index_states(schedule: Seq<Dividend>, expiry_day: i32) -> Option<IndexFigures> {
    match last_counting(schedule, expiry_day) {
        Some(last) => Some(
            IndexFigures {
                last,
                before: match last_paid(schedule) {
                    Some(before) => Some((
                        before,
                        last.millis_from_today.wrapping_sub(before.millis_from_today),
                    )),
                    None => None,
                },
            },
        ),
        None => None,
    }
}

fn find_counting(schedule: &Vec<Dividend>, expiry_day: i32) -> (found: Option<Dividend>)
    ensures
        found == last_counting(schedule@, expiry_day),
{
    let mut left: usize = schedule.len();
    proof {
        assert(schedule@.take(left as int) =~= schedule@);
    }
    while left > 0
        invariant
            left <= schedule@.len(),
            last_counting(schedule@, expiry_day) == last_counting(
                schedule@.take(left as int),
                expiry_day,
            ),
        decreases left,
    {
        proof {
            assert(schedule@.take(left as int).drop_last() =~= schedule@.take(left - 1));
            assert(schedule@.take(left as int).last() == schedule@[left - 1]);
        }
        left = left - 1;
        if schedule[left].ex_day > 0 && schedule[left].ex_day <= expiry_day {
            return Some(schedule[left]);
        }
    }
    None
}

fn find_paid(schedule: &Vec<Dividend>) -> (found: Option<Dividend>)
    ensures
        found == last_paid(schedule@),
{
    let mut left: usize = schedule.len();
    proof {
        assert(schedule@.take(left as int) =~= schedule@);
    }
    while left > 0
        invariant
            left <= schedule@.len(),
            last_paid(schedule@) == last_paid(schedule@.take(left as int)),
        decreases left,
    {
        proof {
            assert(schedule@.take(left as int).drop_last() =~= schedule@.take(left - 1));
            assert(schedule@.take(left as int).last() == schedule@[left - 1]);
        }
        left = left - 1;
        if schedule[left].millis_from_today <= 0 {
            return Some(schedule[left]);
        }
    }
    None
}

/// What the value of an index schedule is worked from. Index schedules hold
/// cumulative amounts.
pub fn index_figures(schedule: &Vec<Dividend>, expiry_day: i32) -> (figures: Option<IndexFigures>)
    ensures
        figures == index_states(schedule@, expiry_day),
{
    match find_counting(schedule, expiry_day) {
        Some(last) => {
            let before: Option<(Dividend, i64)> = match find_paid(schedule) {
                Some(before) => Some((
                    before,
                    last.millis_from_today.wrapping_sub(before.millis_from_today),
                )),
                None => None,
            };
            Some(IndexFigures { last, before })
        },
        None => None,
    }
}

} // verus!
