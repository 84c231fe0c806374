//! A series of bars, oldest first.

use crate::reading::characters;
use vstd::prelude::*;

verus! {

/// One bar of a series, each of its figures as the venue wrote it.
#[derive(Debug, PartialEq, Eq)]
pub struct Bar {
    /// When it opened, as `YYYYMMDD-HH:MM:SS` or `YYYYMMDD`.
    pub time: String,
    pub open: String,
    pub high: String,
    pub low: String,
    pub close: String,
    pub weighted: String,
    pub volume: String,
    pub count: String,
}

/// Whether a moment comes before another, each written from its year down.
pub open spec fn earlier(first: Seq<char>, second: Seq<char>) -> bool
    decreases first.len(),
{
    if second.len() == 0 {
        false
    } else if first.len() == 0 {
        true
    } else if first[0] != second[0] {
        first[0] < second[0]
    } else {
        earlier(first.skip(1), second.skip(1))
    }
}

fn is_earlier(first: &str, second: &str) -> (r: bool)
    ensures
        r == earlier(first@, second@),
{
    let a: Vec<char> = characters(first);
    let b: Vec<char> = characters(second);
    let mut at: usize = 0;
    proof {
        assert(first@.skip(0) =~= first@);
        assert(second@.skip(0) =~= second@);
    }
    while at < a.len() && at < b.len()
        invariant
            a@ == first@,
            b@ == second@,
            at <= a@.len(),
            at <= b@.len(),
            earlier(first@, second@) == earlier(first@.skip(at as int), second@.skip(at as int)),
        decreases a@.len() - at,
    {
        if a[at] != b[at] {
            return a[at] < b[at];
        }
        proof {
            assert(first@.skip(at as int).skip(1) =~= first@.skip(at + 1));
            assert(second@.skip(at as int).skip(1) =~= second@.skip(at + 1));
        }
        at = at + 1;
    }
    b.len() > at
}

proof fn nothing_is_earlier_than_itself(moment: Seq<char>)
    ensures
        !earlier(moment, moment),
    decreases moment.len(),
{
    if moment.len() > 0 {
        nothing_is_earlier_than_itself(moment.skip(1));
    }
}

proof fn earlier_goes_one_way(first: Seq<char>, second: Seq<char>)
    requires
        earlier(first, second),
    ensures
        !earlier(second, first),
    decreases first.len(),
{
    if first.len() > 0 && first[0] == second[0] {
        earlier_goes_one_way(first.skip(1), second.skip(1));
    }
}

proof fn what_is_not_earlier_carries_over(first: Seq<char>, second: Seq<char>, third: Seq<char>)
    requires
        !earlier(second, first),
        !earlier(third, second),
    ensures
        !earlier(third, first),
    decreases first.len(),
{
    if first.len() > 0 && second.len() > 0 && third.len() > 0 && first[0] == second[0] && second[0]
        == third[0] {
        what_is_not_earlier_carries_over(first.skip(1), second.skip(1), third.skip(1));
    }
}

/// Where a bar goes in a series: after every bar at its end that is not later.
pub open spec fn place_in(bars: Seq<Bar>, time: Seq<char>) -> int
    decreases bars.len(),
{
    if bars.len() == 0 || !earlier(time, bars.last().time@) {
        bars.len() as int
    } else {
        place_in(bars.drop_last(), time)
    }
}

/// A series with one more bar in its place.
pub open spec fn with_bar(bars: Seq<Bar>, bar: Bar) -> Seq<Bar> {
    bars.insert(place_in(bars, bar.time@), bar)
}

/// A series with the bars of a page, each in its place.
pub open spec fn with_page(bars: Seq<Bar>, page: Seq<Bar>) -> Seq<Bar>
    decreases page.len(),
{
    if page.len() == 0 {
        bars
    } else {
        with_bar(with_page(bars, page.drop_last()), page.last())
    }
}

proof fn a_place_is_in_the_series(bars: Seq<Bar>, time: Seq<char>)
    ensures
        0 <= place_in(bars, time) <= bars.len(),
    decreases bars.len(),
{
    if bars.len() > 0 {
        a_place_is_in_the_series(bars.drop_last(), time);
    }
}

/// Put a bar into a series.
pub fn put_bar(bars: &mut Vec<Bar>, bar: Bar)
    ensures
        final(bars)@ == with_bar(old(bars)@, bar),
{
    let mut at: usize = bars.len();
    proof {
        assert(bars@.take(at as int) =~= bars@);
    }
    while at > 0 && is_earlier(bar.time.as_str(), bars[at - 1].time.as_str())
        invariant
            at <= bars@.len(),
            bars@ == old(bars)@,
            place_in(bars@, bar.time@) == place_in(bars@.take(at as int), bar.time@),
        decreases at,
    {
        proof {
            assert(bars@.take(at as int).drop_last() =~= bars@.take(at - 1));
            assert(bars@.take(at as int).last() == bars@[at - 1]);
        }
        at = at - 1;
    }
    proof {
        if at > 0 {
            assert(bars@.take(at as int).last() == bars@[at - 1]);
        }
    }
    bars.insert(at, bar);
}

/// Put the bars of a page into a series.
pub fn put_page(bars: &mut Vec<Bar>, page: Vec<Bar>)
    ensures
        final(bars)@ == with_page(old(bars)@, page@),
{
    let mut left: Vec<Bar> = page;
    let ghost all = left@;
    let ghost mut done: Seq<Bar> = Seq::empty();
    while left.len() > 0
        invariant
            done + left@ == all,
            bars@ == with_page(old(bars)@, done),
        decreases left@.len(),
    {
        let ghost rest = left@;
        let bar: Bar = left.remove(0);
        put_bar(bars, bar);
        proof {
            assert((done.push(bar)).drop_last() =~= done);
            assert(done.push(bar) + left@ =~= done + rest);
            done = done.push(bar);
        }
    }
    proof {
        assert(done =~= all);
    }
}

/// Whether no bar of a series comes before one ahead of it.
pub open spec fn oldest_first(bars: Seq<Bar>) -> bool {
    forall|i: int, j: int|
        0 <= i <= j < bars.len() ==> !earlier((#[trigger] bars[j]).time@, (#[trigger] bars[i]).time@)
}

proof fn a_place_parts_the_series(bars: Seq<Bar>, time: Seq<char>)
    requires
        oldest_first(bars),
    ensures
        forall|i: int|
            0 <= i < place_in(bars, time) ==> !earlier(time, (#[trigger] bars[i]).time@),
        forall|i: int|
            place_in(bars, time) <= i < bars.len() ==> earlier(time, (#[trigger] bars[i]).time@),
    decreases bars.len(),
{
    a_place_is_in_the_series(bars, time);
    if bars.len() > 0 {
        let last = bars.last();
        if earlier(time, last.time@) {
            let before = bars.drop_last();
            assert forall|i: int, j: int| 0 <= i <= j < before.len() implies !earlier(
                (#[trigger] before[j]).time@,
                (#[trigger] before[i]).time@,
            ) by {
                assert(!earlier(bars[j].time@, bars[i].time@));
            }
            a_place_parts_the_series(before, time);
            a_place_is_in_the_series(before, time);
            assert forall|i: int| 0 <= i < place_in(bars, time) implies !earlier(
                time,
                (#[trigger] bars[i]).time@,
            ) by {
                assert(!earlier(time, before[i].time@));
            }
            assert forall|i: int| place_in(bars, time) <= i < bars.len() implies earlier(
                time,
                (#[trigger] bars[i]).time@,
            ) by {
                if i < before.len() {
                    assert(earlier(time, before[i].time@));
                }
            }
        } else {
            assert forall|i: int| 0 <= i < bars.len() implies !earlier(
                time,
                (#[trigger] bars[i]).time@,
            ) by {
                assert(!earlier(bars[bars.len() - 1].time@, bars[i].time@));
                what_is_not_earlier_carries_over(bars[i].time@, last.time@, time);
            }
        }
    }
}

proof fn one_more_bar_keeps_the_order(bars: Seq<Bar>, bar: Bar)
    requires
        oldest_first(bars),
    ensures
        oldest_first(with_bar(bars, bar)),
{
    let at = place_in(bars, bar.time@);
    let after = with_bar(bars, bar);
    a_place_is_in_the_series(bars, bar.time@);
    a_place_parts_the_series(bars, bar.time@);
    assert forall|i: int, j: int| 0 <= i <= j < after.len() implies !earlier(
        (#[trigger] after[j]).time@,
        (#[trigger] after[i]).time@,
    ) by {
        if i == j {
            nothing_is_earlier_than_itself(after[i].time@);
        } else if i == at {
            assert(after[j] == bars[j - 1]);
            earlier_goes_one_way(bar.time@, bars[j - 1].time@);
        } else if j == at {
            assert(after[i] == bars[i]);
        } else {
            let from = if i < at {
                i
            } else {
                i - 1
            };
            let to = if j < at {
                j
            } else {
                j - 1
            };
            assert(after[i] == bars[from] && after[j] == bars[to]);
        }
    }
}

/// A series stays oldest first, whatever order its pages arrive in and
/// whatever order each is in itself.
pub proof fn a_series_is_oldest_first(bars: Seq<Bar>, page: Seq<Bar>)
    requires
        oldest_first(bars),
    ensures
        oldest_first(with_page(bars, page)),
    decreases page.len(),
{
    if page.len() > 0 {
        a_series_is_oldest_first(bars, page.drop_last());
        one_more_bar_keeps_the_order(with_page(bars, page.drop_last()), page.last());
    }
}

/// A series holds every bar of every page, each as often as it came.
pub proof fn no_bar_of_a_page_is_lost(bars: Seq<Bar>, page: Seq<Bar>)
    ensures
        with_page(bars, page).to_multiset() == bars.to_multiset().add(page.to_multiset()),
    decreases page.len(),
{
    broadcast use vstd::seq_lib::group_to_multiset_ensures;

    if page.len() == 0 {
        assert(page =~= Seq::empty());
        assert(page.to_multiset() =~= vstd::multiset::Multiset::empty());
        assert(with_page(bars, page).to_multiset() =~= bars.to_multiset().add(page.to_multiset()));
    } else {
        let before = page.drop_last();
        no_bar_of_a_page_is_lost(bars, before);
        let held = with_page(bars, before);
        a_place_is_in_the_series(held, page.last().time@);
        vstd::seq_lib::to_multiset_insert(
            held,
            place_in(held, page.last().time@),
            page.last(),
        );
        assert(page =~= before.push(page.last()));
        vstd::seq_lib::to_multiset_build(before, page.last());
        assert(with_page(bars, page).to_multiset() =~= bars.to_multiset().add(page.to_multiset()));
    }
}

} // verus!
