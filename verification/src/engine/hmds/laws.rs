//! What a reply, a refusal and a withdrawal reach among the queries that wait.

use crate::engine::hmds::answers::{first_held, page_taken, Answer};
use crate::engine::hmds::names::{
    answers_it, element, first_place, names_it, stands_at, stated_type, stated_venue,
};
use crate::engine::hmds::pages::{is_page_of, rows, Page};
use crate::engine::hmds::queries::{
    ended_by, first_waiting, gone_out, other_numbers, query_refused, refused_at_once, tickers_of,
    told_of_refusal, waiting_count, without_the_stream_half, Asked, BarStream, HeldSeries, HmdsView,
    Waiting,
};
use crate::engine::hmds::replies::{
    answered, first_answered, first_under, routed, told_nothing_waits, Routed,
};
use crate::engine::hmds::streams::{
    acknowledged, first_named, first_read_by, left, withdrawal_id, withdrawn_on_leaving,
    TbtSubscription, TicksView, Withdrawal,
};
use crate::engine::hmds::ticks::TickAck;
use crate::engine::known::Said;
use crate::text::digits;
use crate::types::orders::InstrumentId;
use vstd::prelude::*;

verus! {

/// A query that went waits behind the others, as what it asked and under its
/// own name and number. One that did not is waited for by nobody. Neither
/// touches another that waits.
pub proof fn a_query_that_went_is_waited_for(state: HmdsView, waiting: Waiting)
    ensures
        gone_out(state, waiting, true).pending == state.pending.push(waiting),
        gone_out(state, waiting, true).held == state.held,
        gone_out(state, waiting, true).rtbar_subs == state.rtbar_subs,
        gone_out(state, waiting, true).ticks == state.ticks,
        gone_out(state, waiting, false).pending == state.pending,
        gone_out(state, waiting, false).ticks == state.ticks,
{
}

proof fn the_first_answered_is_named(pending: Seq<Waiting>, reply: Seq<char>, from: int)
    requires
        0 <= from,
    ensures
        match first_answered(pending, reply, from) {
            Some(at) => {
                &&& from <= at < pending.len()
                &&& answers_it(reply, pending[at].query@)
                &&& forall|i: int|
                    from <= i < at ==> !answers_it(reply, (#[trigger] pending[i]).query@)
            },
            None => forall|i: int|
                from <= i < pending.len() ==> !answers_it(reply, (#[trigger] pending[i]).query@),
        },
    decreases pending.len() - from,
{
    if from < pending.len() && !answers_it(reply, pending[from].query@) {
        the_first_answered_is_named(pending, reply, from + 1);
        assert forall|i: int|
            from <= i < pending.len() && (first_answered(pending, reply, from) is None || i
                < first_answered(pending, reply, from)->0) implies !answers_it(
            reply,
            (#[trigger] pending[i]).query@,
        ) by {
            if i > from {
                assert(!answers_it(reply, pending[i].query@));
            }
        }
    }
}

/// Where a reply goes.
///
/// It goes to the query that waits under the name the reply states, and to the
/// number and the kind that query was made with: the first such, and to none
/// where there is none. Bars and ticks are done with the reply that says it is
/// the last, a scan is never done, and any other query is done with its reply.
/// A query that is done waits no more; every other waits on.
pub proof fn a_reply_goes_to_the_query_it_names(state: HmdsView, reply: Seq<char>, other: int)
    ensures
        match routed(state, reply) {
            Some(to) => exists|at: int|
                {
                    &&& 0 <= at < state.pending.len()
                    &&& to.req_id == (#[trigger] state.pending[at]).req_id
                    &&& to.asked == state.pending[at].asked
                    &&& element(reply, "id"@) is Some
                    &&& names_it(element(reply, "id"@)->0, state.pending[at].query@)
                    &&& to.asked is Bars || to.asked is Ticks ==> (to.done <==> element(
                        reply,
                        "eoq"@,
                    ) == Some("true"@))
                    &&& to.asked is Scan ==> !to.done
                    &&& !(to.asked is Bars) && !(to.asked is Ticks) && !(to.asked is Scan)
                        ==> to.done
                    &&& !to.done ==> answered(state, reply) == state
                    &&& to.done ==> answered(state, reply).pending == state.pending.remove(at)
                    &&& 0 <= other < at ==> !answers_it(reply, state.pending[other].query@)
                },
            None => {
                &&& 0 <= other < state.pending.len() ==> !answers_it(
                    reply,
                    state.pending[other].query@,
                )
                &&& answered(state, reply) == state
            },
        },
{
    the_first_answered_is_named(state.pending, reply, 0);
    match first_answered(state.pending, reply, 0) {
        Some(at) => {
            assert(state.pending[at].req_id == routed(state, reply)->0.req_id);
        },
        None => {},
    }
}

proof fn the_first_waiting_is_named(pending: Seq<Waiting>, stated: Seq<char>, from: int)
    requires
        0 <= from,
    ensures
        first_waiting(pending, stated, from) matches Some(at) ==> from <= at < pending.len()
            && names_it(stated, pending[at].query@),
    decreases pending.len() - from,
{
    if from < pending.len() && !names_it(stated, pending[from].query@) {
        the_first_waiting_is_named(pending, stated, from + 1);
    }
}

/// A refused query is told to the number it was asked under, with the venue's
/// own words, and waits no more. The others wait on.
pub proof fn a_refusal_is_told_to_who_asked(state: HmdsView, stated: Seq<char>, text: Seq<char>)
    ensures
        first_waiting(state.pending, stated, 0) matches Some(at) ==> {
            &&& 0 <= at < state.pending.len()
            &&& names_it(stated, state.pending[at].query@)
            &&& told_of_refusal(state, stated, text).len() == 1
            &&& told_of_refusal(state, stated, text)[0] == (Said::RequestRefused {
                req_id: state.pending[at].req_id as i64,
                code: 162,
                text,
            })
            &&& query_refused(state, stated).pending == state.pending.remove(at)
            &&& state.pending[at].asked is Bars ==> ended_by(state, stated) == Some(
                state.pending[at].req_id,
            )
        },
{
    the_first_waiting_is_named(state.pending, stated, 0);
}

proof fn a_number_stays_or_goes(numbers: Seq<u32>, req_id: u32, other: u32)
    ensures
        other_numbers(numbers, req_id).contains(other) <==> numbers.contains(other) && other
            != req_id,
    decreases numbers.len(),
{
    reveal(Seq::filter);
    if numbers.len() > 0 {
        let less = numbers.drop_last();
        a_number_stays_or_goes(less, req_id, other);
        let before = other_numbers(less, req_id);
        let after = other_numbers(numbers, req_id);
        if numbers.last() != req_id {
            assert(after =~= before.push(numbers.last()));
            assert(after[before.len() as int] == numbers.last());
            if before.contains(other) {
                let i = choose|i: int| 0 <= i < before.len() && before[i] == other;
                assert(after[i] == other);
            }
            if after.contains(other) {
                let i = choose|i: int| 0 <= i < after.len() && after[i] == other;
                if i < before.len() {
                    assert(before[i] == other);
                }
            }
        } else {
            assert(after =~= before);
        }
        if less.contains(other) {
            let i = choose|i: int| 0 <= i < less.len() && less[i] == other;
            assert(numbers[i] == other);
        }
        if numbers.contains(other) {
            let i = choose|i: int| 0 <= i < numbers.len() && numbers[i] == other;
            if i < less.len() {
                assert(less[i] == other);
            }
        }
        assert(numbers[numbers.len() - 1] == numbers.last());
    }
}

/// Taking down the stream half of a request takes its number out of every list
/// of them, and no other number out of any. What waits, and what is held, stays.
pub proof fn a_stream_half_is_taken_down_alone(state: HmdsView, req_id: u32, other: u32)
    ensures
        ({
            let after = without_the_stream_half(state, req_id);
            &&& after.keep_up_to_date_reqs.contains(other)
                <==> state.keep_up_to_date_reqs.contains(other) && other != req_id
            &&& after.rtbar_resub.contains(other) <==> state.rtbar_resub.contains(other) && other
                != req_id
            &&& after.forming_bars.contains(other) <==> state.forming_bars.contains(other) && other
                != req_id
            &&& after.pending == state.pending
            &&& after.held == state.held
            &&& after.ticks == state.ticks
        }),
{
    a_number_stays_or_goes(state.keep_up_to_date_reqs, req_id, other);
    a_number_stays_or_goes(state.rtbar_resub, req_id, other);
    a_number_stays_or_goes(state.forming_bars, req_id, other);
}

/// Whether one of the streams is a request's and has this number.
pub open spec fn streams_under(streams: Seq<BarStream>, req_id: u32, ticker: u32) -> bool {
    exists|i: int|
        0 <= i < streams.len() && (#[trigger] streams[i]).req_id == req_id && streams[i].ticker
            == Some(ticker)
}

/// The numbers taken down with a request are those its streams have, and no
/// other's.
pub proof fn only_its_own_streams_are_taken_down(
    streams: Seq<BarStream>,
    req_id: u32,
    ticker: u32,
)
    ensures
        tickers_of(streams, req_id).contains(ticker) <==> streams_under(streams, req_id, ticker),
    decreases streams.len(),
{
    if streams.len() > 0 {
        let less = streams.drop_last();
        only_its_own_streams_are_taken_down(less, req_id, ticker);
        let before = tickers_of(less, req_id);
        let after = tickers_of(streams, req_id);
        if before.contains(ticker) {
            let i = choose|i: int| 0 <= i < before.len() && before[i] == ticker;
            assert(after[i] == ticker);
        }
        if after.contains(ticker) {
            let i = choose|i: int| 0 <= i < after.len() && after[i] == ticker;
            if i < before.len() {
                assert(before[i] == ticker);
            }
        }
        if streams_under(less, req_id, ticker) {
            let i = choose|i: int|
                0 <= i < less.len() && (#[trigger] less[i]).req_id == req_id && less[i].ticker
                    == Some(ticker);
            assert(streams[i] == less[i]);
        }
        if streams_under(streams, req_id, ticker) {
            let i = choose|i: int|
                0 <= i < streams.len() && (#[trigger] streams[i]).req_id == req_id
                    && streams[i].ticker == Some(ticker);
            if i < less.len() {
                assert(less[i] == streams[i]);
            } else {
                assert(after[before.len() as int] == ticker);
            }
        }
        if streams.last().req_id == req_id && streams.last().ticker == Some(ticker) {
            assert(streams[streams.len() - 1] == streams.last());
            assert(after[before.len() as int] == ticker);
        }
    }
}

/// One more query that waits is one more of its kind, and of no other.
pub proof fn what_waits_is_counted_by_kind(pending: Seq<Waiting>, waiting: Waiting, asked: Asked)
    ensures
        waiting.asked == asked ==> waiting_count(pending.push(waiting), asked) == waiting_count(
            pending,
            asked,
        ) + 1,
        waiting.asked != asked ==> waiting_count(pending.push(waiting), asked) == waiting_count(
            pending,
            asked,
        ),
        waiting_count(pending, asked) <= pending.len(),
    decreases pending.len(),
{
    assert(pending.push(waiting).drop_last() =~= pending);
    if pending.len() > 0 {
        what_waits_is_counted_by_kind(pending.drop_last(), pending.last(), asked);
    }
}

/// A request for bars under a number that is still answered is refused under
/// that number, and so is a second scan; a number nothing uses is never
/// refused.
pub proof fn a_number_in_use_is_refused(state: HmdsView, asked: Asked, req_id: u32, at: int)
    ensures
        0 <= at < state.pending.len() && state.pending[at].req_id == req_id
            && state.pending[at].asked is Bars && (asked is Bars || asked is HeadTimestamp
            || asked is Histogram) ==> (refused_at_once(state, asked, req_id) matches Some(
            Said::RequestRefused { req_id: told, .. },
        ) && told == req_id as i64),
        0 <= at < state.pending.len() && state.pending[at].req_id == req_id
            && state.pending[at].asked is Scan && asked is Scan ==> (refused_at_once(
            state,
            asked,
            req_id,
        ) matches Some(Said::RequestRefused { req_id: told, .. }) && told == req_id as i64),
        state.pending.len() == 0 && state.held.len() == 0 && state.keep_up_to_date_reqs.len() == 0
            ==> refused_at_once(state, asked, req_id) is None,
{
    if 0 <= at < state.pending.len() {
        assert(state.pending[at].req_id == state.pending[at].req_id);
    }
}

proof fn the_first_held_is_the_callers(held: Seq<HeldSeries>, req_id: u32, from: int)
    requires
        0 <= from,
    ensures
        first_held(held, req_id, from) matches Some(at) ==> from <= at < held.len()
            && held[at].req_id == req_id,
    decreases held.len() - from,
{
    if from < held.len() && held[from].req_id != req_id {
        the_first_held_is_the_callers(held, req_id, from + 1);
    }
}

/// A page of bars is told to the number it was asked under. A series that waits
/// on nothing more is handed over with its last page and held no more; one
/// still to come is held on. What waits is not touched.
pub proof fn a_page_is_filed_under_its_number(
    before: HmdsView,
    after: HmdsView,
    to: Routed,
    page: Page,
    answer: Answer,
)
    requires
        page_taken(before, after, to, page, answer),
    ensures
        answer matches Answer::Series(filed) ==> filed.req_id == to.req_id,
        answer matches Answer::Kept { req_id } ==> req_id == to.req_id,
        answer is Series || answer is Kept,
        first_held(before.held, to.req_id, 0) is None ==> answer is Series && after == before,
        first_held(before.held, to.req_id, 0) matches Some(at) ==> {
            &&& !to.done ==> answer is Kept
            &&& to.done && before.held[at].actions_query is None ==> answer is Series
            &&& to.done && before.held[at].actions_query is Some ==> answer is Kept
        },
        after.pending == before.pending,
        answer is Kept ==> after.held.len() == before.held.len(),
        answer is Series && first_held(before.held, to.req_id, 0) is Some ==> after.held.len()
            == before.held.len() - 1,
{
    the_first_held_is_the_callers(before.held, to.req_id, 0);
}

proof fn the_first_stream_is_named(streams: Seq<TbtSubscription>, stated: Seq<char>, from: int)
    requires
        0 <= from,
    ensures
        first_named(streams, stated, from) matches Some(at) ==> from <= at < streams.len()
            && names_it(stated, streams[at].query_id@),
    decreases streams.len() - from,
{
    if from < streams.len() && !names_it(stated, streams[from].query_id@) {
        the_first_stream_is_named(streams, stated, from + 1);
    }
}

/// The number the venue gives a stream goes to the stream it names, with what
/// its prices and its sizes move in. Nothing else of that stream, and nothing
/// of any other, changes.
pub proof fn a_stream_takes_its_own_number(ticks: TicksView, ack: TickAck, other: int)
    requires
        first_named(ticks.subscriptions, ack.query_id@, 0) is Some,
    ensures
        ({
            let at = first_named(ticks.subscriptions, ack.query_id@, 0)->0;
            let after = acknowledged(ticks, ack).subscriptions;
            &&& 0 <= at < ticks.subscriptions.len()
            &&& names_it(ack.query_id@, ticks.subscriptions[at].query_id@)
            &&& after.len() == ticks.subscriptions.len()
            &&& after[at].venue_id == ack.venue_id
            &&& after[at].min_tick == ack.min_tick
            &&& after[at].size_tick == ack.size_min_tick
            &&& after[at].caller_req_id == ticks.subscriptions[at].caller_req_id
            &&& after[at].instrument == ticks.subscriptions[at].instrument
            &&& after[at].kind == ticks.subscriptions[at].kind
            &&& after[at].query_id == ticks.subscriptions[at].query_id
            &&& 0 <= other < after.len() && other != at ==> after[other]
                == ticks.subscriptions[other]
            &&& acknowledged(ticks, ack).withdrawn == ticks.withdrawn
        }),
{
    the_first_stream_is_named(ticks.subscriptions, ack.query_id@, 0);
}

proof fn the_first_read_is_the_callers(
    streams: Seq<TbtSubscription>,
    caller: i64,
    instrument: InstrumentId,
    from: int,
)
    requires
        0 <= from,
    ensures
        first_read_by(streams, caller, instrument, from) matches Some(at) ==> from <= at
            < streams.len() && streams[at].caller_req_id == caller && streams[at].instrument
            == instrument,
    decreases streams.len() - from,
{
    if from < streams.len() && !(streams[from].caller_req_id == caller && streams[from].instrument
        == instrument) {
        the_first_read_is_the_callers(streams, caller, instrument, from + 1);
    }
}

/// Leaving a stream takes out the caller's own on that contract and no other's.
/// It is withdrawn at the venue by the venue's number for it, and by its own
/// name before it has one.
pub proof fn a_caller_leaves_its_own_stream(ticks: TicksView, caller: i64, instrument: InstrumentId)
    ensures
        match first_read_by(ticks.subscriptions, caller, instrument, 0) {
            Some(at) => {
                let gone = ticks.subscriptions[at];
                &&& 0 <= at < ticks.subscriptions.len()
                &&& gone.caller_req_id == caller && gone.instrument == instrument
                &&& left(ticks, caller, instrument).subscriptions == ticks.subscriptions.remove(at)
                &&& gone.venue_id == 0 ==> withdrawn_on_leaving(ticks, caller, instrument) == Some(
                    Withdrawal::ByName(gone.query_id),
                )
                &&& withdrawn_on_leaving(ticks, caller, instrument) matches Some(
                    Withdrawal::ByNumber(number),
                ) ==> number == gone.venue_id && gone.venue_id != 0
            },
            None => left(ticks, caller, instrument) == ticks && withdrawn_on_leaving(
                ticks,
                caller,
                instrument,
            ) is None,
        },
{
    the_first_read_is_the_callers(ticks.subscriptions, caller, instrument, 0);
}

/// A withdrawal is written as the name it is under, or as the venue's number
/// behind a mark.
pub proof fn a_withdrawal_is_written_as_what_it_names(name: String, number: u64)
    ensures
        withdrawal_id(Withdrawal::ByName(name)) == name@,
        withdrawal_id(Withdrawal::ByNumber(number)) == "rtTicker:"@ + digits(number as nat),
{
}

/// A share is asked for as common stock, whichever way it was named or where
/// it was not; any other type made of letters and digits goes as it was named.
/// A venue goes as it was named too, and as the smart one where none was.
pub proof fn a_type_and_a_venue_go_as_named(stated: Seq<char>)
    ensures
        stated.len() == 0 || stated == "STK"@ || stated == "CS"@ ==> stated_type(stated) == "CS"@,
        stated == "OPT"@ || stated == "FUT"@ ==> stated_type(stated) == stated,
        stated.len() > 0 ==> stated_venue(stated) == stated,
        stated.len() == 0 ==> stated_venue(stated) == "SMART"@,
{
    reveal_strlit("OPT");
    reveal_strlit("FUT");
    reveal_strlit("STK");
    reveal_strlit("CS");
    assert("OPT"@[0] == 'O' && "FUT"@[0] == 'F' && "STK"@[0] == 'S' && "CS"@.len() == 2);
}

proof fn the_first_under_is_the_one_asked(
    pending: Seq<Waiting>,
    asked: Asked,
    req_id: u32,
    from: int,
)
    requires
        0 <= from,
    ensures
        first_under(pending, asked, req_id, from) matches Some(at) ==> from <= at < pending.len()
            && pending[at].asked == asked && pending[at].req_id == req_id,
        first_under(pending, asked, req_id, from) is None ==> forall|i: int|
            from <= i < pending.len() ==> !((#[trigger] pending[i]).asked == asked
                && pending[i].req_id == req_id),
    decreases pending.len() - from,
{
    if from < pending.len() && !(pending[from].asked == asked && pending[from].req_id == req_id) {
        the_first_under_is_the_one_asked(pending, asked, req_id, from + 1);
    }
}

/// Withdrawing a query finds one of that kind under that number wherever one
/// waits, and no other; a withdrawal of news that finds none says so to that
/// number.
pub proof fn a_withdrawal_finds_the_query_it_names(
    pending: Seq<Waiting>,
    asked: Asked,
    req_id: u32,
    other: int,
)
    ensures
        first_under(pending, asked, req_id, 0) matches Some(at) ==> 0 <= at < pending.len()
            && pending[at].asked == asked && pending[at].req_id == req_id,
        0 <= other < pending.len() && pending[other].asked == asked && pending[other].req_id
            == req_id ==> first_under(pending, asked, req_id, 0) is Some,
        asked is News ==> told_nothing_waits(asked, req_id).len() == 1 && (told_nothing_waits(
            asked,
            req_id,
        )[0] matches Said::RequestRefused { req_id: told, .. } && told == req_id as i64),
        !(asked is News) ==> told_nothing_waits(asked, req_id).len() == 0,
{
    the_first_under_is_the_one_asked(pending, asked, req_id, 0);
}

/// A page has one bar for every row the reply states, in order, each with the
/// row's own figures, and the zone the reply states.
pub proof fn a_page_has_a_bar_for_every_row(page: Page, reply: Seq<char>, i: int)
    requires
        is_page_of(page, reply),
        0 <= i < page.bars@.len(),
    ensures
        rows(reply, "Bar"@, 0) matches Some(stated) && stated.len() == page.bars@.len() && {
            let row = stated[i];
            let bar = page.bars@[i];
            &&& element(row, "time"@) is Some ==> element(row, "time"@) == Some(bar.time@)
            &&& element(row, "time"@) is None ==> element(row, "date"@) == Some(bar.time@)
            &&& element(row, "open"@) == Some(bar.open@)
            &&& element(row, "high"@) == Some(bar.high@)
            &&& element(row, "low"@) == Some(bar.low@)
            &&& element(row, "close"@) == Some(bar.close@)
            &&& element(row, "weightedAvg"@) == Some(bar.weighted@)
            &&& element(row, "volume"@) == Some(bar.volume@)
            &&& element(row, "count"@) == Some(bar.count@)
        },
        element(reply, "tz"@) is Some ==> page.timezone@ == element(reply, "tz"@)->0,
        element(reply, "tz"@) is None ==> page.timezone@.len() == 0,
{
}

proof fn nothing_stands_ahead(text: Seq<char>, piece: Seq<char>, from: int, at: int)
    requires
        0 <= from <= at,
        piece.len() > 0,
        at + piece.len() <= text.len(),
        stands_at(text, piece, at),
        forall|i: int| from <= i < at ==> #[trigger] text[i] != piece[0],
    ensures
        first_place(text, piece, from) == Some(at),
    decreases at - from,
{
    if from < at {
        assert(text[from] != piece[0]);
        assert(text.subrange(from, from + piece.len())[0] == text[from]);
        assert(!stands_at(text, piece, from));
        nothing_stands_ahead(text, piece, from + 1, at);
    }
}

/// What an element holds is what stands between its two marks, wherever that
/// holds no mark of its own, and whatever follows it.
pub proof fn an_element_holds_what_stands_between_its_marks(
    name: Seq<char>,
    held: Seq<char>,
    rest: Seq<char>,
)
    requires
        forall|i: int| 0 <= i < held.len() ==> #[trigger] held[i] != '<',
    ensures
        element(
            seq!['<'] + name + seq!['>'] + held + (seq!['<', '/'] + name + seq!['>']) + rest,
            name,
        ) == Some(held),
{
    let opening = seq!['<'] + name + seq!['>'];
    let closing = seq!['<', '/'] + name + seq!['>'];
    let text = opening + held + closing + rest;
    let start = opening.len() as int;
    let end = start + held.len();
    assert(text.subrange(0, start) =~= opening);
    assert(text.subrange(end, end + closing.len()) =~= closing);
    assert(first_place(text, opening, 0) == Some(0int));
    assert forall|i: int| start <= i < end implies #[trigger] text[i] != closing[0] by {
        assert(text[i] == held[i - start]);
    }
    nothing_stands_ahead(text, closing, start, end);
    assert(text.subrange(start, end) =~= held);
}

} // verus!
