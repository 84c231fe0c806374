//! What a market-data request causes, and what its withdrawal takes down.

use crate::engine::commands::Subscription;
use crate::engine::market::state::{
    any_of, is_of, series_wanted, Kind, MarketView, MdAction, MdRequest,
};
use crate::engine::market::take::{noted, said_of_taking, subscribing};
use crate::engine::market::withdraw::{stopped_series, stops, unwanted, withdrawing};
use crate::types::orders::InstrumentId;
use vstd::prelude::*;

verus! {

/// Whether an action of taking a request is about that request: about its
/// slot, its number, its contract and the decision it was taken under.
pub open spec fn serves(
    action: MdAction,
    request: Subscription,
    slot: InstrumentId,
    issued: u64,
) -> bool {
    match action {
        MdAction::AskedOn { slot: on, issued: under } => on == slot && under == issued,
        MdAction::BeganUnder { slot: on, issued: under } => on == slot && under == issued,
        MdAction::ChangedHands { slot: on, issued: under } => on == slot && under == issued,
        MdAction::SeriesAsked { slot: on, issued: under } => on == slot && under == issued,
        MdAction::Publish { slot: on } => on == slot,
        MdAction::DataType { slot: on } => on == slot,
        MdAction::AlsoSeries { slot: on } => on == slot,
        MdAction::SnapshotLost { slot: on } => on == slot,
        MdAction::Frozen { slot: on } => on == slot,
        MdAction::Subscribe { slot: on } => on == slot,
        MdAction::Reclaim { slot: on } => on == slot,
        MdAction::Taken { req_id, slot: on } => on == slot && req_id == request.req_id,
        MdAction::KeepCalculation { req_id, slot: on } => on == slot && req_id == request.req_id,
        MdAction::Follow { req_id, slot: on } => on == slot && req_id == request.req_id,
        MdAction::Headlines { slot: on, con_id, .. } => on == slot && con_id
            == request.contract.con_id,
        _ => false,
    }
}

/// What taking a request causes.
///
/// Everything it causes is about the request. The subscription is asked for
/// last, once, and on the request's own slot, unless the slot streams already
/// or the request is a snapshot the feed is down for. A request that joins a
/// stream is told what the stream was told, and asks it for the series the
/// request names. A snapshot that the feed is down for is said to be lost,
/// unless a stream stands on the slot.
pub open spec fn served_on_its_slot(
    before: Seq<MdAction>,
    after: Seq<MdAction>,
    request: Subscription,
    slot: InstrumentId,
    issued: u64,
    streaming: bool,
    feed_down: bool,
) -> bool {
    let new = after.skip(before.len() as int);
    let joins = streaming && !request.regulatory_snapshot;
    let lost = request.regulatory_snapshot && feed_down;
    let watched = request.req_id < 0x4000_0000_0000_0000;
    &&& after.len() >= before.len()
    &&& after.take(before.len() as int) == before
    &&& forall|i: int| 0 <= i < new.len() ==> serves(#[trigger] new[i], request, slot, issued)
    &&& new.len() > 0
    &&& new[0] == (MdAction::AskedOn { slot, issued })
    &&& new.contains(MdAction::SeriesAsked { slot, issued })
    &&& !joins && !lost ==> new.last() == (MdAction::Subscribe { slot })
    &&& forall|i: int|
        0 <= i < new.len() - 1 || ((joins || lost) && 0 <= i < new.len()) ==> !(
        #[trigger] new[i] is Subscribe)
    &&& !joins && streaming ==> new.contains(MdAction::BeganUnder { slot, issued })
    &&& !joins && !streaming ==> new.contains(MdAction::ChangedHands { slot, issued })
    &&& !joins ==> new.contains(MdAction::Publish { slot })
    &&& !joins && !request.regulatory_snapshot ==> new.contains(MdAction::DataType { slot })
        && new.contains(MdAction::Frozen { slot })
    &&& joins && request.generic_ticks@.len() > 0 ==> new.last() == (MdAction::AlsoSeries { slot })
    &&& lost && !joins && !streaming ==> new.last() == (MdAction::SnapshotLost { slot })
    &&& watched ==> new.contains(MdAction::Taken { req_id: request.req_id, slot })
    &&& watched && joins ==> new.contains(MdAction::Follow { req_id: request.req_id, slot })
    &&& request.calculation is Some ==> new.contains(
        MdAction::KeepCalculation { req_id: request.req_id, slot },
    )
}

/// Whether a request that was taken is kept under its number, as it was asked,
/// on its slot, and no other request changed.
pub open spec fn kept_as_asked(
    before: Map<i64, MdRequest>,
    after: Map<i64, MdRequest>,
    request: Subscription,
    slot: InstrumentId,
) -> bool {
    &&& after.dom().contains(request.req_id)
    &&& after[request.req_id].slot == slot
    &&& after[request.req_id].con_id == request.contract.con_id
    &&& after[request.req_id].series@ == request.generic_ticks@
    &&& after[request.req_id].news == request.news
    &&& after[request.req_id].scan == request.spread_scan is Some
    &&& after[request.req_id].for_calculation == request.calculation is Some
    &&& forall|other: i64|
        other != request.req_id ==> (#[trigger] after.dom().contains(other)
            <==> before.dom().contains(other)) && (before.dom().contains(other) ==> after[other]
            == before[other])
}

proof fn a_member_stays(one: Seq<MdAction>, two: Seq<MdAction>, action: MdAction)
    ensures
        one.contains(action) ==> (one + two).contains(action),
        two.contains(action) ==> (one + two).contains(action),
{
    if one.contains(action) {
        let i = choose|i: int| 0 <= i < one.len() && one[i] == action;
        assert((one + two)[i] == action);
    }
    if two.contains(action) {
        let i = choose|i: int| 0 <= i < two.len() && two[i] == action;
        assert((one + two)[one.len() + i] == action);
    }
}

/// What is noted, said and asked of a request that is taken is all of it about
/// that request, and its subscription is on its own slot.
#[verifier::spinoff_prover]
#[verifier::rlimit(60)]
pub proof fn a_request_is_served_on_its_slot(
    view: MarketView,
    before: Seq<MdAction>,
    request: Subscription,
    slot: InstrumentId,
    issued: u64,
    streaming: bool,
    feed_down: bool,
)
    ensures
        ({
            let joins = streaming && !request.regulatory_snapshot;
            served_on_its_slot(
                before,
                before + noted(slot, issued, streaming, joins) + said_of_taking(
                    view,
                    request,
                    slot,
                    joins,
                ) + subscribing(request, slot, streaming, joins, feed_down),
                request,
                slot,
                issued,
                streaming,
                feed_down,
            )
        }),
{
    let joins = streaming && !request.regulatory_snapshot;
    let lost = request.regulatory_snapshot && feed_down;
    let one = noted(slot, issued, streaming, joins);
    let two = said_of_taking(view, request, slot, joins);
    let three = subscribing(request, slot, streaming, joins, feed_down);
    let after = before + one + two + three;
    let new = after.skip(before.len() as int);
    assert(after.take(before.len() as int) =~= before);
    assert(new =~= one + two + three);
    assert forall|action: MdAction|
        one.contains(action) || two.contains(action) || three.contains(
            action,
        ) implies #[trigger] new.contains(action) by {
        a_member_stays(one, two, action);
        a_member_stays(one + two, three, action);
    }
    assert(new[0] == one[0]);
    assert(one.last() == (MdAction::SeriesAsked { slot, issued }));
    assert(one.contains(MdAction::SeriesAsked { slot, issued }));
    assert(new.contains(MdAction::SeriesAsked { slot, issued }));
    if !joins {
        assert(one.contains(one[1]));
        assert(one.contains(one[2]));
        assert(new.contains(one[1]));
        assert(new.contains(one[2]));
    }
    what_is_said_of_taking(view, request, slot, joins);
    assert forall|i: int| 0 <= i < new.len() implies serves(#[trigger] new[i], request, slot, issued)
        by {
        if i < one.len() {
            assert(new[i] == one[i]);
        } else if i < one.len() + two.len() {
            assert(new[i] == two[i - one.len()]);
        } else {
            assert(new[i] == three[i - one.len() - two.len()]);
        }
    }
    assert forall|i: int|
        0 <= i < new.len() - 1 || ((joins || lost) && 0 <= i < new.len()) implies !(
    #[trigger] new[i] is Subscribe) by {
        if i < one.len() {
            assert(new[i] == one[i]);
        } else if i < one.len() + two.len() {
            assert(new[i] == two[i - one.len()]);
        } else {
            assert(new[i] == three[i - one.len() - two.len()]);
        }
    }
    if three.len() > 0 {
        assert(new.last() == three.last());
        assert(three.contains(three[0]));
        assert(new.contains(three[0]));
    }
}

proof fn what_is_said_of_taking(
    view: MarketView,
    request: Subscription,
    slot: InstrumentId,
    joins: bool,
)
    ensures
        ({
            let two = said_of_taking(view, request, slot, joins);
            &&& forall|i: int|
                0 <= i < two.len() ==> {
                    ||| #[trigger] two[i] == (MdAction::DataType { slot })
                    ||| two[i] == (MdAction::Taken { req_id: request.req_id, slot })
                    ||| two[i] == (MdAction::Headlines {
                        slot,
                        con_id: request.contract.con_id,
                        number: view.next_number,
                    })
                    ||| two[i] == (MdAction::KeepCalculation { req_id: request.req_id, slot })
                }
            &&& !joins && !request.regulatory_snapshot ==> two.contains(MdAction::DataType { slot })
            &&& request.req_id < 0x4000_0000_0000_0000 ==> two.contains(
                MdAction::Taken { req_id: request.req_id, slot },
            )
            &&& request.calculation is Some ==> two.contains(
                MdAction::KeepCalculation { req_id: request.req_id, slot },
            )
        }),
{
    let two = said_of_taking(view, request, slot, joins);
    let kind: int = if !joins && !request.regulatory_snapshot {
        1
    } else {
        0
    };
    if kind == 1 {
        assert(two[0] == (MdAction::DataType { slot }));
    }
    if request.req_id < 0x4000_0000_0000_0000 {
        assert(two[kind] == (MdAction::Taken { req_id: request.req_id, slot }));
    }
    if request.calculation is Some {
        assert(two[two.len() - 1] == (MdAction::KeepCalculation { req_id: request.req_id, slot }));
    }
}

/// A request that was taken is kept as it was asked, and no other changed.
pub proof fn a_taken_request_is_kept_as_asked(
    view: MarketView,
    request: Subscription,
    slot: InstrumentId,
)
    ensures
        kept_as_asked(
            view.requests,
            view.asking_series(request, slot).watching(request, slot).with_headlines(
                request.req_id,
            ).requests,
            request,
            slot,
        ),
{
}

/// Headlines are asked for under their own number, and the next are asked for
/// under the next one.
pub proof fn headlines_are_numbered(view: MarketView, request: Subscription, slot: InstrumentId)
    requires
        request.news is Some,
        request.contract.con_id > 0,
        !view.headlines.contains(slot),
        view.next_number < u64::MAX,
    ensures
        said_of_taking(view, request, slot, false).contains(
            MdAction::Headlines {
                slot,
                con_id: request.contract.con_id,
                number: view.next_number,
            },
        ),
        said_of_taking(view, request, slot, true).contains(
            MdAction::Headlines {
                slot,
                con_id: request.contract.con_id,
                number: view.next_number,
            },
        ),
        ({
            let after = view.watching(request, slot).with_headlines(request.req_id);
            after.headlines.contains(slot) && after.next_number == view.next_number + 1
        }),
{
    let ask = MdAction::Headlines {
        slot,
        con_id: request.contract.con_id,
        number: view.next_number,
    };
    let taken: int = if request.req_id >= 0x4000_0000_0000_0000 {
        0
    } else {
        1
    };
    let kind: int = if !request.regulatory_snapshot {
        1
    } else {
        0
    };
    assert(view.watching(request, slot).wants_headlines(request.req_id));
    assert(said_of_taking(view, request, slot, false)[kind + taken] == ask);
    assert(said_of_taking(view, request, slot, true)[taken] == ask);
    let after = view.watching(request, slot).with_headlines(request.req_id);
    assert(after.headlines[view.headlines.len() as int] == slot);
}

/// Whether an action of a withdrawal is about the request withdrawn: about its
/// slot, its number, its contract and the decision it is withdrawn under.
pub open spec fn withdraws(action: MdAction, req_id: i64, request: MdRequest, issued: u64) -> bool {
    match action {
        MdAction::Withdrawn { req_id: told } => told == req_id,
        MdAction::ForgetCalculation { req_id: told } => told == req_id,
        MdAction::Unsubscribe { slot, issued: under } => slot == request.slot && under == issued,
        MdAction::StopSeries { slot, issued: under } => slot == request.slot && under == issued,
        MdAction::StopHeadlines { slot } => slot == request.slot && request.news is Some,
        MdAction::ForgetScan { slot, con_id } => slot == request.slot && con_id == request.con_id
            && request.scan,
        MdAction::DropTags { slot } => slot == request.slot,
        MdAction::Reclaim { slot } => slot == request.slot,
        _ => false,
    }
}

/// What withdrawing a request causes.
///
/// Everything it causes is about the request. The subscription goes where no
/// other request is on its slot, and only there; where others are, the series
/// none of them wants stop, and only those. The headlines stop where no other
/// request on the slot asked for them. The slot is let go last.
pub open spec fn taken_down(
    before: Seq<MdAction>,
    after: Seq<MdAction>,
    series: Seq<u32>,
    rest: Map<i64, MdRequest>,
    req_id: i64,
    request: MdRequest,
    issued: u64,
) -> bool {
    let new = after.skip(before.len() as int);
    let slot = request.slot;
    let alone = forall|other: i64| #[trigger]
        rest.dom().contains(other) ==> rest[other].slot != slot;
    &&& after.len() >= before.len()
    &&& after.take(before.len() as int) == before
    &&& forall|i: int| 0 <= i < new.len() ==> withdraws(#[trigger] new[i], req_id, request, issued)
    &&& new.len() > 2
    &&& new.last() == (MdAction::Reclaim { slot })
    &&& new[new.len() - 2] == (MdAction::DropTags { slot })
    &&& req_id < 0x4000_0000_0000_0000 ==> new[0] == (MdAction::Withdrawn { req_id })
    &&& new.contains(MdAction::ForgetCalculation { req_id })
    &&& alone <==> new.contains(MdAction::Unsubscribe { slot, issued })
    &&& alone ==> series == request.series@
    &&& alone ==> !new.contains(MdAction::StopSeries { slot, issued })
    &&& !alone ==> (new.contains(MdAction::StopSeries { slot, issued }) <==> series.len() > 0)
    &&& !alone ==> forall|one: u32|
        #![trigger series.contains(one)]
        series.contains(one) <==> request.series@.contains(one) && forall|other: i64| #[trigger]
            rest.dom().contains(other) && rest[other].slot == slot
                ==> !rest[other].series@.contains(one)
    &&& request.scan ==> new.contains(MdAction::ForgetScan { slot, con_id: request.con_id })
    &&& request.news is Some && alone ==> new.contains(MdAction::StopHeadlines { slot })
    &&& (exists|other: i64| #[trigger]
        rest.dom().contains(other) && rest[other].slot == slot && rest[other].news is Some)
        ==> !new.contains(MdAction::StopHeadlines { slot })
}

/// What is stopped of a request that is withdrawn is all of it about that
/// request, and the subscription goes with the last request on its slot.
#[verifier::spinoff_prover]
#[verifier::rlimit(60)]
pub proof fn a_withdrawal_takes_down_its_own(
    before: Seq<MdAction>,
    rest: Map<i64, MdRequest>,
    req_id: i64,
    request: MdRequest,
    issued: u64,
)
    ensures
        taken_down(
            before,
            before + withdrawing(rest, req_id, request, issued),
            stopped_series(rest, request),
            rest,
            req_id,
            request,
            issued,
        ),
{
    let slot = request.slot;
    let made = withdrawing(rest, req_id, request, issued);
    let after = before + made;
    let new = after.skip(before.len() as int);
    let series = stopped_series(rest, request);
    assert(after.take(before.len() as int) =~= before);
    assert(new =~= made);
    let told: int = if req_id >= 0x4000_0000_0000_0000 {
        0
    } else {
        1
    };
    let stopped = stops(rest, request, issued);
    let alone = forall|other: i64| #[trigger]
        rest.dom().contains(other) ==> rest[other].slot != slot;
    assert(any_of(rest, Kind::On(slot)) <==> !alone) by {
        if !alone {
            let other = choose|other: i64| #[trigger]
                rest.dom().contains(other) && rest[other].slot == slot;
            assert(is_of(rest[other], Kind::On(slot)));
        }
    }
    assert(new[told] == (MdAction::ForgetCalculation { req_id }));
    assert forall|i: int| 0 <= i < stopped.len() implies new[told + 1 + i] == #[trigger] stopped[i]
        by {}
    assert forall|action: MdAction| #[trigger] stopped.contains(action) implies new.contains(
        action,
    ) by {
        let i = choose|i: int| 0 <= i < stopped.len() && stopped[i] == action;
        assert(new[told + 1 + i] == action);
    }
    assert(new.len() == told + 1 + stopped.len() + 2);
    assert forall|i: int| 0 <= i < new.len() implies withdraws(
        #[trigger] new[i],
        req_id,
        request,
        issued,
    ) by {
        if told + 1 <= i < told + 1 + stopped.len() {
            assert(new[i] == stopped[i - told - 1]);
        }
    }
    if alone {
        assert(stopped[0] == (MdAction::Unsubscribe { slot, issued }));
        assert(stopped.contains(MdAction::Unsubscribe { slot, issued }));
    }
    let unwanted_here = unwanted(rest, slot, request.series@);
    if !alone && unwanted_here.len() > 0 {
        assert(stopped[0] == (MdAction::StopSeries { slot, issued }));
        assert(stopped.contains(MdAction::StopSeries { slot, issued }));
    }
    assert(!alone ==> series == unwanted_here);
    assert forall|one: u32| #![trigger series.contains(one)] !alone implies (series.contains(one)
        <==> request.series@.contains(one) && forall|other: i64| #[trigger]
        rest.dom().contains(other) && rest[other].slot == slot
            ==> !rest[other].series@.contains(one)) by {
        broadcast use vstd::seq_lib::group_filter_ensures;

        let quiet = |s: u32| !series_wanted(rest, slot, s);
        assert(series == request.series@.filter(quiet));
        if series.contains(one) {
            let i = choose|i: int| 0 <= i < series.len() && series[i] == one;
            assert(quiet(series[i]));
            request.series@.lemma_filter_contains_rev(quiet, one);
        }
        if request.series@.contains(one) && quiet(one) {
            let i = choose|i: int| 0 <= i < request.series@.len() && request.series@[i] == one;
            request.series@.lemma_filter_contains(quiet, i);
        }
        if forall|other: i64| #[trigger]
            rest.dom().contains(other) && rest[other].slot == slot
                ==> !rest[other].series@.contains(one) {
            assert(quiet(one));
        }
    }
    if request.scan {
        assert(stopped.last() == (MdAction::ForgetScan { slot, con_id: request.con_id }));
        assert(stopped.contains(MdAction::ForgetScan { slot, con_id: request.con_id }));
    }
    let quotes = crate::engine::market::withdraw::stops_quotes(rest, request, issued);
    if request.news is Some && !any_of(rest, Kind::WithNews(slot)) {
        assert(stopped[quotes.len() as int] == (MdAction::StopHeadlines { slot }));
        assert(stopped.contains(MdAction::StopHeadlines { slot }));
    }
    if exists|other: i64| #[trigger]
        rest.dom().contains(other) && rest[other].slot == slot && rest[other].news is Some {
        let other = choose|other: i64| #[trigger]
            rest.dom().contains(other) && rest[other].slot == slot && rest[other].news is Some;
        assert(is_of(rest[other], Kind::WithNews(slot)));
    }
}

} // verus!
