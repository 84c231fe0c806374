//! Withdrawing a market-data request.

use crate::engine::commands::Subscription;
use crate::engine::intake::exercise::{engine_owned, OWN_WATCHES};
use crate::engine::known::{said, Notice};
use crate::engine::market::laws::{a_withdrawal_takes_down_its_own, taken_down};
use crate::engine::market::state::{
    any_of, find, holds_series, is_of, listed_at, md_refused, refuse_md, series_wanted,
    some_request, wants_series, Kind, Market, MarketView, MdAction, MdRequest,
};
use crate::engine::market::take::with_series;
use crate::error_codes::{Refusal, NO_SUCH_SUBSCRIPTION};
use crate::table::Table;
use crate::text::{decimal, int_text, joined};
use crate::types::orders::InstrumentId;
use vstd::prelude::*;

verus! {

/// Where a scan of a contract stands first in a list.
pub open spec fn scan_at(list: Seq<Subscription>, con_id: i64) -> Option<int>
    decreases list.len(),
{
    if list.len() == 0 {
        None
    } else {
        match scan_at(list.drop_last(), con_id) {
            Some(at) => Some(at),
            None => if list.last().contract.con_id == con_id {
                Some(list.len() - 1)
            } else {
                None
            },
        }
    }
}

proof fn first_scan(list: Seq<Subscription>, con_id: i64, at: int)
    requires
        0 <= at <= list.len(),
        forall|i: int| 0 <= i < at ==> (#[trigger] list[i]).contract.con_id != con_id,
        at < list.len() ==> list[at].contract.con_id == con_id,
    ensures
        scan_at(list, con_id) == (if at < list.len() {
            Some(at)
        } else {
            None::<int>
        }),
    decreases list.len(),
{
    if list.len() > 0 {
        let before = list.drop_last();
        if at < list.len() - 1 {
            assert(before[at] == list[at]);
            first_scan(before, con_id, at);
        } else {
            assert forall|i: int| 0 <= i < before.len() implies (
            #[trigger] before[i]).contract.con_id != con_id by {
                assert(before[i] == list[i]);
            }
            first_scan(before, con_id, before.len() as int);
        }
    }
}

impl MarketView {
    /// With the next scan of a contract released. The others still wait behind
    /// it, and its withdrawal can release the one after it.
    pub open spec fn releasing(self, con_id: i64) -> MarketView {
        match scan_at(self.held_scans, con_id) {
            Some(at) => MarketView {
                held_scans: self.held_scans.remove(at),
                resolved: self.resolved.push(self.held_scans[at]),
                ..self
            },
            None => self,
        }
    }
}

/// Release the next scan of a contract, and no other.
pub fn release_next_scan(market: &mut Market, con_id: i64)
    ensures
        final(market)@ == old(market)@.releasing(con_id),
{
    let mut at: usize = 0;
    while at < market.held_scans.len()
        invariant
            at <= market.held_scans@.len(),
            market@ == old(market)@,
            forall|i: int|
                0 <= i < at ==> (#[trigger] market.held_scans@[i]).contract.con_id != con_id,
        decreases market.held_scans@.len() - at,
    {
        if market.held_scans[at].contract.con_id == con_id {
            proof {
                first_scan(market.held_scans@, con_id, at as int);
            }
            let next: Subscription = market.held_scans.remove(at);
            market.resolved.push(next);
            return;
        }
        at = at + 1;
    }
    proof {
        first_scan(market.held_scans@, con_id, at as int);
    }
}

/// Some of a list of requests.
#[derive(Clone, Copy, Debug, PartialEq, Eq, Structural)]
pub enum Picked {
    /// Those with a number.
    Numbered(i64),
    /// Those with a number that ask a calculation.
    Calculating(i64),
}

/// Whether a request is one of some.
pub open spec fn one_of(which: Picked, request: Subscription) -> bool {
    match which {
        Picked::Numbered(req_id) => request.req_id == req_id,
        Picked::Calculating(req_id) => request.req_id == req_id && request.calculation is Some,
    }
}

/// A list of requests without some.
pub open spec fn without(list: Seq<Subscription>, which: Picked) -> Seq<Subscription> {
    list.filter(|request: Subscription| !one_of(which, request))
}

fn is_one(which: Picked, request: &Subscription) -> (r: bool)
    ensures
        r == one_of(which, *request),
{
    match which {
        Picked::Numbered(req_id) => request.req_id == req_id,
        Picked::Calculating(req_id) => request.req_id == req_id && request.calculation.is_some(),
    }
}

fn take_out(list: &mut Vec<Subscription>, which: Picked)
    ensures
        final(list)@ == without(old(list)@, which),
{
    let ghost whole = list@;
    let mut left: Vec<Subscription> = Vec::new();
    std::mem::swap(&mut left, list);
    let ghost mut done: int = 0;
    proof {
        reveal(Seq::filter);
        assert(whole.take(0) =~= Seq::empty());
        assert(left@ =~= whole.skip(0));
    }
    while left.len() > 0
        invariant
            0 <= done <= whole.len(),
            left@ == whole.skip(done),
            list@ == without(whole.take(done), which),
        decreases left@.len(),
    {
        let one: Subscription = left.remove(0);
        proof {
            reveal(Seq::filter);
            assert(whole.take(done + 1).drop_last() =~= whole.take(done));
            assert(whole.take(done + 1).last() == one);
            assert(left@ =~= whole.skip(done + 1));
            done = done + 1;
        }
        if !is_one(which, &one) {
            list.push(one);
        }
    }
    proof {
        assert(whole.take(done) =~= whole);
    }
}

/// The series of a request nobody else served on its slot named.
pub open spec fn unwanted(
    requests: Map<i64, MdRequest>,
    slot: InstrumentId,
    series: Seq<u32>,
) -> Seq<u32> {
    series.filter(|one: u32| !series_wanted(requests, slot, one))
}

fn unwanted_series(
    requests: &Table<i64, MdRequest>,
    slot: InstrumentId,
    series: &Vec<u32>,
) -> (list: Vec<u32>)
    ensures
        list@ == unwanted(requests@, slot, series@),
{
    let mut list: Vec<u32> = Vec::new();
    let mut at: usize = 0;
    proof {
        reveal(Seq::filter);
        assert(series@.take(0) =~= Seq::empty());
    }
    while at < series.len()
        invariant
            at <= series@.len(),
            list@ == unwanted(requests@, slot, series@.take(at as int)),
        decreases series@.len() - at,
    {
        proof {
            reveal(Seq::filter);
            assert(series@.take(at + 1).drop_last() =~= series@.take(at as int));
            assert(series@.take(at + 1).last() == series@[at as int]);
        }
        if !wants_series(requests, slot, series[at]) {
            list.push(series[at]);
        }
        at = at + 1;
    }
    proof {
        assert(series@.take(at as int) =~= series@);
    }
    list
}

/// What a withdrawal stops of the quotes: the whole subscription where nobody
/// else watches the contract, and otherwise the series nobody else named.
pub open spec fn stops_quotes(
    rest: Map<i64, MdRequest>,
    request: MdRequest,
    issued: u64,
) -> Seq<MdAction> {
    let slot = request.slot;
    if !any_of(rest, Kind::On(slot)) {
        seq![MdAction::Unsubscribe { slot, issued }]
    } else if unwanted(rest, slot, request.series@).len() > 0 {
        seq![MdAction::StopSeries { slot, issued }]
    } else {
        Seq::empty()
    }
}

/// What a withdrawal stops: what it stops of the quotes, the headlines nobody
/// else asked for, and its own scan.
pub open spec fn stops(
    rest: Map<i64, MdRequest>,
    request: MdRequest,
    issued: u64,
) -> Seq<MdAction> {
    let slot = request.slot;
    let quotes = stops_quotes(rest, request, issued);
    let headlines = if request.news is Some && !any_of(rest, Kind::WithNews(slot)) {
        seq![MdAction::StopHeadlines { slot }]
    } else {
        Seq::empty()
    };
    let scan = if request.scan {
        seq![MdAction::ForgetScan { slot, con_id: request.con_id }]
    } else {
        Seq::empty()
    };
    quotes + headlines + scan
}

/// The series a withdrawal stops: every one the request named where the
/// subscription goes whole, and those nobody else named where it stays up for
/// others.
pub open spec fn stopped_series(rest: Map<i64, MdRequest>, request: MdRequest) -> Seq<u32> {
    if any_of(rest, Kind::On(request.slot)) {
        unwanted(rest, request.slot, request.series@)
    } else {
        request.series@
    }
}

/// A list of series but for some.
pub open spec fn but_series(list: Seq<u32>, stopped: Seq<u32>) -> Seq<u32> {
    list.filter(|one: u32| !stopped.contains(one))
}

fn keep_but(list: Vec<u32>, stopped: &Vec<u32>) -> (kept: Vec<u32>)
    ensures
        kept@ == but_series(list@, stopped@),
{
    let mut kept: Vec<u32> = Vec::new();
    let mut at: usize = 0;
    proof {
        reveal(Seq::filter);
        assert(list@.take(0) =~= Seq::empty());
    }
    while at < list.len()
        invariant
            at <= list@.len(),
            kept@ == but_series(list@.take(at as int), stopped@),
        decreases list@.len() - at,
    {
        proof {
            reveal(Seq::filter);
            assert(list@.take(at + 1).drop_last() =~= list@.take(at as int));
            assert(list@.take(at + 1).last() == list@[at as int]);
        }
        if !holds_series(stopped, list[at]) {
            kept.push(list[at]);
        }
        at = at + 1;
    }
    proof {
        assert(list@.take(at as int) =~= list@);
    }
    kept
}

/// What is done where a request that was taken is withdrawn.
pub open spec fn withdrawing(
    rest: Map<i64, MdRequest>,
    req_id: i64,
    request: MdRequest,
    issued: u64,
) -> Seq<MdAction> {
    let told = if req_id >= OWN_WATCHES {
        Seq::empty()
    } else {
        seq![MdAction::Withdrawn { req_id }]
    };
    told.push(MdAction::ForgetCalculation { req_id }) + stops(rest, request, issued) + seq![
        MdAction::DropTags { slot: request.slot },
        MdAction::Reclaim { slot: request.slot },
    ]
}

/// A list of slots but for one.
pub open spec fn other_slots(slots: Seq<InstrumentId>, slot: InstrumentId) -> Seq<InstrumentId> {
    slots.filter(|at: InstrumentId| at != slot)
}

impl MarketView {
    /// Without the headlines of a slot.
    pub open spec fn without_headlines(self, slot: InstrumentId) -> MarketView {
        MarketView {
            headlines: other_slots(self.headlines, slot),
            ..self
        }
    }

    /// With the series a withdrawal stops asked for no more: the slot asks for
    /// nothing where the subscription goes whole, and for what the others named
    /// where it stays. `requests` are the ones left.
    pub open spec fn without_series(self, request: MdRequest) -> MarketView {
        let slot = request.slot;
        MarketView {
            asked: if !any_of(self.requests, Kind::On(slot)) {
                self.asked.remove(slot)
            } else if self.asked.dom().contains(slot) {
                self.asked.insert(
                    slot,
                    but_series(self.asked[slot], unwanted(self.requests, slot, request.series@)),
                )
            } else {
                self.asked
            },
            ..self
        }
    }

    /// What is held once a request that was taken is withdrawn.
    pub open spec fn without_request(self, req_id: i64) -> MarketView {
        let request = self.requests[req_id];
        let rest = self.requests.remove(req_id);
        let left = (MarketView {
            requests: rest,
            numbers: (self.numbers + 1) as u64,
            ..self
        }).without_series(request);
        let quiet = if request.news is Some && !any_of(rest, Kind::WithNews(request.slot)) {
            left.without_headlines(request.slot)
        } else {
            left
        };
        if request.scan {
            quiet.releasing(request.con_id)
        } else {
            quiet
        }
    }

    /// What is held once a request is withdrawn, wherever it is: waiting for
    /// its contract's name, just named, held behind another scan, or taken.
    pub open spec fn withdrawn(self, req_id: i64) -> MarketView {
        if listed_at(self.naming, req_id) is Some {
            MarketView { naming: without(self.naming, Picked::Numbered(req_id)), ..self }
        } else {
            match listed_at(self.resolved, req_id) {
                Some(at) => (MarketView {
                    resolved: self.resolved.remove(at),
                    ..self
                }).releasing(self.resolved[at].contract.con_id),
                None => match listed_at(self.held_scans, req_id) {
                    Some(at) => MarketView { held_scans: self.held_scans.remove(at), ..self },
                    None => if self.requests.dom().contains(req_id) {
                        self.without_request(req_id)
                    } else {
                        self
                    },
                },
            }
        }
    }

    /// Whether a withdrawal is of a request that was taken, rather than one
    /// that still waits.
    pub open spec fn withdraws_taken(self, req_id: i64) -> bool {
        listed_at(self.naming, req_id) is None && listed_at(self.resolved, req_id) is None
            && listed_at(self.held_scans, req_id) is None && self.requests.dom().contains(req_id)
    }

    /// Whether a withdrawal names nothing this session holds.
    pub open spec fn withdraws_nothing(self, req_id: i64) -> bool {
        listed_at(self.naming, req_id) is None && listed_at(self.resolved, req_id) is None
            && listed_at(self.held_scans, req_id) is None && !self.requests.dom().contains(req_id)
    }
}

fn drop_headlines(market: &mut Market, slot: InstrumentId)
    ensures
        final(market)@ == old(market)@.without_headlines(slot),
{
    let ghost whole = market.headlines@;
    let mut left: Vec<InstrumentId> = Vec::new();
    std::mem::swap(&mut left, &mut market.headlines);
    let mut at: usize = 0;
    proof {
        reveal(Seq::filter);
        assert(whole.take(0) =~= Seq::empty());
    }
    while at < left.len()
        invariant
            at <= left@.len(),
            left@ == whole,
            market@ == (MarketView { headlines: market.headlines@, ..old(market)@ }),
            market.headlines@ == other_slots(whole.take(at as int), slot),
        decreases left@.len() - at,
    {
        proof {
            reveal(Seq::filter);
            assert(whole.take(at + 1).drop_last() =~= whole.take(at as int));
            assert(whole.take(at + 1).last() == whole[at as int]);
        }
        if left[at] != slot {
            market.headlines.push(left[at]);
        }
        at = at + 1;
    }
    proof {
        assert(whole.take(at as int) =~= whole);
    }
}

fn copy_series(series: &Vec<u32>) -> (copy: Vec<u32>)
    ensures
        copy@ == series@,
{
    let mut copy: Vec<u32> = Vec::new();
    let mut at: usize = 0;
    while at < series.len()
        invariant
            at <= series@.len(),
            copy@ == series@.take(at as int),
        decreases series@.len() - at,
    {
        copy.push(series[at]);
        at = at + 1;
        proof {
            assert(copy@ =~= series@.take(at as int));
        }
    }
    proof {
        assert(series@.take(at as int) =~= series@);
    }
    copy
}

fn stop_asking(
    market: &mut Market,
    actions: &mut Vec<MdAction>,
    request: &MdRequest,
    issued: u64,
) -> (series: Vec<u32>)
    ensures
        series@ == stopped_series(old(market)@.requests, *request),
        final(actions)@ == old(actions)@ + stops_quotes(old(market)@.requests, *request, issued),
        final(market)@ == old(market)@.without_series(*request),
{
    let slot: InstrumentId = request.slot;
    let ghost asked = market.asked@;
    let ghost texts = |series: Vec<u32>| series@;
    if !some_request(&market.requests, Kind::On(slot)) {
        actions.push(MdAction::Unsubscribe { slot, issued });
        let _ = market.asked.remove(&slot);
        proof {
            assert(market.asked@.map_values(texts) =~= asked.map_values(texts).remove(slot));
            assert(actions@ =~= old(actions)@ + stops_quotes(
                old(market)@.requests,
                *request,
                issued,
            ));
        }
        return copy_series(&request.series);
    }
    let series: Vec<u32> = unwanted_series(&market.requests, slot, &request.series);
    match market.asked.remove(&slot) {
        Some(held) => {
            let kept: Vec<u32> = keep_but(held, &series);
            let ghost left = kept;
            market.asked.insert(slot, kept);
            proof {
                assert(market.asked@.map_values(texts) =~= asked.map_values(texts).insert(
                    slot,
                    left@,
                ));
            }
        },
        None => {
            proof {
                assert(market.asked@.map_values(texts) =~= asked.map_values(texts));
            }
        },
    }
    if series.len() > 0 {
        actions.push(MdAction::StopSeries { slot, issued });
    }
    proof {
        assert(actions@ =~= old(actions)@ + stops_quotes(old(market)@.requests, *request, issued));
    }
    series
}

fn stop(
    market: &mut Market,
    actions: &mut Vec<MdAction>,
    request: &MdRequest,
    issued: u64,
) -> (series: Vec<u32>)
    ensures
        series@ == stopped_series(old(market)@.requests, *request),
        final(actions)@ == old(actions)@ + stops(old(market)@.requests, *request, issued),
        ({
            let left = old(market)@.without_series(*request);
            let quiet = if request.news is Some && !any_of(
                left.requests,
                Kind::WithNews(request.slot),
            ) {
                left.without_headlines(request.slot)
            } else {
                left
            };
            final(market)@ == (if request.scan {
                quiet.releasing(request.con_id)
            } else {
                quiet
            })
        }),
{
    let slot: InstrumentId = request.slot;
    let series: Vec<u32> = stop_asking(market, actions, request, issued);
    if request.news.is_some() && !some_request(&market.requests, Kind::WithNews(slot)) {
        actions.push(MdAction::StopHeadlines { slot });
        drop_headlines(market, slot);
    }
    if request.scan {
        actions.push(MdAction::ForgetScan { slot, con_id: request.con_id });
        release_next_scan(market, request.con_id);
    }
    proof {
        assert(actions@ =~= old(actions)@ + stops(old(market)@.requests, *request, issued));
    }
    series
}

/// Withdraw a market-data request, by the caller's number for it, and give the
/// series that stop: every one it named where the subscription goes whole, and
/// those nobody else named where it stays up for others. A caller that
/// withdraws a subscription this session does not hold is told so.
pub fn withdraw_mkt_data(
    market: &mut Market,
    notices: &mut Vec<Notice>,
    actions: &mut Vec<MdAction>,
    req_id: i64,
) -> (series: Vec<u32>)
    requires
        old(market).numbers < u64::MAX,
    ensures
        final(market)@ == old(market)@.withdrawn(req_id),
        said(final(notices)@) == (if old(market)@.withdraws_nothing(req_id) {
            md_refused(
                said(old(notices)@),
                req_id,
                300,
                "no contract is being watched under request "@ + decimal(req_id as int),
            )
        } else {
            said(old(notices)@)
        }),
        ({
            let request = old(market)@.requests[req_id];
            let rest = old(market)@.requests.remove(req_id);
            if old(market)@.withdraws_taken(req_id) {
                &&& final(actions)@ == old(actions)@ + withdrawing(
                    rest,
                    req_id,
                    request,
                    (old(market)@.numbers + 1) as u64,
                )
                &&& series@ == stopped_series(rest, request)
                &&& taken_down(
                    old(actions)@,
                    final(actions)@,
                    series@,
                    rest,
                    req_id,
                    request,
                    (old(market)@.numbers + 1) as u64,
                )
            } else {
                final(actions)@ == old(actions)@ && series@.len() == 0
            }
        }),
{
    if find(&market.naming, req_id).is_some() {
        take_out(&mut market.naming, Picked::Numbered(req_id));
        return Vec::new();
    }
    match find(&market.resolved, req_id) {
        Some(at) => {
            let held: Subscription = market.resolved.remove(at);
            release_next_scan(market, held.contract.con_id);
            return Vec::new();
        },
        None => {},
    }
    match find(&market.held_scans, req_id) {
        Some(at) => {
            let _ = market.held_scans.remove(at);
            return Vec::new();
        },
        None => {},
    }
    match market.requests.remove(&req_id) {
        None => {
            proof {
                assert(market@.requests =~= old(market)@.requests);
            }
            let text: String = joined(
                "no contract is being watched under request ",
                int_text(req_id).as_str(),
            );
            refuse_md(notices, req_id, Refusal::stated(NO_SUCH_SUBSCRIPTION, text.as_str()));
            Vec::new()
        },
        Some(request) => {
            let ghost rest = market@.requests;
            if !engine_owned(req_id) {
                actions.push(MdAction::Withdrawn { req_id });
            }
            actions.push(MdAction::ForgetCalculation { req_id });
            let issued: u64 = market.next_md_number();
            let series: Vec<u32> = stop(market, actions, &request, issued);
            actions.push(MdAction::DropTags { slot: request.slot });
            actions.push(MdAction::Reclaim { slot: request.slot });
            proof {
                assert(actions@ =~= old(actions)@ + withdrawing(rest, req_id, request, issued));
                a_withdrawal_takes_down_its_own(old(actions)@, rest, req_id, request, issued);
            }
            series
        },
    }
}

impl MarketView {
    /// Without the calculations that still wait under a number.
    pub open spec fn without_calculation(self, req_id: i64) -> MarketView {
        MarketView {
            naming: without(self.naming, Picked::Calculating(req_id)),
            resolved: without(self.resolved, Picked::Calculating(req_id)),
            ..self
        }
    }

    /// Whether a watch was opened for a calculation.
    pub open spec fn watches_for_calculation(self, req_id: i64) -> bool {
        self.requests.dom().contains(req_id) && self.requests[req_id].for_calculation
    }
}

/// Withdraw a calculation: forget the question, and the watch it opened where
/// it opened one, and give the series that stop with it. Nothing is said of one
/// that left nothing to withdraw.
pub fn withdraw_calculation(
    market: &mut Market,
    notices: &mut Vec<Notice>,
    actions: &mut Vec<MdAction>,
    req_id: i64,
) -> (series: Vec<u32>)
    requires
        old(market).numbers < u64::MAX,
    ensures
        ({
            let left = old(market)@.without_calculation(req_id);
            let forgotten = old(actions)@.push(MdAction::ForgetCalculation { req_id });
            if left.watches_for_calculation(req_id) {
                &&& final(market)@ == left.withdrawn(req_id)
                &&& if left.withdraws_taken(req_id) {
                    let request = left.requests[req_id];
                    let rest = left.requests.remove(req_id);
                    &&& final(actions)@ == forgotten + withdrawing(
                        rest,
                        req_id,
                        request,
                        (left.numbers + 1) as u64,
                    )
                    &&& series@ == stopped_series(rest, request)
                } else {
                    final(actions)@ == forgotten && series@.len() == 0
                }
            } else {
                final(market)@ == left && final(actions)@ == forgotten && series@.len() == 0
            }
        }),
        said(final(notices)@) == said(old(notices)@),
{
    actions.push(MdAction::ForgetCalculation { req_id });
    take_out(&mut market.naming, Picked::Calculating(req_id));
    take_out(&mut market.resolved, Picked::Calculating(req_id));
    let opened: bool = match market.requests.get(&req_id) {
        Some(request) => request.for_calculation,
        None => false,
    };
    if opened {
        withdraw_mkt_data(market, notices, actions, req_id)
    } else {
        Vec::new()
    }
}

/// The last request on a contract takes the subscription down with its series,
/// and no other takes it down. Nothing is asked for on the slot from then on.
pub proof fn the_last_withdrawal_takes_it_down(view: MarketView, req_id: i64, issued: u64)
    requires
        view.withdraws_taken(req_id),
    ensures
        ({
            let request = view.requests[req_id];
            let rest = view.requests.remove(req_id);
            let down = MdAction::Unsubscribe { slot: request.slot, issued };
            &&& stops(rest, request, issued).contains(down) <==> !any_of(
                rest,
                Kind::On(request.slot),
            )
            &&& !any_of(rest, Kind::On(request.slot)) ==> stopped_series(rest, request)
                == request.series@ && !view.withdrawn(req_id).asked.dom().contains(request.slot)
        }),
{
    let request = view.requests[req_id];
    let rest = view.requests.remove(req_id);
    let all = stops(rest, request, issued);
    let down = MdAction::Unsubscribe { slot: request.slot, issued };
    if !any_of(rest, Kind::On(request.slot)) {
        assert(all[0] == down);
    } else if all.contains(down) {
        let i = choose|i: int| 0 <= i < all.len() && all[i] == down;
        assert(all[i] is Unsubscribe);
    }
}

impl MarketView {
    /// Whether every series a slot asks for is named by a request served on it.
    pub open spec fn asks_for_what_is_wanted(self) -> bool {
        forall|slot: InstrumentId, series: u32|
            #![trigger series_wanted(self.requests, slot, series)]
            self.series_asked(slot).contains(series) ==> series_wanted(self.requests, slot, series)
    }
}

/// A withdrawal leaves no series asked for that nobody left named, so that a
/// reconnect does not ask for it again.
pub proof fn an_unwanted_series_is_not_asked_for_again(view: MarketView, req_id: i64)
    requires
        view.asks_for_what_is_wanted(),
    ensures
        view.withdrawn(req_id).asks_for_what_is_wanted(),
{
    let after = view.withdrawn(req_id);
    if view.withdraws_taken(req_id) {
        let request = view.requests[req_id];
        let rest = view.requests.remove(req_id);
        let gone = unwanted(rest, request.slot, request.series@);
        assert(after.requests == rest);
        broadcast use vstd::seq_lib::group_filter_ensures;

        assert forall|slot: InstrumentId, series: u32|
            after.series_asked(slot).contains(series) implies series_wanted(rest, slot, series) by {
            assert(view.series_asked(slot).contains(series)) by {
                if slot == request.slot {
                    let kept = but_series(view.asked[slot], gone);
                    assert(after.series_asked(slot) == kept);
                    view.asked[slot].lemma_filter_contains_rev(
                        |one: u32| !gone.contains(one),
                        series,
                    );
                }
            }
            assert(series_wanted(view.requests, slot, series));
            let by = choose|by: i64| #[trigger]
                view.requests.dom().contains(by) && view.requests[by].slot == slot
                    && view.requests[by].series@.contains(series);
            if by != req_id {
                assert(rest.dom().contains(by) && rest[by] == view.requests[by]);
            } else if !series_wanted(rest, slot, series) {
                let kept = but_series(view.asked[slot], gone);
                assert(after.series_asked(slot) == kept);
                let at = choose|at: int| 0 <= at < kept.len() && kept[at] == series;
                assert(!gone.contains(kept[at]));
                let i = choose|i: int|
                    0 <= i < request.series@.len() && request.series@[i] == series;
                assert(gone.contains(request.series@[i]));
            }
        }
    } else {
        assert(after.requests == view.requests && after.asked == view.asked);
        assert forall|slot: InstrumentId, series: u32|
            after.series_asked(slot).contains(series) implies series_wanted(
            after.requests,
            slot,
            series,
        ) by {
            assert(view.series_asked(slot).contains(series));
            assert(series_wanted(view.requests, slot, series));
        }
    }
}

/// A request that is taken asks for no series that it, or another request on
/// its slot, does not name.
pub proof fn a_taken_request_asks_for_what_is_wanted(
    view: MarketView,
    request: Subscription,
    slot: InstrumentId,
)
    requires
        view.asks_for_what_is_wanted(),
        !view.requests.dom().contains(request.req_id),
    ensures
        view.asking_series(request, slot).watching(request, slot).with_headlines(
            request.req_id,
        ).asks_for_what_is_wanted(),
{
    let req_id = request.req_id;
    let asking = view.asking_series(request, slot);
    let after = asking.watching(request, slot).with_headlines(req_id);
    assert(after.requests == asking.watching(request, slot).requests);
    assert forall|at: InstrumentId, series: u32|
        after.series_asked(at).contains(series) implies series_wanted(
        after.requests,
        at,
        series,
    ) by {
        only_these_series(view.series_asked(at), request.generic_ticks@, series);
        if view.series_asked(at).contains(series) {
            assert(series_wanted(view.requests, at, series));
            let by = choose|by: i64| #[trigger]
                view.requests.dom().contains(by) && view.requests[by].slot == at
                    && view.requests[by].series@.contains(series);
            assert(after.requests.dom().contains(by) && after.requests[by] == view.requests[by]);
        } else {
            assert(after.requests.dom().contains(req_id));
            assert(after.requests[req_id].series@.contains(series));
        }
    }
}

proof fn only_these_series(held: Seq<u32>, more: Seq<u32>, series: u32)
    ensures
        with_series(held, more).contains(series) ==> held.contains(series) || more.contains(series),
    decreases more.len(),
{
    if more.len() > 0 {
        let before = more.drop_last();
        only_these_series(held, before, series);
        let all = with_series(held, more);
        if all.contains(series) && series != more.last() {
            let i = choose|i: int| 0 <= i < all.len() && all[i] == series;
            assert(with_series(held, before)[i] == series);
            if before.contains(series) {
                let j = choose|j: int| 0 <= j < before.len() && before[j] == series;
                assert(more[j] == series);
            }
        }
        if series == more.last() {
            assert(more[more.len() - 1] == series);
        }
    }
}

/// No series another request on the contract named is stopped.
pub proof fn a_series_others_want_stays(
    rest: Map<i64, MdRequest>,
    request: MdRequest,
    req_id: i64,
    series: u32,
)
    requires
        rest.dom().contains(req_id),
        rest[req_id].slot == request.slot,
        rest[req_id].series@.contains(series),
    ensures
        !stopped_series(rest, request).contains(series),
{
    assert(series_wanted(rest, request.slot, series));
    assert(is_of(rest[req_id], Kind::On(request.slot)));
    assert(any_of(rest, Kind::On(request.slot)));
    let all = stopped_series(rest, request);
    if all.contains(series) {
        let i = choose|i: int| 0 <= i < all.len() && all[i] == series;
        let dead = |one: u32| !series_wanted(rest, request.slot, one);
        request.series@.lemma_filter_pred(dead, i);
    }
}

/// What was taken is withdrawn, and its number is free again.
pub proof fn a_withdrawn_number_is_free(view: MarketView, req_id: i64)
    requires
        view.withdraws_taken(req_id),
    ensures
        !view.withdrawn(req_id).requests.dom().contains(req_id),
{
}

/// Releasing a scan releases one of its contract at most, and loses none.
pub proof fn one_scan_is_released(view: MarketView, con_id: i64)
    ensures
        view.releasing(con_id).held_scans.len() + view.releasing(con_id).resolved.len()
            == view.held_scans.len() + view.resolved.len(),
        view.releasing(con_id).resolved.len() <= view.resolved.len() + 1,
{
    scan_is_within(view.held_scans, con_id);
}

proof fn scan_is_within(list: Seq<Subscription>, con_id: i64)
    ensures
        scan_at(list, con_id) matches Some(at) ==> 0 <= at < list.len()
            && list[at].contract.con_id == con_id,
    decreases list.len(),
{
    if list.len() > 0 {
        scan_is_within(list.drop_last(), con_id);
        match scan_at(list.drop_last(), con_id) {
            Some(at) => {
                assert(list[at] == list.drop_last()[at]);
            },
            None => {},
        }
    }
}

} // verus!
