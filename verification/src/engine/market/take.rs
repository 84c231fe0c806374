//! Taking a market-data request.

use crate::engine::commands::{Calculation, LookupFilters, Subscription};
use crate::engine::intake::exercise::{engine_owned, OWN_WATCHES};
use crate::engine::known::{said, Notice};
use crate::engine::market::laws::{
    a_request_is_served_on_its_slot, a_taken_request_is_kept_as_asked, kept_as_asked,
    served_on_its_slot,
};
use crate::engine::market::state::{
    any_of, find, holds_series, listed_at, md_refused, refuse_md, some_request, Kind, Market,
    MarketView, MdAction, MdRequest,
};
use crate::error_codes::{Refusal, DUPLICATE_TICKER_ID};
use crate::text::{decimal, int_text, joined, joined3};
use crate::types::orders::InstrumentId;
use vstd::prelude::*;

verus! {

/// The code a request past the lines the venue allows is refused under.
pub const NO_LINE_LEFT: i32 = 101;

/// What became of a market-data request just made.
#[derive(Debug, PartialEq)]
pub enum Admission {
    /// It is refused.
    Refused,
    /// It is a calculation on a contract already watched under its number, kept
    /// on that watch.
    Calculation { slot: InstrumentId, asked: Calculation },
    /// It is a scan held behind another on its contract.
    HeldBack,
    /// Its contract is to be registered, with what narrows its lookup.
    Register { request: Subscription, issued: u64, narrowing: String },
}

impl MarketView {
    /// Whether a request with this number waits for market data: for its
    /// contract's name, or behind another scan.
    pub open spec fn waits(self, req_id: i64) -> bool {
        listed_at(self.held_scans, req_id) is Some || listed_at(self.resolved, req_id) is Some
            || listed_at(self.naming, req_id) is Some
    }

    /// Whether a request asks a calculation under a number already watching its
    /// contract: that watch is what makes the venue state the model.
    pub open spec fn calculates_on_its_watch(self, request: Subscription) -> bool {
        self.requests.dom().contains(request.req_id) && request.calculation is Some
            && request.contract.con_id != 0 && self.requests[request.req_id].con_id
            == request.contract.con_id
    }

    /// Whether a request is a scan that waits for another on its contract.
    pub open spec fn scans_behind(self, request: Subscription) -> bool {
        request.spread_scan is Some && request.contract.con_id > 0 && any_of(
            self.requests,
            Kind::Scanning(request.contract.con_id),
        )
    }
}

/// What narrows the lookup of a contract, and so tells two descriptions apart,
/// whole.
pub open spec fn narrowing_whole(filters: LookupFilters) -> Seq<char> {
    filters.primary_exchange@ + "|"@ + (filters.local_symbol@ + "|"@ + (filters.trading_class@
        + "|"@ + (filters.sec_id_type@ + "|"@ + (filters.sec_id@ + "|"@
        + filters.issuer_id@))))
}

/// Whether a text holds nothing but separators.
pub open spec fn only_separators(text: Seq<char>) -> bool {
    forall|i: int| 0 <= i < text.len() ==> #[trigger] text[i] == '|'
}

/// What narrows the lookup of a contract: nothing where nothing is stated.
pub open spec fn narrowing_of(filters: LookupFilters) -> Seq<char> {
    if only_separators(narrowing_whole(filters)) {
        Seq::empty()
    } else {
        narrowing_whole(filters)
    }
}

fn separators_alone(text: &str) -> (r: bool)
    ensures
        r == only_separators(text@),
{
    let len: usize = text.unicode_len();
    let mut at: usize = 0;
    while at < len
        invariant
            at <= len,
            len == text@.len(),
            forall|i: int| 0 <= i < at ==> #[trigger] text@[i] == '|',
        decreases len - at,
    {
        if text.get_char(at) != '|' {
            return false;
        }
        at = at + 1;
    }
    true
}

/// What narrows the lookup of a contract.
pub fn narrowing_text(filters: &LookupFilters) -> (text: String)
    ensures
        text@ == narrowing_of(*filters),
{
    let tail: String = joined3(filters.sec_id.as_str(), "|", filters.issuer_id.as_str());
    let tail: String = joined3(filters.sec_id_type.as_str(), "|", tail.as_str());
    let tail: String = joined3(filters.trading_class.as_str(), "|", tail.as_str());
    let tail: String = joined3(filters.local_symbol.as_str(), "|", tail.as_str());
    let whole: String = joined3(filters.primary_exchange.as_str(), "|", tail.as_str());
    if separators_alone(whole.as_str()) {
        let nothing: String = String::new();
        proof {
            assert(nothing@ =~= Seq::empty());
        }
        nothing
    } else {
        whole
    }
}

/// What is said of a request whose number already waits.
pub open spec fn waits_text(req_id: i64) -> Seq<char> {
    "request "@ + decimal(req_id as int)
        + " is already waiting for market data: withdraw it before asking again"@
}

/// What is said of a request whose number already watches a contract.
pub open spec fn watches_text(req_id: i64) -> Seq<char> {
    "request "@ + decimal(req_id as int)
        + " is already watching a contract: withdraw it before asking for another under the same number"@
}

/// Take a market-data request as far as its contract: refuse it where the feed
/// is halted for the session or its number is in use, hold a scan back behind
/// another of its contract, and number what is decided otherwise. One request
/// per number, and one scan of a contract at a time.
pub fn admit_subscription(
    market: &mut Market,
    notices: &mut Vec<Notice>,
    actions: &mut Vec<MdAction>,
    request: Subscription,
    halted: Option<&str>,
) -> (admission: Admission)
    requires
        old(market).numbers < u64::MAX,
    ensures
        ({
            let req_id = request.req_id;
            let before = said(old(notices)@);
            let view = old(market)@;
            if halted is Some {
                &&& admission is Refused
                &&& final(market)@ == view && final(actions)@ == old(actions)@
                &&& said(final(notices)@) == md_refused(
                    before,
                    req_id,
                    200,
                    "market data is unavailable for the rest of this session: "@
                        + halted->Some_0@,
                )
            } else if view.waits(req_id) {
                &&& admission is Refused
                &&& final(market)@ == view && final(actions)@ == old(actions)@
                &&& said(final(notices)@) == md_refused(before, req_id, 102, waits_text(req_id))
            } else if view.calculates_on_its_watch(request) {
                &&& admission == (Admission::Calculation {
                    slot: view.requests[req_id].slot,
                    asked: request.calculation->Some_0,
                })
                &&& final(market)@ == view && said(final(notices)@) == before
                &&& final(actions)@ == old(actions)@.push(
                    MdAction::KeepCalculation { req_id, slot: view.requests[req_id].slot },
                )
            } else if view.requests.dom().contains(req_id) {
                &&& admission is Refused
                &&& final(market)@ == view && final(actions)@ == old(actions)@
                &&& said(final(notices)@) == md_refused(before, req_id, 102, watches_text(req_id))
            } else if view.scans_behind(request) {
                &&& admission is HeldBack
                &&& final(market)@ == (MarketView {
                    held_scans: view.held_scans.push(request),
                    ..view
                })
                &&& said(final(notices)@) == before && final(actions)@ == old(actions)@
            } else {
                &&& admission matches Admission::Register { request: r, issued, narrowing }
                    && r == request && issued == view.numbers + 1 && narrowing@ == narrowing_of(
                    request.filters,
                ) && final(market)@ == (MarketView { numbers: issued, ..view })
                &&& said(final(notices)@) == before
                &&& final(actions)@ == (if request.contract.con_id > 0
                    && request.spread_scan is Some {
                    old(actions)@.push(MdAction::NoteScan { con_id: request.contract.con_id })
                } else {
                    old(actions)@
                })
            }
        }),
{
    let req_id: i64 = request.req_id;
    match halted {
        Some(why) => {
            let text: String = joined(
                "market data is unavailable for the rest of this session: ",
                why,
            );
            refuse_md(
                notices,
                req_id,
                Refusal::stated(Refusal::NO_DEFINITION, text.as_str()),
            );
            return Admission::Refused;
        },
        None => {},
    }
    if find(&market.held_scans, req_id).is_some() || find(&market.resolved, req_id).is_some()
        || find(&market.naming, req_id).is_some() {
        let text: String = joined3(
            "request ",
            int_text(req_id).as_str(),
            " is already waiting for market data: withdraw it before asking again",
        );
        refuse_md(notices, req_id, Refusal::stated(DUPLICATE_TICKER_ID, text.as_str()));
        return Admission::Refused;
    }
    let con_id: i64 = request.contract.con_id;
    let watched: Option<(InstrumentId, i64)> = match market.requests.get(&req_id) {
        Some(held) => Some((held.slot, held.con_id)),
        None => None,
    };
    match watched {
        Some((slot, held)) => {
            match request.calculation {
                Some(asked) => {
                    if con_id != 0 && held == con_id {
                        actions.push(MdAction::KeepCalculation { req_id, slot });
                        return Admission::Calculation { slot, asked };
                    }
                },
                None => {},
            }
            let text: String = joined3(
                "request ",
                int_text(req_id).as_str(),
                " is already watching a contract: withdraw it before asking for another under the same number",
            );
            refuse_md(notices, req_id, Refusal::stated(DUPLICATE_TICKER_ID, text.as_str()));
            return Admission::Refused;
        },
        None => {},
    }
    if request.spread_scan.is_some() && con_id > 0 && some_request(
        &market.requests,
        Kind::Scanning(con_id),
    ) {
        market.held_scans.push(request);
        return Admission::HeldBack;
    }
    let issued: u64 = market.next_md_number();
    if con_id > 0 && request.spread_scan.is_some() {
        actions.push(MdAction::NoteScan { con_id });
    }
    let narrowing: String = narrowing_text(&request.filters);
    Admission::Register { request, issued, narrowing }
}

/// A list of series with others added, each once, in the order they came.
pub open spec fn with_series(held: Seq<u32>, more: Seq<u32>) -> Seq<u32>
    decreases more.len(),
{
    if more.len() == 0 {
        held
    } else {
        let before = with_series(held, more.drop_last());
        if before.contains(more.last()) {
            before
        } else {
            before.push(more.last())
        }
    }
}

/// The series of a list that another does not hold, each once, in the order
/// they came.
pub open spec fn new_series(held: Seq<u32>, more: Seq<u32>) -> Seq<u32> {
    with_series(held, more).skip(held.len() as int)
}

proof fn held_series_stay_first(held: Seq<u32>, more: Seq<u32>)
    ensures
        held.len() <= with_series(held, more).len(),
        with_series(held, more).take(held.len() as int) == held,
    decreases more.len(),
{
    if more.len() > 0 {
        held_series_stay_first(held, more.drop_last());
    }
    assert(with_series(held, more).take(held.len() as int) =~= held);
}

fn add_series(held: &mut Vec<u32>, more: &Vec<u32>)
    ensures
        final(held)@ == with_series(old(held)@, more@),
{
    let mut at: usize = 0;
    proof {
        assert(more@.take(0) =~= Seq::empty());
    }
    while at < more.len()
        invariant
            at <= more@.len(),
            held@ == with_series(old(held)@, more@.take(at as int)),
        decreases more@.len() - at,
    {
        proof {
            assert(more@.take(at + 1).drop_last() =~= more@.take(at as int));
            assert(more@.take(at + 1).last() == more@[at as int]);
        }
        if !holds_series(held, more[at]) {
            held.push(more[at]);
        }
        at = at + 1;
    }
    proof {
        assert(more@.take(at as int) =~= more@);
    }
}

impl MarketView {
    /// The series asked for on a slot.
    pub open spec fn series_asked(self, slot: InstrumentId) -> Seq<u32> {
        if self.asked.dom().contains(slot) {
            self.asked[slot]
        } else {
            Seq::empty()
        }
    }

    /// With the series of a request asked for on a slot, with the subscription
    /// that goes out for it or beside the stream it joins. A snapshot the venue
    /// charges for states none.
    pub open spec fn asking_series(self, request: Subscription, slot: InstrumentId) -> MarketView {
        if request.generic_ticks@.len() > 0 && !request.regulatory_snapshot {
            MarketView {
                asked: self.asked.insert(
                    slot,
                    with_series(self.series_asked(slot), request.generic_ticks@),
                ),
                ..self
            }
        } else {
            self
        }
    }

    /// With a request taken.
    pub open spec fn watching(self, request: Subscription, slot: InstrumentId) -> MarketView {
        MarketView {
            requests: self.requests.insert(
                request.req_id,
                MdRequest {
                    slot,
                    con_id: request.contract.con_id,
                    series: request.generic_ticks,
                    news: request.news,
                    scan: request.spread_scan is Some,
                    for_calculation: request.calculation is Some,
                },
            ),
            ..self
        }
    }

    /// Whether a request's contract's headlines are to be asked for: it wants
    /// them, the contract is numbered, and nobody on it asked already.
    pub open spec fn wants_headlines(self, req_id: i64) -> bool {
        self.requests.dom().contains(req_id) && self.requests[req_id].news is Some
            && self.requests[req_id].con_id > 0 && !self.headlines.contains(
            self.requests[req_id].slot,
        )
    }

    /// With a request's contract's headlines asked for, where they are to be.
    pub open spec fn with_headlines(self, req_id: i64) -> MarketView {
        if self.wants_headlines(req_id) {
            MarketView {
                headlines: self.headlines.push(self.requests[req_id].slot),
                next_number: (self.next_number + 1) as u64,
                ..self
            }
        } else {
            self
        }
    }
}

fn ask_series(market: &mut Market, request: &Subscription, slot: InstrumentId)
    ensures
        final(market)@ == old(market)@.asking_series(*request, slot),
{
    if request.generic_ticks.len() > 0 && !request.regulatory_snapshot {
        let ghost asked = market.asked@;
        let mut held: Vec<u32> = match market.asked.remove(&slot) {
            Some(held) => held,
            None => Vec::new(),
        };
        add_series(&mut held, &request.generic_ticks);
        let ghost series = held;
        market.asked.insert(slot, held);
        proof {
            let texts = |series: Vec<u32>| series@;
            assert(old(market)@.series_asked(slot) =~= (if asked.dom().contains(slot) {
                asked[slot]@
            } else {
                Seq::empty()
            }));
            assert(market.asked@.map_values(texts) =~= asked.map_values(texts).insert(
                slot,
                series@,
            ));
        }
    }
}

/// The series of a request that a slot does not ask for yet: what is asked for
/// beside a stream the request joins.
pub fn series_not_asked(market: &Market, slot: InstrumentId, series: &Vec<u32>) -> (more: Vec<u32>)
    ensures
        more@ == new_series(market@.series_asked(slot), series@),
{
    let none: Vec<u32> = Vec::new();
    let held: &Vec<u32> = match market.asked.get(&slot) {
        Some(held) => held,
        None => &none,
    };
    proof {
        assert(held@ =~= market@.series_asked(slot));
        assert(series@.take(0) =~= Seq::empty());
        assert(new_series(held@, Seq::empty()) =~= Seq::empty());
    }
    let mut more: Vec<u32> = Vec::new();
    let mut at: usize = 0;
    while at < series.len()
        invariant
            at <= series@.len(),
            more@ == new_series(held@, series@.take(at as int)),
        decreases series@.len() - at,
    {
        let one: u32 = series[at];
        proof {
            let before = series@.take(at as int);
            let all = with_series(held@, before);
            assert(series@.take(at + 1).drop_last() =~= before);
            assert(series@.take(at + 1).last() == one);
            held_series_stay_first(held@, before);
            assert(all =~= held@ + more@);
            assert(all.contains(one) <==> held@.contains(one) || more@.contains(one)) by {
                broadcast use vstd::seq_lib::group_seq_properties;

            }
            assert(all.push(one).skip(held@.len() as int) =~= more@.push(one));
        }
        if !holds_series(held, one) && !holds_series(&more, one) {
            more.push(one);
        }
        at = at + 1;
    }
    proof {
        assert(series@.take(at as int) =~= series@);
    }
    more
}

/// Ask for a contract's headlines for a request that wants them, once the
/// contract is numbered, where nobody on it has already asked. The venue is
/// asked by contract and withdrawn by contract, so asking twice would leave a
/// subscription the one withdrawal cannot match.
pub fn ask_for_headlines(market: &mut Market, actions: &mut Vec<MdAction>, req_id: i64)
    requires
        old(market).next_number < u64::MAX,
    ensures
        final(market)@ == old(market)@.with_headlines(req_id),
        final(actions)@ == (if old(market)@.wants_headlines(req_id) {
            old(actions)@.push(
                MdAction::Headlines {
                    slot: old(market)@.requests[req_id].slot,
                    con_id: old(market)@.requests[req_id].con_id,
                    number: old(market)@.next_number,
                },
            )
        } else {
            old(actions)@
        }),
{
    let wanted: Option<(InstrumentId, i64)> = match market.requests.get(&req_id) {
        Some(request) => if request.news.is_some() && request.con_id > 0 {
            Some((request.slot, request.con_id))
        } else {
            None
        },
        None => None,
    };
    match wanted {
        Some((slot, con_id)) => {
            if holds_series(&market.headlines, slot) {
                return;
            }
            actions.push(MdAction::Headlines { slot, con_id, number: market.next_number });
            market.next_number = market.next_number + 1;
            market.headlines.push(slot);
        },
        None => {},
    }
}

/// What is noted of a subscription as it is asked for. A request that begins
/// the stream owns the occupancy, and one beside what is already there did not
/// begin it and must not rename it.
pub open spec fn noted(
    slot: InstrumentId,
    issued: u64,
    streaming: bool,
    joins: bool,
) -> Seq<MdAction> {
    if joins {
        seq![MdAction::AskedOn { slot, issued }, MdAction::SeriesAsked { slot, issued }]
    } else {
        seq![
            MdAction::AskedOn { slot, issued },
            if streaming {
                MdAction::BeganUnder { slot, issued }
            } else {
                MdAction::ChangedHands { slot, issued }
            },
            MdAction::Publish { slot },
            MdAction::SeriesAsked { slot, issued },
        ]
    }
}

/// How many lines others take: the slots that hold a stream, but for one.
pub open spec fn other_streams(streams: Seq<InstrumentId>, slot: InstrumentId) -> Seq<InstrumentId> {
    streams.filter(|at: InstrumentId| at != slot)
}

/// What is done once a request is taken, up to the subscription itself.
pub open spec fn said_of_taking(
    view: MarketView,
    request: Subscription,
    slot: InstrumentId,
    joins: bool,
) -> Seq<MdAction> {
    let req_id = request.req_id;
    let kind = if !joins && !request.regulatory_snapshot {
        seq![MdAction::DataType { slot }]
    } else {
        Seq::empty()
    };
    let taken = if req_id >= OWN_WATCHES {
        Seq::empty()
    } else {
        seq![MdAction::Taken { req_id, slot }]
    };
    let headlines = if view.watching(request, slot).wants_headlines(req_id) {
        seq![
            MdAction::Headlines {
                slot,
                con_id: request.contract.con_id,
                number: view.next_number,
            },
        ]
    } else {
        Seq::empty()
    };
    let kept = if request.calculation is Some {
        seq![MdAction::KeepCalculation { req_id, slot }]
    } else {
        Seq::empty()
    };
    kind + taken + headlines + kept
}

/// What is done about the subscription of a request that is taken.
pub open spec fn subscribing(
    request: Subscription,
    slot: InstrumentId,
    streaming: bool,
    joins: bool,
    feed_down: bool,
) -> Seq<MdAction> {
    if joins {
        let told = if request.req_id >= OWN_WATCHES {
            Seq::empty()
        } else {
            seq![MdAction::Follow { req_id: request.req_id, slot }]
        };
        if request.generic_ticks@.len() > 0 {
            told.push(MdAction::AlsoSeries { slot })
        } else {
            told
        }
    } else if request.regulatory_snapshot && feed_down {
        if streaming {
            Seq::empty()
        } else {
            seq![MdAction::SnapshotLost { slot }]
        }
    } else if request.regulatory_snapshot {
        seq![MdAction::Subscribe { slot }]
    } else {
        seq![MdAction::Frozen { slot }, MdAction::Subscribe { slot }]
    }
}

fn count_others(streams: &Vec<InstrumentId>, slot: InstrumentId) -> (count: usize)
    ensures
        count == other_streams(streams@, slot).len(),
{
    let mut count: usize = 0;
    let mut at: usize = 0;
    proof {
        reveal(Seq::filter);
        assert(streams@.take(0) =~= Seq::empty());
    }
    while at < streams.len()
        invariant
            count <= at <= streams@.len(),
            count == other_streams(streams@.take(at as int), slot).len(),
        decreases streams@.len() - at,
    {
        proof {
            reveal(Seq::filter);
            assert(streams@.take(at + 1).drop_last() =~= streams@.take(at as int));
            assert(streams@.take(at + 1).last() == streams@[at as int]);
        }
        if streams[at] != slot {
            count = count + 1;
        }
        at = at + 1;
    }
    proof {
        assert(streams@.take(at as int) =~= streams@);
    }
    count
}

fn note(
    actions: &mut Vec<MdAction>,
    slot: InstrumentId,
    issued: u64,
    streaming: bool,
    joins: bool,
)
    ensures
        final(actions)@ == old(actions)@ + noted(slot, issued, streaming, joins),
{
    actions.push(MdAction::AskedOn { slot, issued });
    if !joins {
        if streaming {
            actions.push(MdAction::BeganUnder { slot, issued });
        } else {
            actions.push(MdAction::ChangedHands { slot, issued });
        }
        actions.push(MdAction::Publish { slot });
    }
    actions.push(MdAction::SeriesAsked { slot, issued });
    proof {
        assert(actions@ =~= old(actions)@ + noted(slot, issued, streaming, joins));
    }
}

fn record(
    market: &mut Market,
    actions: &mut Vec<MdAction>,
    request: &Subscription,
    slot: InstrumentId,
    joins: bool,
)
    requires
        old(market).next_number < u64::MAX,
    ensures
        final(market)@ == old(market)@.watching(*request, slot).with_headlines(request.req_id),
        final(actions)@ == old(actions)@ + said_of_taking(old(market)@, *request, slot, joins),
{
    if !joins && !request.regulatory_snapshot {
        actions.push(MdAction::DataType { slot });
    }
    market.requests.insert(
        request.req_id,
        MdRequest {
            slot,
            con_id: request.contract.con_id,
            series: request.generic_ticks.clone(),
            news: request.news.clone(),
            scan: request.spread_scan.is_some(),
            for_calculation: request.calculation.is_some(),
        },
    );
    if !engine_owned(request.req_id) {
        actions.push(MdAction::Taken { req_id: request.req_id, slot });
    }
    ask_for_headlines(market, actions, request.req_id);
    if request.calculation.is_some() {
        actions.push(MdAction::KeepCalculation { req_id: request.req_id, slot });
    }
    proof {
        assert(actions@ =~= old(actions)@ + said_of_taking(old(market)@, *request, slot, joins));
    }
}

fn subscribe(
    actions: &mut Vec<MdAction>,
    request: &Subscription,
    slot: InstrumentId,
    streaming: bool,
    joins: bool,
    feed_down: bool,
)
    ensures
        final(actions)@ == old(actions)@ + subscribing(
            *request,
            slot,
            streaming,
            joins,
            feed_down,
        ),
{
    if joins {
        if !engine_owned(request.req_id) {
            actions.push(MdAction::Follow { req_id: request.req_id, slot });
        }
        if request.generic_ticks.len() > 0 {
            actions.push(MdAction::AlsoSeries { slot });
        }
    } else if request.regulatory_snapshot && feed_down {
        if !streaming {
            actions.push(MdAction::SnapshotLost { slot });
        }
    } else {
        if !request.regulatory_snapshot {
            actions.push(MdAction::Frozen { slot });
        }
        actions.push(MdAction::Subscribe { slot });
    }
    proof {
        assert(actions@ =~= old(actions)@ + subscribing(
            *request,
            slot,
            streaming,
            joins,
            feed_down,
        ));
    }
}

/// Whether a market-data request is past the lines the venue allows. A snapshot
/// the venue charges for takes none, and neither does a request that joins a
/// stream.
pub open spec fn past_allowance(
    request: Subscription,
    slot: InstrumentId,
    streams: Seq<InstrumentId>,
    allowance: usize,
) -> bool {
    let joins = streams.contains(slot) && !request.regulatory_snapshot;
    !joins && !request.regulatory_snapshot && other_streams(streams, slot).len() >= allowance
}

/// Serve a market-data request whose contract is registered on a slot: off the
/// stream there is, or off one that is asked for. One contract holds one
/// subscription on the wire; a snapshot the venue charges for is a request of
/// its own. `streams` are the slots that hold a stream, each once, `allowance`
/// is how many the venue allows, and `feed_down` says whether the feed is down.
/// Says whether the request is taken.
pub fn serve_subscription(
    market: &mut Market,
    notices: &mut Vec<Notice>,
    actions: &mut Vec<MdAction>,
    request: &Subscription,
    issued: u64,
    slot: InstrumentId,
    streams: &Vec<InstrumentId>,
    allowance: usize,
    feed_down: bool,
) -> (taken: bool)
    requires
        old(market).next_number < u64::MAX,
    ensures
        ({
            let streaming = streams@.contains(slot);
            let joins = streaming && !request.regulatory_snapshot;
            let asked = old(market)@.asking_series(*request, slot);
            let first = old(actions)@ + noted(slot, issued, streaming, joins);
            if past_allowance(*request, slot, streams@, allowance) {
                &&& !taken
                &&& final(market)@ == asked
                &&& final(actions)@ == first.push(MdAction::Reclaim { slot })
                &&& said(final(notices)@) == md_refused(
                    said(old(notices)@),
                    request.req_id,
                    101,
                    "Max number of tickers has been reached"@,
                )
            } else {
                &&& taken
                &&& final(market)@ == asked.watching(*request, slot).with_headlines(
                    request.req_id,
                )
                &&& final(actions)@ == first + said_of_taking(asked, *request, slot, joins)
                    + subscribing(*request, slot, streaming, joins, feed_down)
                &&& said(final(notices)@) == said(old(notices)@)
                &&& served_on_its_slot(
                    old(actions)@,
                    final(actions)@,
                    *request,
                    slot,
                    issued,
                    streaming,
                    feed_down,
                )
                &&& kept_as_asked(
                    old(market)@.requests,
                    final(market)@.requests,
                    *request,
                    slot,
                )
            }
        }),
{
    let streaming: bool = holds_series(streams, slot);
    let joins: bool = streaming && !request.regulatory_snapshot;
    ask_series(market, request, slot);
    note(actions, slot, issued, streaming, joins);
    if !joins && !request.regulatory_snapshot && count_others(streams, slot) >= allowance {
        refuse_md(
            notices,
            request.req_id,
            Refusal::stated(NO_LINE_LEFT, "Max number of tickers has been reached"),
        );
        actions.push(MdAction::Reclaim { slot });
        return false;
    }
    record(market, actions, request, slot, joins);
    subscribe(actions, request, slot, streaming, joins, feed_down);
    proof {
        let asked = old(market)@.asking_series(*request, slot);
        a_request_is_served_on_its_slot(
            asked,
            old(actions)@,
            *request,
            slot,
            issued,
            streaming,
            feed_down,
        );
        a_taken_request_is_kept_as_asked(old(market)@, *request, slot);
    }
    true
}

/// Whether no contract is scanned by two requests.
pub open spec fn scanned_once(requests: Map<i64, MdRequest>) -> bool {
    forall|a: i64, b: i64| #[trigger]
        requests.dom().contains(a) && #[trigger] requests.dom().contains(b) && a != b
            && requests[a].scan && requests[b].scan && requests[a].con_id > 0
            ==> requests[a].con_id != requests[b].con_id
}

/// One scan of a contract at a time: a scan that is not held back is the only
/// one of its contract.
pub proof fn a_contract_is_scanned_once(
    view: MarketView,
    request: Subscription,
    slot: InstrumentId,
)
    requires
        scanned_once(view.requests),
        !view.scans_behind(request),
        !view.requests.dom().contains(request.req_id),
    ensures
        scanned_once(view.watching(request, slot).requests),
{
    let after = view.watching(request, slot).requests;
    assert forall|a: i64, b: i64| #[trigger]
        after.dom().contains(a) && #[trigger] after.dom().contains(b) && a != b && after[a].scan
            && after[b].scan && after[a].con_id > 0 implies after[a].con_id != after[b].con_id by {
        if after[a].con_id == after[b].con_id {
            let other = if a == request.req_id {
                b
            } else {
                a
            };
            assert(view.requests.dom().contains(a) || a == request.req_id);
            assert(view.requests.dom().contains(b) || b == request.req_id);
            assert(view.requests.dom().contains(other));
            if a == request.req_id || b == request.req_id {
                assert(is_scanning(view.requests, other, request.contract.con_id));
                assert(any_of(view.requests, Kind::Scanning(request.contract.con_id)));
            }
        }
    }
}

spec fn is_scanning(requests: Map<i64, MdRequest>, req_id: i64, con_id: i64) -> bool {
    requests.dom().contains(req_id) && requests[req_id].scan && requests[req_id].con_id == con_id
}

/// A contract's headlines are asked for once while they are up.
pub proof fn headlines_are_asked_for_once(view: MarketView, req_id: i64, other: i64)
    requires
        view.requests.dom().contains(other),
        view.requests.dom().contains(req_id),
        view.requests[other].slot == view.requests[req_id].slot,
        view.wants_headlines(req_id),
    ensures
        !view.with_headlines(req_id).wants_headlines(other),
{
    let after = view.with_headlines(req_id);
    assert(after.headlines[view.headlines.len() as int] == view.requests[req_id].slot);
}

/// What is asked for beside a stream is what the request names and the slot
/// does not ask for yet, each once, and with it the slot asks for all of both.
pub proof fn a_joiner_asks_for_what_is_missing(held: Seq<u32>, more: Seq<u32>)
    requires
        held.no_duplicates(),
    ensures
        held + new_series(held, more) == with_series(held, more),
        new_series(held, more).no_duplicates(),
        forall|series: u32|
            new_series(held, more).contains(series) <==> more.contains(series) && !held.contains(
                series,
            ),
{
    let all = with_series(held, more);
    let new = new_series(held, more);
    held_series_stay_first(held, more);
    each_series_is_asked_for_once(held, more);
    assert(held + new =~= all);
    assert forall|i: int, j: int| 0 <= i < new.len() && 0 <= j < new.len() && i != j implies new[i]
        != new[j] by {
        assert(new[i] == all[held.len() + i] && new[j] == all[held.len() + j]);
    }
    assert forall|series: u32|
        new.contains(series) <==> more.contains(series) && !held.contains(series) by {
        if new.contains(series) {
            let i = choose|i: int| 0 <= i < new.len() && new[i] == series;
            assert(all[held.len() + i] == series);
            assert(all.contains(series));
            if held.contains(series) {
                let j = choose|j: int| 0 <= j < held.len() && held[j] == series;
                assert(all[j] == series);
            }
        }
        if more.contains(series) && !held.contains(series) {
            assert(all.contains(series));
            let i = choose|i: int| 0 <= i < all.len() && all[i] == series;
            if i < held.len() {
                assert(held[i] == series);
            }
            assert(new[i - held.len()] == series);
        }
    }
}

/// Each series is asked for once on a slot.
pub proof fn each_series_is_asked_for_once(held: Seq<u32>, more: Seq<u32>)
    requires
        held.no_duplicates(),
    ensures
        with_series(held, more).no_duplicates(),
        forall|series: u32|
            with_series(held, more).contains(series) <==> held.contains(series) || more.contains(
                series,
            ),
    decreases more.len(),
{
    if more.len() > 0 {
        let before = more.drop_last();
        let last = more.last();
        each_series_is_asked_for_once(held, before);
        let earlier = with_series(held, before);
        let after = with_series(held, more);
        assert forall|series: u32|
            after.contains(series) <==> held.contains(series) || more.contains(series) by {
            assert(more.contains(series) <==> before.contains(series) || series == last) by {
                if more.contains(series) {
                    let i = choose|i: int| 0 <= i < more.len() && more[i] == series;
                    if i < before.len() {
                        assert(before[i] == series);
                    }
                }
                if before.contains(series) {
                    let i = choose|i: int| 0 <= i < before.len() && before[i] == series;
                    assert(more[i] == series);
                }
                if series == last {
                    assert(more[more.len() - 1] == series);
                }
            }
            if !earlier.contains(last) {
                assert(after == earlier.push(last));
                if earlier.contains(series) {
                    let i = choose|i: int| 0 <= i < earlier.len() && earlier[i] == series;
                    assert(after[i] == series);
                }
                if series == last {
                    assert(after[earlier.len() as int] == series);
                }
                if after.contains(series) {
                    let i = choose|i: int| 0 <= i < after.len() && after[i] == series;
                    if i < earlier.len() {
                        assert(earlier[i] == series);
                    }
                }
            }
        }
    }
}

} // verus!
