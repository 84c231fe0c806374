//! The queries a session waits on, and what becomes of each.

use crate::engine::hmds::names::{answers, answers_it, names_it, states};
use crate::engine::hmds::series::Bar;
use crate::engine::hmds::streams::{first_named, Ticks, TicksView};
use crate::engine::known::{said, say, Notice, Said};
use crate::error_codes::{Refusal, DUPLICATE_HISTORICAL_QUERY, DUPLICATE_SCANNER_SUBSCRIPTION};
use vstd::prelude::*;

verus! {

/// What the data service says it could not do with a query.
pub const SERVICE_ERROR: i32 = 162;

/// The number what belongs to no request is told under.
pub const NO_REQUEST: u32 = 0xFFFF_FFFF;

/// What a query asks for.
#[derive(Clone, Copy, Debug, PartialEq, Eq, Structural)]
pub enum Asked {
    Bars,
    HeadTimestamp,
    Ticks,
    News,
    Article,
    Fundamental,
    Histogram,
    Adjustments,
    Scan,
}

/// A query that went out and is not answered.
#[derive(Debug, PartialEq, Eq)]
pub struct Waiting {
    pub asked: Asked,
    /// The name it went out under.
    pub query: String,
    /// The number its caller asked under.
    pub req_id: u32,
}

/// A series held until it is whole.
#[derive(Debug, PartialEq, Eq)]
pub struct HeldSeries {
    pub req_id: u32,
    /// The bars of the pages so far, oldest first.
    pub bars: Vec<Bar>,
    /// The zone the series states, empty until a page states one.
    pub timezone: String,
    /// The query for the corporate actions it is folded with, where it waits
    /// on one.
    pub actions_query: Option<String>,
    /// Whether its last page is in.
    pub complete: bool,
}

/// A stream of five-second bars.
#[derive(Debug, PartialEq, Eq)]
pub struct BarStream {
    pub query: String,
    pub req_id: u32,
    /// The venue's number for it, once it is stated.
    pub ticker: Option<u32>,
}

/// What a session holds of the data service.
#[derive(Debug, PartialEq, Eq)]
pub struct HmdsState {
    pub pending: Vec<Waiting>,
    pub pending_scanner_params: bool,
    pub held: Vec<HeldSeries>,
    /// The requests whose bars are kept up to date.
    pub keep_up_to_date_reqs: Vec<u32>,
    pub rtbar_subs: Vec<BarStream>,
    /// The requests whose stream a reconnect asks for again.
    pub rtbar_resub: Vec<u32>,
    /// The requests a bar is being formed for.
    pub forming_bars: Vec<u32>,
    pub ticks: Ticks,
}

/// What a session holds of the data service.
#[verifier::ext_equal]
pub struct HmdsView {
    pub pending: Seq<Waiting>,
    pub pending_scanner_params: bool,
    pub held: Seq<HeldSeries>,
    pub keep_up_to_date_reqs: Seq<u32>,
    pub rtbar_subs: Seq<BarStream>,
    pub rtbar_resub: Seq<u32>,
    pub forming_bars: Seq<u32>,
    pub ticks: TicksView,
}

/// The numbers that are not one.
pub open spec fn other_numbers(numbers: Seq<u32>, req_id: u32) -> Seq<u32> {
    numbers.filter(|number: u32| number != req_id)
}

/// The streams that answer another number.
pub open spec fn other_streams(streams: Seq<BarStream>, req_id: u32) -> Seq<BarStream> {
    streams.filter(|stream: BarStream| stream.req_id != req_id)
}

/// The series held for another number.
pub open spec fn other_series(held: Seq<HeldSeries>, req_id: u32) -> Seq<HeldSeries> {
    held.filter(|series: HeldSeries| series.req_id != req_id)
}

/// The venue's numbers for the streams that answer a number.
pub open spec fn tickers_of(streams: Seq<BarStream>, req_id: u32) -> Seq<u32>
    decreases streams.len(),
{
    if streams.len() == 0 {
        Seq::empty()
    } else {
        let before = tickers_of(streams.drop_last(), req_id);
        match streams.last().ticker {
            Some(ticker) => if streams.last().req_id == req_id {
                before.push(ticker)
            } else {
                before
            },
            None => before,
        }
    }
}

/// What a session holds once the stream half of a request is withdrawn: no
/// record of it stands under its number.
pub open spec fn without_the_stream_half(state: HmdsView, req_id: u32) -> HmdsView {
    HmdsView {
        keep_up_to_date_reqs: other_numbers(state.keep_up_to_date_reqs, req_id),
        rtbar_subs: other_streams(state.rtbar_subs, req_id),
        rtbar_resub: other_numbers(state.rtbar_resub, req_id),
        forming_bars: other_numbers(state.forming_bars, req_id),
        ..state
    }
}

/// What a session holds once a request for bars has failed whole.
pub open spec fn without_the_request(state: HmdsView, req_id: u32) -> HmdsView {
    without_the_stream_half(HmdsView { held: other_series(state.held, req_id), ..state }, req_id)
}

/// The venue's numbers for the streams withdrawn with a request.
pub open spec fn withdrawn_with(state: HmdsView, req_id: u32) -> Seq<u32> {
    if state.keep_up_to_date_reqs.contains(req_id) {
        tickers_of(state.rtbar_subs, req_id)
    } else {
        Seq::empty()
    }
}

/// What a session holds once a request for bars has failed: the stream half
/// goes with a request that is kept up to date, and a stream of its own under
/// the number stays.
pub open spec fn request_failed(state: HmdsView, req_id: u32) -> HmdsView {
    if state.keep_up_to_date_reqs.contains(req_id) {
        without_the_request(state, req_id)
    } else {
        HmdsView { held: other_series(state.held, req_id), ..state }
    }
}

/// What is told of a request that is refused.
pub open spec fn told(req_id: u32, code: i32, text: Seq<char>) -> Said {
    Said::RequestRefused { req_id: req_id as i64, code, text }
}

pub(crate) fn tell(notices: &mut Vec<Notice>, req_id: u32, code: i32, text: &str)
    ensures
        said(final(notices)@) == said(old(notices)@).push(told(req_id, code, text@)),
{
    say(notices, Notice::RequestRefused { req_id: req_id as i64, code, text: text.to_owned() });
}

/// What the waiting on a query that failed is: whether it is a request for
/// bars that fails whole with it.
pub open spec fn ends_bars(state: HmdsView, waiting: Waiting) -> bool {
    waiting.asked is Bars || (waiting.asked is Adjustments && folds_with(
        state.held,
        waiting.query,
    ))
}

/// Whether any series waits on a query for its corporate actions.
pub open spec fn folds_with(held: Seq<HeldSeries>, query: String) -> bool {
    exists|i: int| 0 <= i < held.len() && waits_on_actions(#[trigger] held[i], query)
}

/// Whether a series waits on a query for its corporate actions.
pub open spec fn waits_on_actions(series: HeldSeries, query: String) -> bool {
    match series.actions_query {
        Some(asked) => asked@ == query@,
        None => false,
    }
}

/// The first waiting query a name states, from a place on.
pub open spec fn first_waiting(pending: Seq<Waiting>, stated: Seq<char>, from: int) -> Option<int>
    decreases pending.len() - from,
{
    if from < 0 || from >= pending.len() {
        None
    } else if names_it(stated, pending[from].query@) {
        Some(from)
    } else {
        first_waiting(pending, stated, from + 1)
    }
}

/// The first stream of bars a name states, from a place on.
pub open spec fn first_bar_stream(streams: Seq<BarStream>, stated: Seq<char>, from: int) -> Option<
    int,
>
    decreases streams.len() - from,
{
    if from < 0 || from >= streams.len() {
        None
    } else if names_it(stated, streams[from].query@) {
        Some(from)
    } else {
        first_bar_stream(streams, stated, from + 1)
    }
}

/// What a session holds once a waiting query is refused.
pub open spec fn waiting_refused(state: HmdsView, at: int) -> HmdsView {
    let waiting = state.pending[at];
    let rest = HmdsView { pending: state.pending.remove(at), ..state };
    if ends_bars(state, waiting) {
        request_failed(rest, waiting.req_id)
    } else {
        rest
    }
}

/// What a session holds once a stream of bars is refused: the stream is gone
/// and not asked for again, and a request kept up to date is still kept.
pub open spec fn stream_refused(state: HmdsView, at: int) -> HmdsView {
    let req_id = state.rtbar_subs[at].req_id;
    HmdsView {
        rtbar_subs: other_streams(state.rtbar_subs, req_id),
        rtbar_resub: other_numbers(state.rtbar_resub, req_id),
        ..state
    }
}

/// What a session holds once the venue has refused a query.
pub open spec fn query_refused(state: HmdsView, stated: Seq<char>) -> HmdsView {
    match first_waiting(state.pending, stated, 0) {
        Some(at) => waiting_refused(state, at),
        None => match first_bar_stream(state.rtbar_subs, stated, 0) {
            Some(at) => stream_refused(state, at),
            None => match first_named(state.ticks.subscriptions, stated, 0) {
                Some(at) => HmdsView {
                    ticks: TicksView {
                        subscriptions: state.ticks.subscriptions.remove(at),
                        ..state.ticks
                    },
                    ..state
                },
                None => state,
            },
        },
    }
}

/// What is told when the venue refuses a query: its own caller hears the
/// venue's words, alone. The stream half of a request kept up to date is told
/// nothing, and neither is a name nothing waits under.
pub open spec fn told_of_refusal(state: HmdsView, stated: Seq<char>, text: Seq<char>) -> Seq<Said> {
    match first_waiting(state.pending, stated, 0) {
        Some(at) => seq![told(state.pending[at].req_id, SERVICE_ERROR, text)],
        None => match first_bar_stream(state.rtbar_subs, stated, 0) {
            Some(at) => {
                let req_id = state.rtbar_subs[at].req_id;
                if state.keep_up_to_date_reqs.contains(req_id) {
                    Seq::empty()
                } else {
                    seq![told(req_id, SERVICE_ERROR, text)]
                }
            },
            None => match first_named(state.ticks.subscriptions, stated, 0) {
                Some(at) => seq![
                    Said::RequestRefused {
                        req_id: state.ticks.subscriptions[at].caller_req_id,
                        code: SERVICE_ERROR,
                        text,
                    },
                ],
                None => Seq::empty(),
            },
        },
    }
}

/// What comes of a refusal beside what is told: the request for bars that is
/// over, and the streams withdrawn at the venue with it.
#[derive(Debug, PartialEq, Eq)]
pub struct Ended {
    pub over: Option<u32>,
    pub withdrawn: Vec<u32>,
}

/// The request for bars a refusal ends.
pub open spec fn ended_by(state: HmdsView, stated: Seq<char>) -> Option<u32> {
    match first_waiting(state.pending, stated, 0) {
        Some(at) => if ends_bars(state, state.pending[at]) {
            Some(state.pending[at].req_id)
        } else {
            None
        },
        None => None,
    }
}

/// The streams withdrawn at the venue with the request a refusal ends.
pub open spec fn withdrawn_by(state: HmdsView, stated: Seq<char>) -> Seq<u32> {
    match ended_by(state, stated) {
        Some(req_id) => withdrawn_with(state, req_id),
        None => Seq::empty(),
    }
}

fn keep_other_numbers(numbers: &mut Vec<u32>, req_id: u32)
    ensures
        final(numbers)@ == other_numbers(old(numbers)@, req_id),
{
    let mut kept: Vec<u32> = Vec::new();
    let mut at: usize = 0;
    proof {
        assert(numbers@.take(0) =~= Seq::empty());
        reveal_with_fuel(Seq::filter, 1);
    }
    while at < numbers.len()
        invariant
            numbers@ == old(numbers)@,
            at <= numbers@.len(),
            kept@ == other_numbers(numbers@.take(at as int), req_id),
        decreases numbers@.len() - at,
    {
        proof {
            reveal_with_fuel(Seq::filter, 2);
            assert(numbers@.take(at + 1).drop_last() =~= numbers@.take(at as int));
        }
        if numbers[at] != req_id {
            kept.push(numbers[at]);
        }
        at = at + 1;
    }
    proof {
        assert(numbers@.take(at as int) =~= numbers@);
    }
    *numbers = kept;
}

fn keep_other_streams(streams: &mut Vec<BarStream>, req_id: u32)
    ensures
        final(streams)@ == other_streams(old(streams)@, req_id),
{
    let mut kept: Vec<BarStream> = Vec::new();
    let mut at: usize = 0;
    proof {
        assert(streams@.take(0) =~= Seq::empty());
        reveal_with_fuel(Seq::filter, 1);
    }
    while at < streams.len()
        invariant
            streams@ == old(streams)@,
            at <= streams@.len(),
            kept@ == other_streams(streams@.take(at as int), req_id),
        decreases streams@.len() - at,
    {
        proof {
            reveal_with_fuel(Seq::filter, 2);
            assert(streams@.take(at + 1).drop_last() =~= streams@.take(at as int));
        }
        if streams[at].req_id != req_id {
            kept.push(
                BarStream {
                    query: streams[at].query.clone(),
                    req_id: streams[at].req_id,
                    ticker: streams[at].ticker,
                },
            );
        }
        at = at + 1;
    }
    proof {
        assert(streams@.take(at as int) =~= streams@);
    }
    *streams = kept;
}

proof fn taking_out_what_is_not_kept(held: Seq<HeldSeries>, at: int, req_id: u32)
    requires
        0 <= at < held.len(),
        held[at].req_id == req_id,
    ensures
        other_series(held.remove(at), req_id) == other_series(held, req_id),
{
    let keeps = |series: HeldSeries| series.req_id != req_id;
    let before = held.take(at);
    let after = held.skip(at + 1);
    assert(held =~= before.push(held[at]) + after);
    assert(held.remove(at) =~= before + after);
    Seq::filter_distributes_over_add(before.push(held[at]), after, keeps);
    Seq::filter_distributes_over_add(before, after, keeps);
    reveal_with_fuel(Seq::filter, 2);
    assert(before.push(held[at]).drop_last() =~= before);
}

proof fn keeping_all(held: Seq<HeldSeries>, req_id: u32)
    requires
        forall|i: int| 0 <= i < held.len() ==> (#[trigger] held[i]).req_id != req_id,
    ensures
        other_series(held, req_id) == held,
    decreases held.len(),
{
    reveal_with_fuel(Seq::filter, 2);
    if held.len() > 0 {
        keeping_all(held.drop_last(), req_id);
        assert(held.drop_last().push(held.last()) =~= held);
    } else {
        assert(held =~= Seq::empty());
    }
}

fn keep_other_series(held: &mut Vec<HeldSeries>, req_id: u32)
    ensures
        final(held)@ == other_series(old(held)@, req_id),
{
    let mut at: usize = 0;
    while at < held.len()
        invariant
            at <= held@.len(),
            forall|i: int| 0 <= i < at ==> (#[trigger] held@[i]).req_id != req_id,
            other_series(held@, req_id) == other_series(old(held)@, req_id),
        decreases held@.len() - at,
    {
        if held[at].req_id == req_id {
            proof {
                taking_out_what_is_not_kept(held@, at as int, req_id);
            }
            held.remove(at);
        } else {
            at = at + 1;
        }
    }
    proof {
        keeping_all(held@, req_id);
    }
}

/// How many waiting queries ask for one thing.
pub open spec fn waiting_count(pending: Seq<Waiting>, asked: Asked) -> nat
    decreases pending.len(),
{
    if pending.len() == 0 {
        0
    } else {
        waiting_count(pending.drop_last(), asked) + if pending.last().asked == asked {
            1nat
        } else {
            0
        }
    }
}

/// The first running scan a reply answers, from a place on.
pub open spec fn first_scan_answered(pending: Seq<Waiting>, reply: Seq<char>, from: int) -> Option<
    u32,
>
    decreases pending.len() - from,
{
    if from < 0 || from >= pending.len() {
        None
    } else if pending[from].asked is Scan && answers_it(reply, pending[from].query@) {
        Some(pending[from].req_id)
    } else {
        first_scan_answered(pending, reply, from + 1)
    }
}

/// Whether a number already answers a request for bars.
pub open spec fn answering_bars(state: HmdsView, req_id: u32) -> bool {
    ||| exists|i: int|
        0 <= i < state.pending.len() && (#[trigger] state.pending[i]).asked is Bars
            && state.pending[i].req_id == req_id
    ||| exists|i: int| 0 <= i < state.held.len() && (#[trigger] state.held[i]).req_id == req_id
    ||| state.keep_up_to_date_reqs.contains(req_id)
}

/// Whether a number already runs a scan.
pub open spec fn running_a_scan(state: HmdsView, req_id: u32) -> bool {
    exists|i: int|
        0 <= i < state.pending.len() && (#[trigger] state.pending[i]).asked is Scan
            && state.pending[i].req_id == req_id
}

/// What a number cannot be asked under, as it is told: another request for
/// bars, a head timestamp or a histogram while it answers one for bars, and
/// another scan while it runs one.
pub open spec fn refused_at_once(state: HmdsView, asked: Asked, req_id: u32) -> Option<Said> {
    match asked {
        Asked::Bars | Asked::HeadTimestamp | Asked::Histogram => if answering_bars(state, req_id) {
            Some(
                told(
                    req_id,
                    DUPLICATE_HISTORICAL_QUERY,
                    "Duplicate ticker ID for API historical data query"@,
                ),
            )
        } else {
            None
        },
        Asked::Scan => if running_a_scan(state, req_id) {
            Some(
                told(
                    req_id,
                    DUPLICATE_SCANNER_SUBSCRIPTION,
                    "Duplicate ticker ID for API scanner subscription"@,
                ),
            )
        } else {
            None
        },
        _ => None,
    }
}

/// What is told of a query that could not be sent.
pub open spec fn not_sent() -> Seq<char> {
    "the data service is not connected"@
}

/// Whether a query that could not be sent ends a request for bars: a series is
/// held for it, or it is the request itself.
pub open spec fn unsent_ends_bars(state: HmdsView, waiting: Waiting) -> bool {
    waiting.asked is Bars || (waiting.asked is Adjustments && exists|i: int|
        0 <= i < state.held.len() && (#[trigger] state.held[i]).req_id == waiting.req_id)
}

/// What a session holds once a query has gone out, or could not.
pub open spec fn gone_out(state: HmdsView, waiting: Waiting, sent: bool) -> HmdsView {
    if sent {
        HmdsView { pending: state.pending.push(waiting), ..state }
    } else if unsent_ends_bars(state, waiting) {
        request_failed(state, waiting.req_id)
    } else {
        state
    }
}

impl HmdsState {
    /// What a session holds of the data service.
    pub open spec fn view(self) -> HmdsView {
        HmdsView {
            pending: self.pending@,
            pending_scanner_params: self.pending_scanner_params,
            held: self.held@,
            keep_up_to_date_reqs: self.keep_up_to_date_reqs@,
            rtbar_subs: self.rtbar_subs@,
            rtbar_resub: self.rtbar_resub@,
            forming_bars: self.forming_bars@,
            ticks: self.ticks@,
        }
    }

    /// A session that has asked for nothing.
    pub fn new() -> (state: Self)
        ensures
            state@.pending.len() == 0,
            !state@.pending_scanner_params,
            state@.held.len() == 0,
            state@.keep_up_to_date_reqs.len() == 0,
            state@.rtbar_subs.len() == 0,
            state@.rtbar_resub.len() == 0,
            state@.forming_bars.len() == 0,
            state@.ticks.subscriptions.len() == 0,
            state@.ticks.withdrawn.len() == 0,
            state@.ticks.withdrawn_unnumbered.len() == 0,
    {
        HmdsState {
            pending: Vec::new(),
            pending_scanner_params: false,
            held: Vec::new(),
            keep_up_to_date_reqs: Vec::new(),
            rtbar_subs: Vec::new(),
            rtbar_resub: Vec::new(),
            forming_bars: Vec::new(),
            ticks: Ticks::new(),
        }
    }

    /// How many waiting queries ask for one thing.
    pub fn waiting_on(&self, asked: Asked) -> (count: usize)
        ensures
            count == waiting_count(self@.pending, asked),
    {
        let mut count: usize = 0;
        let mut at: usize = 0;
        proof {
            assert(self.pending@.take(0) =~= Seq::empty());
        }
        while at < self.pending.len()
            invariant
                at <= self.pending@.len(),
                count <= at,
                count == waiting_count(self.pending@.take(at as int), asked),
            decreases self.pending@.len() - at,
        {
            proof {
                assert(self.pending@.take(at + 1).drop_last() =~= self.pending@.take(at as int));
            }
            if self.pending[at].asked == asked {
                count = count + 1;
            }
            at = at + 1;
        }
        proof {
            assert(self.pending@.take(at as int) =~= self.pending@);
        }
        count
    }

    /// How many requests for bars wait on the venue.
    pub fn pending_historical_count(&self) -> (count: usize)
        ensures
            count == waiting_count(self@.pending, Asked::Bars),
    {
        self.waiting_on(Asked::Bars)
    }

    /// The scan a reply answers: the running one whose name it states.
    pub fn scanner_answered(&self, reply: &str) -> (req_id: Option<u32>)
        ensures
            req_id == first_scan_answered(self@.pending, reply@, 0),
    {
        let mut at: usize = 0;
        while at < self.pending.len()
            invariant
                at <= self.pending@.len(),
                first_scan_answered(self@.pending, reply@, 0) == first_scan_answered(
                    self@.pending,
                    reply@,
                    at as int,
                ),
            decreases self.pending@.len() - at,
        {
            if self.pending[at].asked == Asked::Scan && answers(
                reply,
                self.pending[at].query.as_str(),
            ) {
                return Some(self.pending[at].req_id);
            }
            at = at + 1;
        }
        None
    }

    fn holds_series(&self, req_id: u32) -> (held: bool)
        ensures
            held == exists|i: int|
                0 <= i < self.held@.len() && (#[trigger] self.held@[i]).req_id == req_id,
    {
        let mut at: usize = 0;
        while at < self.held.len()
            invariant
                at <= self.held@.len(),
                forall|i: int| 0 <= i < at ==> (#[trigger] self.held@[i]).req_id != req_id,
            decreases self.held@.len() - at,
        {
            if self.held[at].req_id == req_id {
                assert(self.held@[at as int].req_id == req_id);
                return true;
            }
            at = at + 1;
        }
        false
    }

    fn keeps_up_to_date(&self, req_id: u32) -> (kept: bool)
        ensures
            kept == self.keep_up_to_date_reqs@.contains(req_id),
    {
        let mut at: usize = 0;
        while at < self.keep_up_to_date_reqs.len()
            invariant
                at <= self.keep_up_to_date_reqs@.len(),
                forall|i: int| 0 <= i < at ==> #[trigger] self.keep_up_to_date_reqs@[i] != req_id,
            decreases self.keep_up_to_date_reqs@.len() - at,
        {
            if self.keep_up_to_date_reqs[at] == req_id {
                assert(self.keep_up_to_date_reqs@[at as int] == req_id);
                return true;
            }
            at = at + 1;
        }
        false
    }

    fn waits_under(&self, asked: Asked, req_id: u32) -> (waits: bool)
        ensures
            waits == exists|i: int|
                0 <= i < self.pending@.len() && (#[trigger] self.pending@[i]).asked == asked
                    && self.pending@[i].req_id == req_id,
    {
        let mut at: usize = 0;
        while at < self.pending.len()
            invariant
                at <= self.pending@.len(),
                forall|i: int|
                    0 <= i < at ==> !((#[trigger] self.pending@[i]).asked == asked
                        && self.pending@[i].req_id == req_id),
            decreases self.pending@.len() - at,
        {
            if self.pending[at].asked == asked && self.pending[at].req_id == req_id {
                assert(self.pending@[at as int].asked == asked);
                return true;
            }
            at = at + 1;
        }
        false
    }

    /// Refuse what cannot be asked under a number, before it is sent.
    pub fn may_ask(&self, notices: &mut Vec<Notice>, asked: Asked, req_id: u32) -> (allowed: bool)
        ensures
            allowed == (refused_at_once(self@, asked, req_id) is None),
            said(final(notices)@) == (match refused_at_once(self@, asked, req_id) {
                Some(refusal) => said(old(notices)@).push(refusal),
                None => said(old(notices)@),
            }),
    {
        match asked {
            Asked::Bars | Asked::HeadTimestamp | Asked::Histogram => {
                if self.waits_under(Asked::Bars, req_id) || self.holds_series(req_id)
                    || self.keeps_up_to_date(req_id) {
                    tell(
                        notices,
                        req_id,
                        DUPLICATE_HISTORICAL_QUERY,
                        "Duplicate ticker ID for API historical data query",
                    );
                    return false;
                }
                true
            },
            Asked::Scan => {
                if self.waits_under(Asked::Scan, req_id) {
                    tell(
                        notices,
                        req_id,
                        DUPLICATE_SCANNER_SUBSCRIPTION,
                        "Duplicate ticker ID for API scanner subscription",
                    );
                    return false;
                }
                true
            },
            _ => true,
        }
    }

    fn tickers(&self, req_id: u32) -> (tickers: Vec<u32>)
        ensures
            tickers@ == tickers_of(self@.rtbar_subs, req_id),
    {
        let mut tickers: Vec<u32> = Vec::new();
        let mut at: usize = 0;
        proof {
            assert(self.rtbar_subs@.take(0) =~= Seq::empty());
        }
        while at < self.rtbar_subs.len()
            invariant
                at <= self.rtbar_subs@.len(),
                tickers@ == tickers_of(self.rtbar_subs@.take(at as int), req_id),
            decreases self.rtbar_subs@.len() - at,
        {
            proof {
                assert(self.rtbar_subs@.take(at + 1).drop_last() =~= self.rtbar_subs@.take(
                    at as int,
                ));
            }
            if self.rtbar_subs[at].req_id == req_id {
                if let Some(ticker) = self.rtbar_subs[at].ticker {
                    tickers.push(ticker);
                }
            }
            at = at + 1;
        }
        proof {
            assert(self.rtbar_subs@.take(at as int) =~= self.rtbar_subs@);
        }
        tickers
    }

    /// Withdraw the five-second stream a request kept up to date rides, and
    /// every record under its number: the venue's numbers for it.
    pub fn withdraw_the_stream_half(&mut self, req_id: u32) -> (tickers: Vec<u32>)
        ensures
            final(self)@ == without_the_stream_half(old(self)@, req_id),
            tickers@ == tickers_of(old(self)@.rtbar_subs, req_id),
    {
        let tickers: Vec<u32> = self.tickers(req_id);
        keep_other_numbers(&mut self.keep_up_to_date_reqs, req_id);
        keep_other_streams(&mut self.rtbar_subs, req_id);
        keep_other_numbers(&mut self.rtbar_resub, req_id);
        keep_other_numbers(&mut self.forming_bars, req_id);
        tickers
    }

    /// Let go of a request for bars that failed: the venue's numbers for the
    /// stream withdrawn with it.
    pub(crate) fn fail_request(&mut self, req_id: u32) -> (tickers: Vec<u32>)
        ensures
            final(self)@ == request_failed(old(self)@, req_id),
            tickers@ == withdrawn_with(old(self)@, req_id),
    {
        keep_other_series(&mut self.held, req_id);
        if self.keeps_up_to_date(req_id) {
            self.withdraw_the_stream_half(req_id)
        } else {
            Vec::new()
        }
    }

    /// Wait on a query that went out, or tell its caller that it could not.
    pub fn record(&mut self, notices: &mut Vec<Notice>, waiting: Waiting, sent: bool) -> (ended:
        Ended)
        ensures
            final(self)@ == gone_out(old(self)@, waiting, sent),
            said(final(notices)@) == (if sent {
                said(old(notices)@)
            } else {
                said(old(notices)@).push(
                    told(waiting.req_id, Refusal::NOT_CONNECTED, not_sent()),
                )
            }),
            ended.over == (if !sent && unsent_ends_bars(old(self)@, waiting) {
                Some(waiting.req_id)
            } else {
                None
            }),
            ended.withdrawn@ == (if !sent && unsent_ends_bars(old(self)@, waiting) {
                withdrawn_with(old(self)@, waiting.req_id)
            } else {
                Seq::empty()
            }),
    {
        if sent {
            self.pending.push(waiting);
            return Ended { over: None, withdrawn: Vec::new() };
        }
        tell(
            notices,
            waiting.req_id,
            Refusal::NOT_CONNECTED,
            "the data service is not connected",
        );
        if waiting.asked == Asked::Bars || (waiting.asked == Asked::Adjustments
            && self.holds_series(waiting.req_id)) {
            let withdrawn: Vec<u32> = self.fail_request(waiting.req_id);
            return Ended { over: Some(waiting.req_id), withdrawn };
        }
        Ended { over: None, withdrawn: Vec::new() }
    }

    /// Wait on the scanner's parameters, or tell the session that they could
    /// not be asked for.
    pub fn record_scanner_params(&mut self, notices: &mut Vec<Notice>, sent: bool)
        ensures
            final(self)@ == (HmdsView {
                pending_scanner_params: sent || old(self)@.pending_scanner_params,
                ..old(self)@
            }),
            said(final(notices)@) == (if sent {
                said(old(notices)@)
            } else {
                said(old(notices)@).push(told(NO_REQUEST, Refusal::NOT_CONNECTED, not_sent()))
            }),
    {
        if sent {
            self.pending_scanner_params = true;
        } else {
            tell(
                notices,
                NO_REQUEST,
                Refusal::NOT_CONNECTED,
                "the data service is not connected",
            );
        }
    }

    fn place_waiting(&self, stated: &str) -> (place: Option<usize>)
        ensures
            place is Some <==> first_waiting(self@.pending, stated@, 0) is Some,
            place matches Some(at) ==> at < self@.pending.len() && first_waiting(
                self@.pending,
                stated@,
                0,
            ) == Some(at as int),
    {
        let mut at: usize = 0;
        while at < self.pending.len()
            invariant
                at <= self.pending@.len(),
                first_waiting(self@.pending, stated@, 0) == first_waiting(
                    self@.pending,
                    stated@,
                    at as int,
                ),
            decreases self.pending@.len() - at,
        {
            if states(stated, self.pending[at].query.as_str()) {
                return Some(at);
            }
            at = at + 1;
        }
        None
    }

    fn place_bar_stream(&self, stated: &str) -> (place: Option<usize>)
        ensures
            place is Some <==> first_bar_stream(self@.rtbar_subs, stated@, 0) is Some,
            place matches Some(at) ==> at < self@.rtbar_subs.len() && first_bar_stream(
                self@.rtbar_subs,
                stated@,
                0,
            ) == Some(at as int),
    {
        let mut at: usize = 0;
        while at < self.rtbar_subs.len()
            invariant
                at <= self.rtbar_subs@.len(),
                first_bar_stream(self@.rtbar_subs, stated@, 0) == first_bar_stream(
                    self@.rtbar_subs,
                    stated@,
                    at as int,
                ),
            decreases self.rtbar_subs@.len() - at,
        {
            if states(stated, self.rtbar_subs[at].query.as_str()) {
                return Some(at);
            }
            at = at + 1;
        }
        None
    }

    pub(crate) fn is_folded_with(&self, query: &String) -> (folded: bool)
        ensures
            folded == folds_with(self@.held, *query),
    {
        let mut at: usize = 0;
        while at < self.held.len()
            invariant
                at <= self.held@.len(),
                forall|i: int|
                    0 <= i < at ==> !waits_on_actions(#[trigger] self.held@[i], *query),
            decreases self.held@.len() - at,
        {
            if let Some(asked) = &self.held[at].actions_query {
                if *asked.as_str() == *query.as_str() {
                    assert(waits_on_actions(self.held@[at as int], *query));
                    return true;
                }
            }
            at = at + 1;
        }
        false
    }

    /// Take the venue's refusal of a query, under the name it states.
    pub fn refuse_query(&mut self, notices: &mut Vec<Notice>, stated: &str, text: &str) -> (ended:
        Ended)
        ensures
            final(self)@ == query_refused(old(self)@, stated@),
            said(final(notices)@) == said(old(notices)@) + told_of_refusal(
                old(self)@,
                stated@,
                text@,
            ),
            ended.over == ended_by(old(self)@, stated@),
            ended.withdrawn@ == withdrawn_by(old(self)@, stated@),
    {
        let ghost before = said(notices@);
        if let Some(at) = self.place_waiting(stated) {
            let folded: bool = self.is_folded_with(&self.pending[at].query);
            let waiting: Waiting = self.pending.remove(at);
            tell(notices, waiting.req_id, SERVICE_ERROR, text);
            proof {
                assert(said(notices@) =~= before + told_of_refusal(old(self)@, stated@, text@));
            }
            if waiting.asked == Asked::Bars || (waiting.asked == Asked::Adjustments && folded) {
                let withdrawn: Vec<u32> = self.fail_request(waiting.req_id);
                return Ended { over: Some(waiting.req_id), withdrawn };
            }
            return Ended { over: None, withdrawn: Vec::new() };
        }
        if let Some(at) = self.place_bar_stream(stated) {
            let req_id: u32 = self.rtbar_subs[at].req_id;
            if !self.keeps_up_to_date(req_id) {
                tell(notices, req_id, SERVICE_ERROR, text);
            }
            proof {
                assert(said(notices@) =~= before + told_of_refusal(old(self)@, stated@, text@));
            }
            keep_other_streams(&mut self.rtbar_subs, req_id);
            keep_other_numbers(&mut self.rtbar_resub, req_id);
            return Ended { over: None, withdrawn: Vec::new() };
        }
        if let Some(caller) = self.ticks.refused(stated) {
            say(
                notices,
                Notice::RequestRefused { req_id: caller, code: SERVICE_ERROR, text: text.to_owned() },
            );
        }
        proof {
            assert(said(notices@) =~= before + told_of_refusal(old(self)@, stated@, text@));
        }
        Ended { over: None, withdrawn: Vec::new() }
    }
}

} // verus!
