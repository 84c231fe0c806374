//! What is held about market-data requests.

use crate::engine::commands::Subscription;
use crate::engine::intake::exercise::{engine_owned, OWN_WATCHES};
use crate::engine::known::{said, say, Notice, Said};
use crate::error_codes::Refusal;
use crate::table::Table;
use crate::types::orders::InstrumentId;
use std::sync::Arc;
use vstd::prelude::*;

verus! {

/// A market-data request that was taken and not withdrawn.
#[derive(Debug, PartialEq)]
pub struct MdRequest {
    /// The slot it is served on.
    pub slot: InstrumentId,
    /// The contract it named, nought until the venue numbers it.
    pub con_id: i64,
    /// The extra series it named.
    pub series: Arc<Vec<u32>>,
    /// The providers it asked the contract's headlines of, where it did.
    pub news: Option<String>,
    /// Whether it is a spread scan.
    pub scan: bool,
    /// Whether it was opened for a calculation, whose withdrawal withdraws it.
    pub for_calculation: bool,
}

/// Something to do about a subscription, in the order it is done.
#[derive(Clone, Copy, Debug, PartialEq, Eq, Structural)]
#[allow(inconsistent_fields)]
pub enum MdAction {
    /// State the strategies the request asks to be scanned for.
    NoteScan { con_id: i64 },
    /// Note that the subscription is asked for.
    AskedOn { slot: InstrumentId, issued: u64 },
    /// Note that a request began beside the stream there is.
    BeganUnder { slot: InstrumentId, issued: u64 },
    /// Note that the slot changed hands.
    ChangedHands { slot: InstrumentId, issued: u64 },
    /// Say who holds the slot.
    Publish { slot: InstrumentId },
    /// Note the series the request asks for.
    SeriesAsked { slot: InstrumentId, issued: u64 },
    /// Note the kind of data asked for.
    DataType { slot: InstrumentId },
    /// Say the request is taken.
    Taken { req_id: i64, slot: InstrumentId },
    /// Ask for the contract's headlines.
    Headlines { slot: InstrumentId, con_id: i64, number: u64 },
    /// Keep a calculation on the slot.
    KeepCalculation { req_id: i64, slot: InstrumentId },
    /// Tell a request what the stream it joins was told.
    Follow { req_id: i64, slot: InstrumentId },
    /// Ask the stream there is for the request's own series.
    AlsoSeries { slot: InstrumentId },
    /// Say that a snapshot was lost with the feed.
    SnapshotLost { slot: InstrumentId },
    /// Note whether frozen data is asked for.
    Frozen { slot: InstrumentId },
    /// Subscribe.
    Subscribe { slot: InstrumentId },
    /// See whether the slot is still needed.
    Reclaim { slot: InstrumentId },
    /// Say the request is withdrawn.
    Withdrawn { req_id: i64 },
    /// Forget the calculation kept for a request.
    ForgetCalculation { req_id: i64 },
    /// Take the subscription down, with the series that stop.
    Unsubscribe { slot: InstrumentId, issued: u64 },
    /// Stop asking for the series that stop.
    StopSeries { slot: InstrumentId, issued: u64 },
    /// Stop the contract's headlines.
    StopHeadlines { slot: InstrumentId },
    /// Forget the strategies scanned for and what was found.
    ForgetScan { slot: InstrumentId, con_id: i64 },
    /// Drop the slot's tags, where neither quotes nor headlines hold it.
    DropTags { slot: InstrumentId },
}

/// What is held about market-data requests.
#[derive(Debug)]
pub struct Market {
    /// The requests taken and not withdrawn, by their caller's number.
    pub requests: Table<i64, MdRequest>,
    /// The scans held behind another on their contract.
    pub held_scans: Vec<Subscription>,
    /// The requests whose contract was just named.
    pub resolved: Vec<Subscription>,
    /// The requests whose contract is being named.
    pub naming: Vec<Subscription>,
    /// The slots whose contract's headlines are asked for.
    pub headlines: Vec<InstrumentId>,
    /// The series asked for on each slot.
    pub asked: Table<InstrumentId, Vec<u32>>,
    /// How many decisions about subscriptions were numbered.
    pub numbers: u64,
    /// The next number headlines are asked under.
    pub next_number: u64,
}

/// What is held about market-data requests.
#[verifier::ext_equal]
pub struct MarketView {
    pub requests: Map<i64, MdRequest>,
    pub held_scans: Seq<Subscription>,
    pub resolved: Seq<Subscription>,
    pub naming: Seq<Subscription>,
    pub headlines: Seq<InstrumentId>,
    pub asked: Map<InstrumentId, Seq<u32>>,
    pub numbers: u64,
    pub next_number: u64,
}

impl View for Market {
    type V = MarketView;

    open spec fn view(&self) -> MarketView {
        MarketView {
            requests: self.requests@,
            held_scans: self.held_scans@,
            resolved: self.resolved@,
            naming: self.naming@,
            headlines: self.headlines@,
            asked: self.asked@.map_values(|series: Vec<u32>| series@),
            numbers: self.numbers,
            next_number: self.next_number,
        }
    }
}

impl Market {
    /// Nothing taken yet.
    pub fn new() -> (market: Self)
        ensures
            market@ == (MarketView {
                requests: Map::empty(),
                held_scans: Seq::empty(),
                resolved: Seq::empty(),
                naming: Seq::empty(),
                headlines: Seq::empty(),
                asked: Map::empty(),
                numbers: 0,
                next_number: 1,
            }),
    {
        let market: Market = Market {
            requests: Table::new(),
            held_scans: Vec::new(),
            resolved: Vec::new(),
            naming: Vec::new(),
            headlines: Vec::new(),
            asked: Table::new(),
            numbers: 0,
            next_number: 1,
        };
        proof {
            assert(market@.asked =~= Map::empty());
        }
        market
    }

    /// The next number in the order of what is decided about subscriptions: the
    /// occupancy a request begins is named by it, and a withdrawal decided
    /// later carries a later one.
    pub fn next_md_number(&mut self) -> (number: u64)
        requires
            old(self).numbers < u64::MAX,
        ensures
            number == old(self)@.numbers + 1,
            final(self)@ == (MarketView { numbers: number, ..old(self)@ }),
    {
        self.numbers = self.numbers + 1;
        self.numbers
    }
}

/// What is said of a market-data request that is refused. One the engine opened
/// for itself is refused to nobody.
pub open spec fn md_refused(
    before: Seq<Said>,
    req_id: i64,
    code: i32,
    text: Seq<char>,
) -> Seq<Said> {
    if req_id >= OWN_WATCHES {
        before
    } else {
        before.push(Said::RequestRefused { req_id, code, text })
    }
}

/// Refuse a market-data request under its number.
pub fn refuse_md(notices: &mut Vec<Notice>, req_id: i64, why: Refusal)
    ensures
        said(final(notices)@) == md_refused(
            said(old(notices)@),
            req_id,
            why.code,
            why.message@,
        ),
{
    if engine_owned(req_id) {
        return;
    }
    say(notices, Notice::RequestRefused { req_id, code: why.code, text: why.message });
}

/// Where a request stands first in a list.
pub open spec fn listed_at(list: Seq<Subscription>, req_id: i64) -> Option<int>
    decreases list.len(),
{
    if list.len() == 0 {
        None
    } else {
        match listed_at(list.drop_last(), req_id) {
            Some(at) => Some(at),
            None => if list.last().req_id == req_id {
                Some(list.len() - 1)
            } else {
                None
            },
        }
    }
}

proof fn first_listed(list: Seq<Subscription>, req_id: i64, at: int)
    requires
        0 <= at <= list.len(),
        forall|i: int| 0 <= i < at ==> (#[trigger] list[i]).req_id != req_id,
        at < list.len() ==> list[at].req_id == req_id,
    ensures
        listed_at(list, req_id) == (if at < list.len() {
            Some(at)
        } else {
            None::<int>
        }),
    decreases list.len(),
{
    if list.len() > 0 {
        let before = list.drop_last();
        if at < list.len() - 1 {
            assert(before[at] == list[at]);
            first_listed(before, req_id, at);
        } else {
            assert forall|i: int| 0 <= i < before.len() implies (#[trigger] before[i]).req_id
                != req_id by {
                assert(before[i] == list[i]);
            }
            first_listed(before, req_id, before.len() as int);
        }
    }
}

/// Where a request stands first in a list.
pub fn find(list: &Vec<Subscription>, req_id: i64) -> (at: Option<usize>)
    ensures
        match at {
            Some(at) => at < list@.len() && listed_at(list@, req_id) == Some(at as int),
            None => listed_at(list@, req_id) is None,
        },
{
    let mut at: usize = 0;
    while at < list.len()
        invariant
            at <= list@.len(),
            forall|i: int| 0 <= i < at ==> (#[trigger] list@[i]).req_id != req_id,
        decreases list@.len() - at,
    {
        if list[at].req_id == req_id {
            proof {
                first_listed(list@, req_id, at as int);
            }
            return Some(at);
        }
        at = at + 1;
    }
    proof {
        first_listed(list@, req_id, at as int);
    }
    None
}

/// Whether some request is of a kind.
#[derive(Clone, Copy, Debug, PartialEq, Eq, Structural)]
pub enum Kind {
    /// It is served on a slot.
    On(InstrumentId),
    /// It is served on a slot and asked for headlines.
    WithNews(InstrumentId),
    /// It scans a contract.
    Scanning(i64),
}

/// Whether a request is of a kind.
pub open spec fn is_of(request: MdRequest, kind: Kind) -> bool {
    match kind {
        Kind::On(slot) => request.slot == slot,
        Kind::WithNews(slot) => request.slot == slot && request.news is Some,
        Kind::Scanning(con_id) => request.scan && request.con_id == con_id,
    }
}

/// Whether some request is of a kind.
pub open spec fn any_of(requests: Map<i64, MdRequest>, kind: Kind) -> bool {
    exists|req_id: i64| #[trigger]
        requests.dom().contains(req_id) && is_of(requests[req_id], kind)
}

fn matches_kind(request: &MdRequest, kind: Kind) -> (r: bool)
    ensures
        r == is_of(*request, kind),
{
    match kind {
        Kind::On(slot) => request.slot == slot,
        Kind::WithNews(slot) => request.slot == slot && request.news.is_some(),
        Kind::Scanning(con_id) => request.scan && request.con_id == con_id,
    }
}

/// Whether some request is of a kind.
pub fn some_request(requests: &Table<i64, MdRequest>, kind: Kind) -> (r: bool)
    ensures
        r == any_of(requests@, kind),
{
    let keys: Vec<i64> = requests.key_list();
    let mut at: usize = 0;
    proof {
        requests.keys_have_values();
        assert(keys@ =~= requests.keys());
    }
    while at < keys.len()
        invariant
            at <= keys@.len(),
            keys@ == requests.keys(),
            forall|key: i64|
                requests.keys().contains(key) <==> #[trigger] requests@.dom().contains(key),
            forall|i: int| 0 <= i < at ==> !is_of(requests@[#[trigger] keys@[i]], kind),
        decreases keys@.len() - at,
    {
        let key: i64 = keys[at];
        proof {
            assert(requests.keys().contains(key));
            assert(requests@.dom().contains(key));
        }
        match requests.get(&key) {
            Some(request) => {
                if matches_kind(request, kind) {
                    return true;
                }
            },
            None => {},
        }
        at = at + 1;
    }
    proof {
        assert forall|key: i64| #[trigger] requests@.dom().contains(key) implies !is_of(
            requests@[key],
            kind,
        ) by {
            assert(requests.keys().contains(key));
            let i = choose|i: int| 0 <= i < keys@.len() && keys@[i] == key;
            assert(keys@[i] == key);
        }
    }
    false
}

/// Whether some request served on a slot names a series.
pub open spec fn series_wanted(
    requests: Map<i64, MdRequest>,
    slot: InstrumentId,
    series: u32,
) -> bool {
    exists|req_id: i64| #[trigger]
        requests.dom().contains(req_id) && requests[req_id].slot == slot
            && requests[req_id].series@.contains(series)
}

/// Whether a list of series holds one.
pub fn holds_series(list: &Vec<u32>, series: u32) -> (held: bool)
    ensures
        held == list@.contains(series),
{
    let mut at: usize = 0;
    while at < list.len()
        invariant
            at <= list@.len(),
            forall|i: int| 0 <= i < at ==> list@[i] != series,
        decreases list@.len() - at,
    {
        if list[at] == series {
            return true;
        }
        at = at + 1;
    }
    false
}

/// Whether some request served on a slot names a series.
pub fn wants_series(
    requests: &Table<i64, MdRequest>,
    slot: InstrumentId,
    series: u32,
) -> (r: bool)
    ensures
        r == series_wanted(requests@, slot, series),
{
    let keys: Vec<i64> = requests.key_list();
    let mut at: usize = 0;
    proof {
        requests.keys_have_values();
        assert(keys@ =~= requests.keys());
    }
    while at < keys.len()
        invariant
            at <= keys@.len(),
            keys@ == requests.keys(),
            forall|key: i64|
                requests.keys().contains(key) <==> #[trigger] requests@.dom().contains(key),
            forall|i: int|
                0 <= i < at ==> !(requests@[#[trigger] keys@[i]].slot == slot
                    && requests@[keys@[i]].series@.contains(series)),
        decreases keys@.len() - at,
    {
        let key: i64 = keys[at];
        proof {
            assert(requests.keys().contains(key));
            assert(requests@.dom().contains(key));
        }
        match requests.get(&key) {
            Some(request) => {
                if request.slot == slot && holds_series(&request.series, series) {
                    return true;
                }
            },
            None => {},
        }
        at = at + 1;
    }
    proof {
        assert forall|key: i64| #[trigger] requests@.dom().contains(key) implies !(
        requests@[key].slot == slot && requests@[key].series@.contains(series)) by {
            assert(requests.keys().contains(key));
            let i = choose|i: int| 0 <= i < keys@.len() && keys@[i] == key;
            assert(keys@[i] == key);
        }
    }
    false
}

} // verus!
