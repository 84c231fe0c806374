//! The tick-by-tick streams that are open, and how one is withdrawn.

use crate::engine::hmds::names::{names_it, states};
use crate::engine::hmds::ticks::{TbtType, TickAck};
use crate::text::{digits, joined, uint_text};
use crate::types::orders::InstrumentId;
use vstd::prelude::*;

verus! {

/// Where a stream stands: a price is sent as a move from the last one.
#[derive(Clone, Copy, Debug, PartialEq, Eq, Structural)]
pub struct Running {
    pub last: i64,
    pub bid: i64,
    pub ask: i64,
}

/// A stream a caller reads.
#[derive(Debug, PartialEq, Eq)]
pub struct TbtSubscription {
    pub instrument: InstrumentId,
    /// The name its query went out under.
    pub query_id: String,
    pub kind: TbtType,
    pub caller_req_id: i64,
    /// The venue's number for it, nought until it is stated.
    pub venue_id: u64,
    /// What its prices move in, as the venue stated it.
    pub min_tick: String,
    /// What its sizes move in, as the venue stated it.
    pub size_tick: String,
    /// Where it stands.
    pub running: Running,
}

/// A stream withdrawn before the venue numbered it.
#[derive(Debug, PartialEq, Eq)]
pub struct Unnumbered {
    pub query_id: String,
    pub instrument: InstrumentId,
    pub kind: TbtType,
}

/// The tick-by-tick streams of a session.
#[derive(Debug, PartialEq, Eq)]
pub struct Ticks {
    pub subscriptions: Vec<TbtSubscription>,
    /// The numbers withdrawn at the venue, which goes on sending their records.
    pub withdrawn: Vec<u64>,
    pub withdrawn_unnumbered: Vec<Unnumbered>,
}

/// What the streams of a session are.
#[verifier::ext_equal]
pub struct TicksView {
    pub subscriptions: Seq<TbtSubscription>,
    pub withdrawn: Seq<u64>,
    pub withdrawn_unnumbered: Seq<Unnumbered>,
}

/// A query to withdraw at the venue.
#[derive(Debug, PartialEq, Eq)]
pub enum Withdrawal {
    /// Under the name it went out under.
    ByName(String),
    /// Under the venue's number for it.
    ByNumber(u64),
}

/// What a withdrawal states of the stream it withdraws.
pub open spec fn withdrawal_id(withdrawal: Withdrawal) -> Seq<char> {
    match withdrawal {
        Withdrawal::ByName(name) => name@,
        Withdrawal::ByNumber(number) => "rtTicker:"@ + digits(number as nat),
    }
}

impl Withdrawal {
    /// What a withdrawal states of the stream it withdraws.
    pub fn id(&self) -> (id: String)
        ensures
            id@ == withdrawal_id(*self),
    {
        match self {
            Withdrawal::ByName(name) => name.clone(),
            Withdrawal::ByNumber(number) => joined("rtTicker:", uint_text(*number).as_str()),
        }
    }
}

/// Whether a stream is the one a caller reads on a contract.
pub open spec fn read_by(stream: TbtSubscription, caller: i64, instrument: InstrumentId) -> bool {
    stream.caller_req_id == caller && stream.instrument == instrument
}

/// The first stream a caller reads on a contract, from a place on.
pub open spec fn first_read_by(
    streams: Seq<TbtSubscription>,
    caller: i64,
    instrument: InstrumentId,
    from: int,
) -> Option<int>
    decreases streams.len() - from,
{
    if from < 0 || from >= streams.len() {
        None
    } else if read_by(streams[from], caller, instrument) {
        Some(from)
    } else {
        first_read_by(streams, caller, instrument, from + 1)
    }
}

/// Whether a stream is served under a number: it has that number, or it waits
/// for one and asks for the same kind on the same contract, which the venue
/// answers with the number it gave the first.
pub open spec fn served_under(
    stream: TbtSubscription,
    number: u64,
    instrument: InstrumentId,
    kind: TbtType,
) -> bool {
    stream.venue_id == number || (stream.venue_id == 0 && stream.instrument == instrument
        && stream.kind == kind)
}

/// Whether any stream is served under a number.
pub open spec fn still_read(
    streams: Seq<TbtSubscription>,
    number: u64,
    instrument: InstrumentId,
    kind: TbtType,
) -> bool {
    exists|i: int|
        0 <= i < streams.len() && served_under(#[trigger] streams[i], number, instrument, kind)
}

/// The streams once a number nobody reads is withdrawn, and as they were where
/// somebody does.
pub open spec fn number_let_go(
    ticks: TicksView,
    number: u64,
    instrument: InstrumentId,
    kind: TbtType,
) -> TicksView {
    if still_read(ticks.subscriptions, number, instrument, kind) {
        ticks
    } else {
        TicksView { withdrawn: ticks.withdrawn.push(number), ..ticks }
    }
}

/// The streams once a caller has left the one it read on a contract.
pub open spec fn left(ticks: TicksView, caller: i64, instrument: InstrumentId) -> TicksView {
    match first_read_by(ticks.subscriptions, caller, instrument, 0) {
        None => ticks,
        Some(at) => {
            let gone = ticks.subscriptions[at];
            let rest = TicksView { subscriptions: ticks.subscriptions.remove(at), ..ticks };
            if gone.venue_id == 0 {
                TicksView {
                    withdrawn_unnumbered: rest.withdrawn_unnumbered.push(
                        Unnumbered {
                            query_id: gone.query_id,
                            instrument: gone.instrument,
                            kind: gone.kind,
                        },
                    ),
                    ..rest
                }
            } else {
                number_let_go(rest, gone.venue_id, gone.instrument, gone.kind)
            }
        },
    }
}

/// What is withdrawn at the venue when a caller leaves the stream it read.
pub open spec fn withdrawn_on_leaving(
    ticks: TicksView,
    caller: i64,
    instrument: InstrumentId,
) -> Option<Withdrawal> {
    match first_read_by(ticks.subscriptions, caller, instrument, 0) {
        None => None,
        Some(at) => {
            let gone = ticks.subscriptions[at];
            if gone.venue_id == 0 {
                Some(Withdrawal::ByName(gone.query_id))
            } else if still_read(
                ticks.subscriptions.remove(at),
                gone.venue_id,
                gone.instrument,
                gone.kind,
            ) {
                None
            } else {
                Some(Withdrawal::ByNumber(gone.venue_id))
            }
        },
    }
}

/// The first stream whose query a name states, from a place on.
pub open spec fn first_named(streams: Seq<TbtSubscription>, stated: Seq<char>, from: int) -> Option<
    int,
>
    decreases streams.len() - from,
{
    if from < 0 || from >= streams.len() {
        None
    } else if names_it(stated, streams[from].query_id@) {
        Some(from)
    } else {
        first_named(streams, stated, from + 1)
    }
}

/// The first withdrawn and unnumbered stream whose query a name states, from a
/// place on.
pub open spec fn first_unnumbered(streams: Seq<Unnumbered>, stated: Seq<char>, from: int) -> Option<
    int,
>
    decreases streams.len() - from,
{
    if from < 0 || from >= streams.len() {
        None
    } else if names_it(stated, streams[from].query_id@) {
        Some(from)
    } else {
        first_unnumbered(streams, stated, from + 1)
    }
}

/// The first stream under a number, from a place on.
pub open spec fn first_numbered(streams: Seq<TbtSubscription>, number: u64, from: int) -> Option<int>
    decreases streams.len() - from,
{
    if from < 0 || from >= streams.len() {
        None
    } else if streams[from].venue_id == number {
        Some(from)
    } else {
        first_numbered(streams, number, from + 1)
    }
}

/// Where a stream that is given a number stands: where the stream under that
/// number stands, and where it stood itself where there is none.
pub open spec fn anchored(streams: Seq<TbtSubscription>, number: u64, own: Running) -> Running {
    match first_numbered(streams, number, 0) {
        Some(at) => streams[at].running,
        None => own,
    }
}

/// The streams once the venue has acknowledged a query.
pub open spec fn acknowledged(ticks: TicksView, ack: TickAck) -> TicksView {
    match first_named(ticks.subscriptions, ack.query_id@, 0) {
        Some(at) => {
            let stream = ticks.subscriptions[at];
            TicksView {
                subscriptions: ticks.subscriptions.update(
                    at,
                    TbtSubscription {
                        venue_id: ack.venue_id,
                        min_tick: ack.min_tick,
                        size_tick: ack.size_min_tick,
                        running: anchored(ticks.subscriptions, ack.venue_id, stream.running),
                        ..stream
                    },
                ),
                ..ticks
            }
        },
        None => match first_unnumbered(ticks.withdrawn_unnumbered, ack.query_id@, 0) {
            Some(at) => {
                let gone = ticks.withdrawn_unnumbered[at];
                number_let_go(
                    TicksView {
                        withdrawn_unnumbered: ticks.withdrawn_unnumbered.remove(at),
                        ..ticks
                    },
                    ack.venue_id,
                    gone.instrument,
                    gone.kind,
                )
            },
            None => ticks,
        },
    }
}

/// What is withdrawn at the venue when it acknowledges a query.
pub open spec fn withdrawn_on_ack(ticks: TicksView, ack: TickAck) -> Option<Withdrawal> {
    if first_named(ticks.subscriptions, ack.query_id@, 0) is Some {
        None
    } else {
        match first_unnumbered(ticks.withdrawn_unnumbered, ack.query_id@, 0) {
            Some(at) => {
                let gone = ticks.withdrawn_unnumbered[at];
                if still_read(ticks.subscriptions, ack.venue_id, gone.instrument, gone.kind) {
                    None
                } else {
                    Some(Withdrawal::ByNumber(ack.venue_id))
                }
            },
            None => None,
        }
    }
}

impl Ticks {
    /// What the streams are.
    pub open spec fn view(self) -> TicksView {
        TicksView {
            subscriptions: self.subscriptions@,
            withdrawn: self.withdrawn@,
            withdrawn_unnumbered: self.withdrawn_unnumbered@,
        }
    }

    /// A session with no stream.
    pub fn new() -> (ticks: Self)
        ensures
            ticks@ == (TicksView {
                subscriptions: Seq::empty(),
                withdrawn: Seq::empty(),
                withdrawn_unnumbered: Seq::empty(),
            }),
    {
        Ticks {
            subscriptions: Vec::new(),
            withdrawn: Vec::new(),
            withdrawn_unnumbered: Vec::new(),
        }
    }

    fn is_read(&self, number: u64, instrument: InstrumentId, kind: TbtType) -> (read: bool)
        ensures
            read == still_read(self@.subscriptions, number, instrument, kind),
    {
        let mut at: usize = 0;
        while at < self.subscriptions.len()
            invariant
                at <= self.subscriptions@.len(),
                forall|i: int|
                    0 <= i < at ==> !served_under(
                        #[trigger] self.subscriptions@[i],
                        number,
                        instrument,
                        kind,
                    ),
            decreases self.subscriptions@.len() - at,
        {
            let stream: &TbtSubscription = &self.subscriptions[at];
            if stream.venue_id == number || (stream.venue_id == 0 && stream.instrument == instrument
                && stream.kind == kind) {
                assert(served_under(self.subscriptions@[at as int], number, instrument, kind));
                return true;
            }
            at = at + 1;
        }
        false
    }

    fn let_go(&mut self, number: u64, instrument: InstrumentId, kind: TbtType) -> (withdrawal: Option<
        Withdrawal,
    >)
        ensures
            final(self)@ == number_let_go(old(self)@, number, instrument, kind),
            withdrawal == (if still_read(old(self)@.subscriptions, number, instrument, kind) {
                None
            } else {
                Some(Withdrawal::ByNumber(number))
            }),
    {
        if self.is_read(number, instrument, kind) {
            return None;
        }
        self.withdrawn.push(number);
        Some(Withdrawal::ByNumber(number))
    }

    fn place_read_by(&self, caller: i64, instrument: InstrumentId) -> (place: Option<usize>)
        ensures
            place is Some <==> first_read_by(self@.subscriptions, caller, instrument, 0) is Some,
            place matches Some(at) ==> at < self@.subscriptions.len() && first_read_by(
                self@.subscriptions,
                caller,
                instrument,
                0,
            ) == Some(at as int),
    {
        let mut at: usize = 0;
        while at < self.subscriptions.len()
            invariant
                at <= self.subscriptions@.len(),
                first_read_by(self@.subscriptions, caller, instrument, 0) == first_read_by(
                    self@.subscriptions,
                    caller,
                    instrument,
                    at as int,
                ),
            decreases self.subscriptions@.len() - at,
        {
            if self.subscriptions[at].caller_req_id == caller && self.subscriptions[at].instrument
                == instrument {
                return Some(at);
            }
            at = at + 1;
        }
        None
    }

    fn place_named(&self, stated: &str) -> (place: Option<usize>)
        ensures
            place is Some <==> first_named(self@.subscriptions, stated@, 0) is Some,
            place matches Some(at) ==> at < self@.subscriptions.len() && first_named(
                self@.subscriptions,
                stated@,
                0,
            ) == Some(at as int),
    {
        let mut at: usize = 0;
        while at < self.subscriptions.len()
            invariant
                at <= self.subscriptions@.len(),
                first_named(self@.subscriptions, stated@, 0) == first_named(
                    self@.subscriptions,
                    stated@,
                    at as int,
                ),
            decreases self.subscriptions@.len() - at,
        {
            if states(stated, self.subscriptions[at].query_id.as_str()) {
                return Some(at);
            }
            at = at + 1;
        }
        None
    }

    fn place_unnumbered(&self, stated: &str) -> (place: Option<usize>)
        ensures
            place is Some <==> first_unnumbered(self@.withdrawn_unnumbered, stated@, 0) is Some,
            place matches Some(at) ==> at < self@.withdrawn_unnumbered.len() && first_unnumbered(
                self@.withdrawn_unnumbered,
                stated@,
                0,
            ) == Some(at as int),
    {
        let mut at: usize = 0;
        while at < self.withdrawn_unnumbered.len()
            invariant
                at <= self.withdrawn_unnumbered@.len(),
                first_unnumbered(self@.withdrawn_unnumbered, stated@, 0) == first_unnumbered(
                    self@.withdrawn_unnumbered,
                    stated@,
                    at as int,
                ),
            decreases self.withdrawn_unnumbered@.len() - at,
        {
            if states(stated, self.withdrawn_unnumbered[at].query_id.as_str()) {
                return Some(at);
            }
            at = at + 1;
        }
        None
    }

    fn anchor(&self, number: u64, own: Running) -> (running: Running)
        ensures
            running == anchored(self@.subscriptions, number, own),
    {
        let mut at: usize = 0;
        while at < self.subscriptions.len()
            invariant
                at <= self.subscriptions@.len(),
                first_numbered(self@.subscriptions, number, 0) == first_numbered(
                    self@.subscriptions,
                    number,
                    at as int,
                ),
            decreases self.subscriptions@.len() - at,
        {
            if self.subscriptions[at].venue_id == number {
                return self.subscriptions[at].running;
            }
            at = at + 1;
        }
        own
    }

    /// Leave the stream a caller reads on a contract. A stream the venue has
    /// not numbered is withdrawn by its name, and again by its number once the
    /// venue states one; a numbered one is withdrawn only where nobody else is
    /// served under its number.
    pub fn send_tbt_unsubscribe(&mut self, caller: i64, instrument: InstrumentId) -> (withdrawal:
        Option<Withdrawal>)
        ensures
            final(self)@ == left(old(self)@, caller, instrument),
            withdrawal == withdrawn_on_leaving(old(self)@, caller, instrument),
    {
        let at: usize = match self.place_read_by(caller, instrument) {
            Some(at) => at,
            None => return None,
        };
        let gone: TbtSubscription = self.subscriptions.remove(at);
        if gone.venue_id == 0 {
            let name: String = gone.query_id.clone();
            self.withdrawn_unnumbered.push(
                Unnumbered {
                    query_id: gone.query_id,
                    instrument: gone.instrument,
                    kind: gone.kind,
                },
            );
            return Some(Withdrawal::ByName(name));
        }
        self.let_go(gone.venue_id, gone.instrument, gone.kind)
    }

    /// Take the venue's acknowledgement of a query: its stream is numbered, or,
    /// where its caller has left, the number is let go of.
    pub fn take_ack(&mut self, ack: TickAck) -> (withdrawal: Option<Withdrawal>)
        ensures
            final(self)@ == acknowledged(old(self)@, ack),
            withdrawal == withdrawn_on_ack(old(self)@, ack),
    {
        match self.place_named(ack.query_id.as_str()) {
            Some(at) => {
                let running: Running = self.anchor(ack.venue_id, self.subscriptions[at].running);
                let numbered: TbtSubscription = TbtSubscription {
                    instrument: self.subscriptions[at].instrument,
                    query_id: self.subscriptions[at].query_id.clone(),
                    kind: self.subscriptions[at].kind,
                    caller_req_id: self.subscriptions[at].caller_req_id,
                    venue_id: ack.venue_id,
                    min_tick: ack.min_tick,
                    size_tick: ack.size_min_tick,
                    running,
                };
                self.subscriptions.set(at, numbered);
                None
            },
            None => match self.place_unnumbered(ack.query_id.as_str()) {
                Some(at) => {
                    let gone: Unnumbered = self.withdrawn_unnumbered.remove(at);
                    self.let_go(ack.venue_id, gone.instrument, gone.kind)
                },
                None => None,
            },
        }
    }

    /// The stream a refusal names, which is then gone, where it names one.
    pub fn refused(&mut self, stated: &str) -> (caller: Option<i64>)
        ensures
            match first_named(old(self)@.subscriptions, stated@, 0) {
                Some(at) => caller == Some(old(self)@.subscriptions[at].caller_req_id)
                    && final(self)@ == (TicksView {
                    subscriptions: old(self)@.subscriptions.remove(at),
                    ..old(self)@
                }),
                None => caller is None && final(self)@ == old(self)@,
            },
    {
        match self.place_named(stated) {
            Some(at) => Some(self.subscriptions.remove(at).caller_req_id),
            None => None,
        }
    }
}

proof fn what_is_found_is_read_by_its_caller(
    streams: Seq<TbtSubscription>,
    caller: i64,
    instrument: InstrumentId,
    from: int,
)
    requires
        first_read_by(streams, caller, instrument, from) is Some,
    ensures
        0 <= first_read_by(streams, caller, instrument, from)->0 < streams.len(),
        read_by(
            streams[first_read_by(streams, caller, instrument, from)->0],
            caller,
            instrument,
        ),
    decreases streams.len() - from,
{
    if !read_by(streams[from], caller, instrument) {
        what_is_found_is_read_by_its_caller(streams, caller, instrument, from + 1);
    }
}

/// A withdrawal reaches the stream its caller reads and no other: every stream
/// of another caller, or on another contract, is still open.
pub proof fn a_withdrawal_leaves_every_other_stream(
    ticks: TicksView,
    caller: i64,
    instrument: InstrumentId,
    other: int,
)
    requires
        0 <= other < ticks.subscriptions.len(),
        !read_by(ticks.subscriptions[other], caller, instrument),
    ensures
        left(ticks, caller, instrument).subscriptions.contains(ticks.subscriptions[other]),
{
    let stays = ticks.subscriptions[other];
    match first_read_by(ticks.subscriptions, caller, instrument, 0) {
        None => {
            assert(ticks.subscriptions[other] == stays);
        },
        Some(at) => {
            what_is_found_is_read_by_its_caller(ticks.subscriptions, caller, instrument, 0);
            let rest = ticks.subscriptions.remove(at);
            if other < at {
                assert(rest[other] == stays);
            } else {
                assert(rest[other - 1] == stays);
            }
        },
    }
}

/// A number somebody is still served under is not withdrawn, whether its
/// caller leaves after the venue has stated it or before.
pub proof fn a_number_others_read_is_not_withdrawn(
    ticks: TicksView,
    caller: i64,
    instrument: InstrumentId,
    ack: TickAck,
    number: u64,
)
    requires
        number != 0,
    ensures
        withdrawn_on_leaving(ticks, caller, instrument) == Some(Withdrawal::ByNumber(number))
            ==> forall|i: int|
            0 <= i < left(ticks, caller, instrument).subscriptions.len() ==> (#[trigger] left(
                ticks,
                caller,
                instrument,
            ).subscriptions[i]).venue_id != number,
        withdrawn_on_ack(ticks, ack) == Some(Withdrawal::ByNumber(number)) ==> forall|i: int|
            0 <= i < acknowledged(ticks, ack).subscriptions.len() ==> (#[trigger] acknowledged(
                ticks,
                ack,
            ).subscriptions[i]).venue_id != number,
{
    if withdrawn_on_leaving(ticks, caller, instrument) == Some(Withdrawal::ByNumber(number)) {
        let at = first_read_by(ticks.subscriptions, caller, instrument, 0)->0;
        let gone = ticks.subscriptions[at];
        let rest = ticks.subscriptions.remove(at);
        assert(left(ticks, caller, instrument).subscriptions == rest);
        assert forall|i: int| 0 <= i < rest.len() implies (#[trigger] rest[i]).venue_id
            != number by {
            assert(!served_under(rest[i], number, gone.instrument, gone.kind));
        }
    }
    if withdrawn_on_ack(ticks, ack) == Some(Withdrawal::ByNumber(number)) {
        let gone = ticks.withdrawn_unnumbered[first_unnumbered(
            ticks.withdrawn_unnumbered,
            ack.query_id@,
            0,
        )->0];
        assert(acknowledged(ticks, ack).subscriptions == ticks.subscriptions);
        assert forall|i: int| 0 <= i < ticks.subscriptions.len() implies (
        #[trigger] ticks.subscriptions[i]).venue_id != number by {
            assert(!served_under(ticks.subscriptions[i], number, gone.instrument, gone.kind));
        }
    }
}

proof fn what_is_found_is_named(streams: Seq<TbtSubscription>, stated: Seq<char>, from: int)
    requires
        first_named(streams, stated, from) is Some,
    ensures
        from <= first_named(streams, stated, from)->0 < streams.len(),
        names_it(stated, streams[first_named(streams, stated, from)->0].query_id@),
    decreases streams.len() - from,
{
    if !names_it(stated, streams[from].query_id@) {
        what_is_found_is_named(streams, stated, from + 1);
    }
}

proof fn what_is_found_has_the_number(streams: Seq<TbtSubscription>, number: u64, from: int)
    requires
        first_numbered(streams, number, from) is Some,
    ensures
        from <= first_numbered(streams, number, from)->0 < streams.len(),
        streams[first_numbered(streams, number, from)->0].venue_id == number,
    decreases streams.len() - from,
{
    if streams[from].venue_id != number {
        what_is_found_has_the_number(streams, number, from + 1);
    }
}

/// A caller given a number another caller reads stands where that stream
/// stands.
pub proof fn a_joining_caller_stands_where_the_stream_stands(
    ticks: TicksView,
    ack: TickAck,
    joining: int,
    running: int,
)
    requires
        first_named(ticks.subscriptions, ack.query_id@, 0) == Some(joining),
        first_numbered(ticks.subscriptions, ack.venue_id, 0) == Some(running),
    ensures
        acknowledged(ticks, ack).subscriptions[joining].venue_id
            == ticks.subscriptions[running].venue_id,
        acknowledged(ticks, ack).subscriptions[joining].running
            == ticks.subscriptions[running].running,
{
    what_is_found_is_named(ticks.subscriptions, ack.query_id@, 0);
    what_is_found_has_the_number(ticks.subscriptions, ack.venue_id, 0);
}

} // verus!
