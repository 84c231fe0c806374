//! Tick-by-tick streams: how one is asked for, and how its answer is read.

use crate::engine::hmds::names::{contains_text, element, element_text, first_place};
use crate::reading::{number, read_number};
use crate::text::{digits, joined, joined3, uint_text};
use vstd::prelude::*;

verus! {

/// A stream of ticks, by the name a caller asks for it under.
#[derive(Clone, Copy, Debug, PartialEq, Eq, Structural)]
pub enum TbtType {
    /// The trades the exchange reports.
    Last,
    /// Every trade.
    AllLast,
    /// Every change of the quote.
    BidAsk,
    /// Every change of the point between the two sides.
    MidPoint,
}

/// The shape the records of a stream are written in.
#[derive(Clone, Copy, Debug, PartialEq, Eq, Structural)]
pub enum TbtKind {
    AllLast,
    BidAsk,
    MidPoint,
}

/// The name a stream is asked for under: each kind is a query of its own.
pub open spec fn wire_name(kind: TbtType) -> Seq<char> {
    match kind {
        TbtType::Last => "Last"@,
        TbtType::AllLast => "AllLast"@,
        TbtType::BidAsk => "BidAsk"@,
        TbtType::MidPoint => "MidPoint"@,
    }
}

/// The name a stream is asked for under.
pub fn tbt_wire_kind(kind: TbtType) -> (name: &'static str)
    ensures
        name@ == wire_name(kind),
{
    match kind {
        TbtType::Last => "Last",
        TbtType::AllLast => "AllLast",
        TbtType::BidAsk => "BidAsk",
        TbtType::MidPoint => "MidPoint",
    }
}

/// The shape a stream's records are read in: both trade streams are written
/// the same way.
pub open spec fn shape_of(kind: TbtType) -> TbtKind {
    match kind {
        TbtType::Last => TbtKind::AllLast,
        TbtType::AllLast => TbtKind::AllLast,
        TbtType::BidAsk => TbtKind::BidAsk,
        TbtType::MidPoint => TbtKind::MidPoint,
    }
}

/// The shape a stream's records are read in.
pub fn frame_kind(kind: TbtType) -> (shape: TbtKind)
    ensures
        shape == shape_of(kind),
{
    match kind {
        TbtType::Last | TbtType::AllLast => TbtKind::AllLast,
        TbtType::BidAsk => TbtKind::BidAsk,
        TbtType::MidPoint => TbtKind::MidPoint,
    }
}

/// No two streams are asked for under one name.
pub proof fn each_stream_has_a_name_of_its_own(first: TbtType, second: TbtType)
    requires
        wire_name(first) == wire_name(second),
    ensures
        first == second,
{
    reveal_strlit("Last");
    reveal_strlit("AllLast");
    reveal_strlit("BidAsk");
    reveal_strlit("MidPoint");
    assert("Last"@.len() == 4 && "AllLast"@.len() == 7);
    assert("BidAsk"@.len() == 6 && "MidPoint"@.len() == 8);
}

/// A closed element: its name, and what it holds.
pub open spec fn closed(name: Seq<char>, held: Seq<char>) -> Seq<char> {
    "<"@ + name + ">"@ + held + ("</"@ + name + ">"@)
}

fn closed_element(name: &str, held: &str) -> (text: String)
    ensures
        text@ == closed(name@, held@),
{
    let opening: String = joined3("<", name, ">");
    let closing: String = joined3("</", name, ">");
    joined3(opening.as_str(), held, closing.as_str())
}

/// The name a tick query goes out under.
pub open spec fn tick_query_name(number: nat) -> Seq<char> {
    "tbt_"@ + digits(number)
}

/// The length a tick query states, for a run of past ticks ahead of the
/// stream: nothing where none was asked for.
pub open spec fn past_ticks(count: nat) -> Seq<char> {
    if count == 0 {
        Seq::empty()
    } else {
        closed("timeLength"@, digits(count) + " t"@)
    }
}

/// The filter a tick query states, to leave out a change of size alone:
/// nothing where it was not asked for.
pub open spec fn size_filter(ignore_size: bool) -> Seq<char> {
    if ignore_size {
        closed("filter"@, closed("ignoreSize"@, "true"@))
    } else {
        Seq::empty()
    }
}

/// The query that opens a tick stream: its name, the contract, the kind of
/// stream and where it came from, and nothing it was not given.
pub open spec fn tick_query(
    number: nat,
    con_id: nat,
    exchange: Seq<char>,
    sec_type: Seq<char>,
    data: Seq<char>,
    past: nat,
    ignore_size: bool,
) -> Seq<char> {
    closed(
        "ListOfQueries"@,
        closed(
            "Query"@,
            closed("id"@, tick_query_name(number)) + closed("contractID"@, digits(con_id)) + closed(
                "exchange"@,
                exchange,
            ) + closed("secType"@, sec_type) + closed("data"@, data) + past_ticks(past)
                + size_filter(ignore_size) + closed("source"@, "API"@),
        ),
    )
}

/// The query that opens a tick stream.
pub fn build_tbt_query(
    number: u64,
    con_id: u32,
    exchange: &str,
    sec_type: &str,
    data: &str,
    past: u32,
    ignore_size: bool,
) -> (query: String)
    ensures
        query@ == tick_query(
            number as nat,
            con_id as nat,
            exchange@,
            sec_type@,
            data@,
            past as nat,
            ignore_size,
        ),
{
    let name: String = joined("tbt_", uint_text(number).as_str());
    let mut body: String = closed_element("id", name.as_str());
    body.append(closed_element("contractID", uint_text(con_id as u64).as_str()).as_str());
    body.append(closed_element("exchange", exchange).as_str());
    body.append(closed_element("secType", sec_type).as_str());
    body.append(closed_element("data", data).as_str());
    let ghost before = body@;
    if past != 0 {
        let length: String = joined(uint_text(past as u64).as_str(), " t");
        body.append(closed_element("timeLength", length.as_str()).as_str());
    }
    proof {
        assert(body@ =~= before + past_ticks(past as nat));
    }
    let ghost before = body@;
    if ignore_size {
        let ignored: String = closed_element("ignoreSize", "true");
        body.append(closed_element("filter", ignored.as_str()).as_str());
    }
    proof {
        assert(body@ =~= before + size_filter(ignore_size));
    }
    body.append(closed_element("source", "API").as_str());
    let query: String = closed_element("Query", body.as_str());
    closed_element("ListOfQueries", query.as_str())
}

/// What the venue answers a tick query with.
#[derive(Debug, PartialEq, Eq)]
pub struct TickAck {
    /// The name of the query it answers.
    pub query_id: String,
    /// The number every frame of the stream carries.
    pub venue_id: u64,
    /// What a price moves in, as it was stated.
    pub min_tick: String,
    /// What a size moves in, as it was stated.
    pub size_min_tick: String,
}

/// What an element holds, or nothing where the document has none.
pub open spec fn element_or_nothing(document: Seq<char>, name: Seq<char>) -> Seq<char> {
    match element(document, name) {
        Some(held) => held,
        None => Seq::empty(),
    }
}

/// Whether a reply acknowledges a tick query, and states both the query's name
/// and a number for it.
pub open spec fn is_tick_ack(reply: Seq<char>) -> bool {
    &&& first_place(reply, "<ResultSetTickerId>"@, 0) is Some
    &&& element(reply, "id"@) is Some
    &&& element(reply, "rtTickerId"@) is Some
    &&& number(element(reply, "rtTickerId"@)->0, u64::MAX as nat) is Some
}

/// Whether an acknowledgement is the one a reply states.
pub open spec fn is_the_ack(reply: Seq<char>, ack: TickAck) -> bool {
    &&& element(reply, "id"@) == Some(ack.query_id@)
    &&& number(element_or_nothing(reply, "rtTickerId"@), u64::MAX as nat) == Some(
        ack.venue_id as nat,
    )
    &&& ack.min_tick@ == element_or_nothing(reply, "minTick"@)
    &&& ack.size_min_tick@ == element_or_nothing(reply, "sizeMinTick"@)
}

/// What an element holds, or nothing where the document has none.
pub fn element_or_empty(document: &str, name: &str) -> (held: String)
    ensures
        held@ == element_or_nothing(document@, name@),
{
    match element_text(document, name) {
        Some(held) => held,
        None => String::new(),
    }
}

/// Read the acknowledgement of a tick query, where a reply is one.
pub fn parse_tick_subscription_ack(reply: &str) -> (ack: Option<TickAck>)
    ensures
        ack is Some <==> is_tick_ack(reply@),
        ack matches Some(ack) ==> is_the_ack(reply@, ack),
{
    if !contains_text(reply, "<ResultSetTickerId>") {
        return None;
    }
    let query_id: String = match element_text(reply, "id") {
        Some(query_id) => query_id,
        None => return None,
    };
    let stated: String = match element_text(reply, "rtTickerId") {
        Some(stated) => stated,
        None => return None,
    };
    let venue_id: u64 = match read_number(stated.as_str(), u64::MAX) {
        Some(venue_id) => venue_id,
        None => return None,
    };
    Some(
        TickAck {
            query_id,
            venue_id,
            min_tick: element_or_empty(reply, "minTick"),
            size_min_tick: element_or_empty(reply, "sizeMinTick"),
        },
    )
}

} // verus!
