//! What becomes of a reply.

use crate::engine::hmds::names::{answers, contains_text, first_place};
use crate::engine::hmds::pages::{is_page_of, is_readable, read_page, rows, rows_of, Page};
use crate::engine::hmds::queries::{
    request_failed, tell, told, withdrawn_with, Asked, Ended, HeldSeries, HmdsState, HmdsView,
    SERVICE_ERROR,
};
use crate::engine::hmds::replies::{answered, first_answered, is_the_last, routed, what_is_found_is_answered, Routed};
use crate::engine::hmds::series::{a_series_is_oldest_first, oldest_first, put_page, with_page, Bar};
use crate::engine::known::{said, Notice, Said};
use crate::text::texts;
use vstd::prelude::*;

verus! {

/// A series whole, oldest first.
#[derive(Debug, PartialEq, Eq)]
pub struct Filed {
    pub req_id: u32,
    pub bars: Vec<Bar>,
    pub timezone: String,
}

/// What becomes of a reply.
#[derive(Debug, PartialEq, Eq)]
#[allow(inconsistent_fields)]
pub enum Answer {
    /// It names nothing that waits.
    Nowhere,
    /// It is news that names nothing that waits: what is noted of it.
    Unread { what: String },
    /// It is a page of a series that is not whole yet, or waits on its
    /// corporate actions.
    Kept { req_id: u32 },
    /// It makes a series whole.
    Series(Filed),
    /// It is a segment of ticks: each row, and whether it is the last.
    Ticks { req_id: u32, rows: Vec<String>, done: bool },
    /// It answers a query of another kind.
    Other(Routed),
    /// It cannot be read, and ends the request for bars it names.
    Ended(Ended),
}

/// The first series held for a number, from a place on.
pub open spec fn first_held(held: Seq<HeldSeries>, req_id: u32, from: int) -> Option<int>
    decreases held.len() - from,
{
    if from < 0 || from >= held.len() {
        None
    } else if held[from].req_id == req_id {
        Some(from)
    } else {
        first_held(held, req_id, from + 1)
    }
}

/// The zone of a series once a page has come: the first one stated stands.
pub open spec fn zone_after(held: Seq<char>, stated: Seq<char>) -> Seq<char> {
    if held.len() > 0 {
        held
    } else {
        stated
    }
}

/// Whether a series is what another was, with a page of it in.
pub open spec fn is_extended(
    after: HeldSeries,
    before: HeldSeries,
    page: Page,
    last: bool,
) -> bool {
    &&& after.req_id == before.req_id
    &&& after.bars@ == with_page(before.bars@, page.bars@)
    &&& after.timezone@ == zone_after(before.timezone@, page.timezone@)
    &&& after.actions_query == before.actions_query
    &&& after.complete == (last || before.complete)
}

/// Whether a series is one page alone.
pub open spec fn is_page_alone(filed: Filed, page: Page) -> bool {
    &&& filed.bars@ == with_page(Seq::empty(), page.bars@)
    &&& filed.timezone@ == page.timezone@
}

/// What becomes of a page that is read. A series is held until its last page
/// is in, and longer where it waits on its corporate actions; a page of a
/// series nothing is held for is a series by itself.
pub open spec fn page_taken(
    before: HmdsView,
    after: HmdsView,
    to: Routed,
    page: Page,
    answer: Answer,
) -> bool {
    match first_held(before.held, to.req_id, 0) {
        Some(at) => if to.done && before.held[at].actions_query is None {
            exists|whole: HeldSeries|
                {
                    &&& #[trigger] is_extended(whole, before.held[at], page, true)
                    &&& answer matches Answer::Series(filed) && filed.req_id == to.req_id
                        && filed.bars == whole.bars && filed.timezone == whole.timezone
                    &&& after == (HmdsView { held: before.held.remove(at), ..before })
                }
        } else {
            exists|longer: HeldSeries|
                {
                    &&& #[trigger] is_extended(longer, before.held[at], page, to.done)
                    &&& answer == Answer::Kept { req_id: to.req_id }
                    &&& after == (HmdsView { held: before.held.update(at, longer), ..before })
                }
        },
        None => {
            &&& answer matches Answer::Series(filed) && filed.req_id == to.req_id && is_page_alone(
                filed,
                page,
            )
            &&& after == before
        },
    }
}

/// What a session holds once the query a reply names waits no more.
pub open spec fn released(state: HmdsView, reply: Seq<char>) -> HmdsView {
    match first_answered(state.pending, reply, 0) {
        Some(at) => HmdsView { pending: state.pending.remove(at), ..state },
        None => state,
    }
}

/// What is told of a reply that cannot be read.
pub open spec fn unreadable_text() -> Seq<char> {
    "the data service's answer could not be read"@
}

/// What is noted of news that names nothing that waits: a reply after its
/// query was let go, one that came twice, or one whose name cannot be read.
pub open spec fn unread_news() -> Seq<char> {
    "a news reply names nothing that waits"@
}

/// What becomes of a reply to a request for bars.
pub open spec fn bars_taken(
    before: HmdsView,
    after: HmdsView,
    said_before: Seq<Said>,
    said_after: Seq<Said>,
    reply: Seq<char>,
    to: Routed,
    answer: Answer,
) -> bool {
    if is_readable(reply) {
        &&& said_after == said_before
        &&& exists|page: Page|
            {
                &&& #[trigger] is_page_of(page, reply)
                &&& page_taken(answered(before, reply), after, to, page, answer)
            }
    } else {
        &&& after == request_failed(released(before, reply), to.req_id)
        &&& said_after == said_before.push(told(to.req_id, SERVICE_ERROR, unreadable_text()))
        &&& answer matches Answer::Ended(ended) && ended.over == Some(to.req_id)
            && ended.withdrawn@ == withdrawn_with(before, to.req_id)
    }
}

/// What becomes of a segment of ticks. One cut inside a row is told to its
/// caller, and is the last: the venue has answered, and nothing more comes.
pub open spec fn ticks_taken(
    before: HmdsView,
    after: HmdsView,
    said_before: Seq<Said>,
    said_after: Seq<Said>,
    reply: Seq<char>,
    to: Routed,
    answer: Answer,
) -> bool {
    match rows(reply, "Tick"@, 0) {
        Some(stated) => {
            &&& after == answered(before, reply)
            &&& said_after == said_before
            &&& answer matches Answer::Ticks { req_id, rows, done } && req_id == to.req_id && texts(
                rows@,
            ) == stated && done == to.done
        },
        None => {
            &&& after == released(before, reply)
            &&& said_after == said_before.push(told(to.req_id, SERVICE_ERROR, unreadable_text()))
            &&& answer matches Answer::Ticks { req_id, rows, done } && req_id == to.req_id
                && rows@.len() == 0 && done
        },
    }
}

/// What becomes of a reply.
pub open spec fn reply_taken(
    before: HmdsView,
    after: HmdsView,
    said_before: Seq<Said>,
    said_after: Seq<Said>,
    reply: Seq<char>,
    answer: Answer,
) -> bool {
    match routed(before, reply) {
        None => {
            &&& after == before
            &&& said_after == said_before
            &&& if first_place(reply, "<NewsResponse>"@, 0) is Some {
                answer matches Answer::Unread { what } && what@ == unread_news()
            } else {
                answer is Nowhere
            }
        },
        Some(to) => match to.asked {
            Asked::Bars => bars_taken(
                before,
                after,
                said_before,
                said_after,
                reply,
                to,
                answer,
            ),
            Asked::Ticks => ticks_taken(
                before,
                after,
                said_before,
                said_after,
                reply,
                to,
                answer,
            ),
            _ => answer == Answer::Other(to) && after == answered(before, reply) && said_after
                == said_before,
        },
    }
}

impl HmdsState {
    fn place_answered(&self, reply: &str) -> (place: Option<usize>)
        ensures
            place is Some <==> first_answered(self@.pending, reply@, 0) is Some,
            place matches Some(at) ==> at < self@.pending.len() && first_answered(
                self@.pending,
                reply@,
                0,
            ) == Some(at as int),
    {
        let mut at: usize = 0;
        while at < self.pending.len()
            invariant
                at <= self.pending@.len(),
                first_answered(self@.pending, reply@, 0) == first_answered(
                    self@.pending,
                    reply@,
                    at as int,
                ),
            decreases self.pending@.len() - at,
        {
            if answers(reply, self.pending[at].query.as_str()) {
                return Some(at);
            }
            at = at + 1;
        }
        None
    }

    fn place_held(&self, req_id: u32) -> (place: Option<usize>)
        ensures
            place is Some <==> first_held(self@.held, req_id, 0) is Some,
            place matches Some(at) ==> at < self@.held.len() && first_held(self@.held, req_id, 0)
                == Some(at as int),
    {
        let mut at: usize = 0;
        while at < self.held.len()
            invariant
                at <= self.held@.len(),
                first_held(self@.held, req_id, 0) == first_held(self@.held, req_id, at as int),
            decreases self.held@.len() - at,
        {
            if self.held[at].req_id == req_id {
                return Some(at);
            }
            at = at + 1;
        }
        None
    }

    fn take_page(&mut self, to: Routed, page: Page) -> (answer: Answer)
        ensures
            page_taken(old(self)@, final(self)@, to, page, answer),
    {
        match self.place_held(to.req_id) {
            None => {
                let mut bars: Vec<Bar> = Vec::new();
                put_page(&mut bars, page.bars);
                Answer::Series(Filed { req_id: to.req_id, bars, timezone: page.timezone })
            },
            Some(at) => {
                let ghost before = self.held@[at as int];
                let ghost all = self.held@;
                let mut series: HeldSeries = self.held.remove(at);
                put_page(&mut series.bars, page.bars);
                if series.timezone.as_str().unicode_len() == 0 {
                    series.timezone = page.timezone;
                }
                if to.done {
                    series.complete = true;
                }
                assert(is_extended(series, before, page, to.done));
                if to.done && series.actions_query.is_none() {
                    Answer::Series(
                        Filed { req_id: to.req_id, bars: series.bars, timezone: series.timezone },
                    )
                } else {
                    let ghost longer = series;
                    self.held.insert(at, series);
                    proof {
                        assert(self.held@ =~= all.update(at as int, longer));
                    }
                    Answer::Kept { req_id: to.req_id }
                }
            },
        }
    }

    /// Take a reply to the query it names.
    pub fn take_reply(&mut self, notices: &mut Vec<Notice>, reply: &str) -> (answer: Answer)
        ensures
            reply_taken(
                old(self)@,
                final(self)@,
                said(old(notices)@),
                said(final(notices)@),
                reply@,
                answer,
            ),
    {
        let at: usize = match self.place_answered(reply) {
            Some(at) => at,
            None => {
                if contains_text(reply, "<NewsResponse>") {
                    return Answer::Unread {
                        what: "a news reply names nothing that waits".to_owned(),
                    };
                }
                return Answer::Nowhere;
            },
        };
        let asked: Asked = self.pending[at].asked;
        let req_id: u32 = self.pending[at].req_id;
        let done: bool = is_the_last(asked, reply);
        let to: Routed = Routed { asked, req_id, done };
        match asked {
            Asked::Bars => match read_page(reply) {
                Some(page) => {
                    if done {
                        self.pending.remove(at);
                    }
                    self.take_page(to, page)
                },
                None => {
                    self.pending.remove(at);
                    tell(notices, req_id, SERVICE_ERROR, "the data service's answer could not be read");
                    let withdrawn: Vec<u32> = self.fail_request(req_id);
                    Answer::Ended(Ended { over: Some(req_id), withdrawn })
                },
            },
            Asked::Ticks => match rows_of(reply, "Tick") {
                Some(rows) => {
                    if done {
                        self.pending.remove(at);
                    }
                    Answer::Ticks { req_id, rows, done }
                },
                None => {
                    self.pending.remove(at);
                    tell(notices, req_id, SERVICE_ERROR, "the data service's answer could not be read");
                    Answer::Ticks { req_id, rows: Vec::new(), done: true }
                },
            },
            _ => {
                if done {
                    self.pending.remove(at);
                }
                Answer::Other(to)
            },
        }
    }

    /// Take a reply whose payload was read elsewhere, or could not be: whose it
    /// is and what it holds. The query waits no more either way, and its caller
    /// is told where there was nothing to read.
    pub fn take_payload(
        &mut self,
        notices: &mut Vec<Notice>,
        reply: &str,
        payload: Option<String>,
    ) -> (answered: Option<(u32, String)>)
        ensures
            final(self)@ == released(old(self)@, reply@),
            match (routed(old(self)@, reply@), payload) {
                (Some(to), Some(payload)) => answered == Some((to.req_id, payload)) && said(
                    final(notices)@,
                ) == said(old(notices)@),
                (Some(to), None) => answered is None && said(final(notices)@) == said(
                    old(notices)@,
                ).push(told(to.req_id, SERVICE_ERROR, unreadable_text())),
                (None, _) => answered is None && said(final(notices)@) == said(old(notices)@),
            },
    {
        match self.place_answered(reply) {
            None => None,
            Some(at) => {
                let req_id: u32 = self.pending.remove(at).req_id;
                match payload {
                    Some(payload) => Some((req_id, payload)),
                    None => {
                        tell(
                            notices,
                            req_id,
                            SERVICE_ERROR,
                            "the data service's answer could not be read",
                        );
                        None
                    },
                }
            },
        }
    }
}

/// The first page of a series that states a zone states it for the series.
pub proof fn the_first_zone_stated_stands(held: Seq<char>, first: Seq<char>, second: Seq<char>)
    requires
        first.len() > 0,
    ensures
        zone_after(zone_after(held, first), second) == zone_after(held, first),
{
}

/// Whether every series that is held is oldest first.
pub open spec fn held_in_order(held: Seq<HeldSeries>) -> bool {
    forall|i: int| 0 <= i < held.len() ==> oldest_first((#[trigger] held[i]).bars@)
}

/// A series is handed over oldest first, and every series still held stays so,
/// whatever order pages arrive in.
pub proof fn what_is_filed_is_oldest_first(
    before: HmdsView,
    after: HmdsView,
    to: Routed,
    page: Page,
    answer: Answer,
)
    requires
        held_in_order(before.held),
        page_taken(before, after, to, page, answer),
    ensures
        held_in_order(after.held),
        answer matches Answer::Series(filed) ==> oldest_first(filed.bars@),
{
    a_series_is_oldest_first(Seq::empty(), page.bars@);
    match first_held(before.held, to.req_id, 0) {
        Some(at) => {
            a_held_series_is_found(before.held, to.req_id, 0);
            a_series_is_oldest_first(before.held[at].bars@, page.bars@);
        },
        None => {},
    }
}

proof fn a_held_series_is_found(held: Seq<HeldSeries>, req_id: u32, from: int)
    requires
        first_held(held, req_id, from) is Some,
    ensures
        from <= first_held(held, req_id, from)->0 < held.len(),
    decreases held.len() - from,
{
    if held[from].req_id != req_id {
        a_held_series_is_found(held, req_id, from + 1);
    }
}

/// A reply that cannot be read is waited on no more: the query it named is let
/// go, and its caller is told.
pub proof fn an_unreadable_answer_is_told(
    before: HmdsView,
    after: HmdsView,
    said_before: Seq<Said>,
    said_after: Seq<Said>,
    reply: Seq<char>,
    to: Routed,
    answer: Answer,
)
    requires
        routed(before, reply) == Some(to),
        to.asked is Bars && !is_readable(reply) || to.asked is Ticks && rows(
            reply,
            "Tick"@,
            0,
        ) is None,
        reply_taken(before, after, said_before, said_after, reply, answer),
    ensures
        after.pending == released(before, reply).pending,
        after.pending.len() == before.pending.len() - 1,
        said_after == said_before.push(told(to.req_id, SERVICE_ERROR, unreadable_text())),
{
    what_is_found_is_answered(before.pending, reply, 0);
}

} // verus!
