//! Which waiting query a reply belongs to, and when it has been answered.

use crate::engine::hmds::names::{
    answers, answers_it, contains_text, element, element_text, first_place,
};
use crate::engine::hmds::queries::{
    ended_by, query_refused, told_of_refusal, withdrawn_by, Asked, Ended, HmdsState, HmdsView,
    Waiting,
};
use crate::engine::hmds::ticks::{element_or_empty, element_or_nothing};
use crate::engine::known::{said, say, Notice, Said};
use crate::error_codes::NO_SUCH_SUBSCRIPTION;
use vstd::prelude::*;

verus! {

/// Where a reply belongs.
#[derive(Clone, Copy, Debug, PartialEq, Eq, Structural)]
pub struct Routed {
    pub asked: Asked,
    pub req_id: u32,
    /// Whether nothing more comes for the query.
    pub done: bool,
}

/// The first waiting query a reply answers, from a place on.
pub open spec fn first_answered(pending: Seq<Waiting>, reply: Seq<char>, from: int) -> Option<int>
    decreases pending.len() - from,
{
    if from < 0 || from >= pending.len() {
        None
    } else if answers_it(reply, pending[from].query@) {
        Some(from)
    } else {
        first_answered(pending, reply, from + 1)
    }
}

/// Whether a reply is the last its query gets: bars and ticks come in segments
/// that state whether they are the last, a scan answers until it is withdrawn,
/// and anything else is answered once.
pub open spec fn is_last(asked: Asked, reply: Seq<char>) -> bool {
    match asked {
        Asked::Bars | Asked::Ticks => element(reply, "eoq"@) == Some("true"@),
        Asked::Scan => false,
        _ => true,
    }
}

/// What a session holds once a reply has come: the query it names waits no
/// more where that was its last.
pub open spec fn answered(state: HmdsView, reply: Seq<char>) -> HmdsView {
    match first_answered(state.pending, reply, 0) {
        Some(at) => if is_last(state.pending[at].asked, reply) {
            HmdsView { pending: state.pending.remove(at), ..state }
        } else {
            state
        },
        None => state,
    }
}

/// Where a reply belongs.
pub open spec fn routed(state: HmdsView, reply: Seq<char>) -> Option<Routed> {
    match first_answered(state.pending, reply, 0) {
        Some(at) => Some(
            Routed {
                asked: state.pending[at].asked,
                req_id: state.pending[at].req_id,
                done: is_last(state.pending[at].asked, reply),
            },
        ),
        None => None,
    }
}

/// The name of the query a reply refuses, where it refuses one.
pub open spec fn refused_query(reply: Seq<char>) -> Option<Seq<char>> {
    if first_place(reply, "<QueryError>"@, 0) is Some {
        element(reply, "id"@)
    } else {
        None
    }
}

/// The first query of a kind that waits under a number, from a place on.
pub open spec fn first_under(pending: Seq<Waiting>, asked: Asked, req_id: u32, from: int) -> Option<
    int,
>
    decreases pending.len() - from,
{
    if from < 0 || from >= pending.len() {
        None
    } else if pending[from].asked == asked && pending[from].req_id == req_id {
        Some(from)
    } else {
        first_under(pending, asked, req_id, from + 1)
    }
}

/// What is told of a withdrawal that names nothing waiting: a caller that
/// withdraws news is told so, and any other is told nothing.
pub open spec fn told_nothing_waits(asked: Asked, req_id: u32) -> Seq<Said> {
    if asked is News {
        seq![
            Said::RequestRefused {
                req_id: req_id as i64,
                code: NO_SUCH_SUBSCRIPTION,
                text: "no such news request"@,
            },
        ]
    } else {
        Seq::empty()
    }
}

pub(crate) fn is_the_last(asked: Asked, reply: &str) -> (last: bool)
    ensures
        last == is_last(asked, reply@),
{
    match asked {
        Asked::Bars | Asked::Ticks => match element_text(reply, "eoq") {
            Some(stated) => *stated.as_str() == *"true",
            None => false,
        },
        Asked::Scan => false,
        _ => true,
    }
}

impl HmdsState {
    /// Take a reply to the query it names: where it belongs, and nowhere where
    /// it names none that waits.
    pub fn route(&mut self, reply: &str) -> (to: Option<Routed>)
        ensures
            final(self)@ == answered(old(self)@, reply@),
            to == routed(old(self)@, reply@),
    {
        let mut at: usize = 0;
        while at < self.pending.len()
            invariant
                self@ == old(self)@,
                at <= self.pending@.len(),
                first_answered(self@.pending, reply@, 0) == first_answered(
                    self@.pending,
                    reply@,
                    at as int,
                ),
            decreases self.pending@.len() - at,
        {
            if answers(reply, self.pending[at].query.as_str()) {
                let asked: Asked = self.pending[at].asked;
                let req_id: u32 = self.pending[at].req_id;
                let done: bool = is_the_last(asked, reply);
                if done {
                    self.pending.remove(at);
                }
                return Some(Routed { asked, req_id, done });
            }
            at = at + 1;
        }
        None
    }

    /// Take a reply that refuses a query: what comes of it, and nothing where
    /// the reply refuses none.
    pub fn take_refusal(&mut self, notices: &mut Vec<Notice>, reply: &str) -> (ended: Option<Ended>)
        ensures
            match (ended, refused_query(reply@)) {
                (Some(ended), Some(stated)) => {
                    &&& final(self)@ == query_refused(old(self)@, stated)
                    &&& said(final(notices)@) == said(old(notices)@) + told_of_refusal(
                        old(self)@,
                        stated,
                        element_or_nothing(reply@, "error"@),
                    )
                    &&& ended.over == ended_by(old(self)@, stated)
                    &&& ended.withdrawn@ == withdrawn_by(old(self)@, stated)
                },
                (None, None) => final(self)@ == old(self)@ && said(final(notices)@) == said(
                    old(notices)@,
                ),
                _ => false,
            },
    {
        if !contains_text(reply, "<QueryError>") {
            return None;
        }
        match element_text(reply, "id") {
            Some(stated) => {
                let why: String = element_or_empty(reply, "error");
                Some(self.refuse_query(notices, stated.as_str(), why.as_str()))
            },
            None => None,
        }
    }

    /// Withdraw a query by its caller's number: the name it went out under,
    /// and nothing where none waits.
    pub fn withdraw(&mut self, notices: &mut Vec<Notice>, asked: Asked, req_id: u32) -> (query:
        Option<String>)
        ensures
            match first_under(old(self)@.pending, asked, req_id, 0) {
                Some(at) => query == Some(old(self)@.pending[at].query) && final(self)@ == (
                HmdsView { pending: old(self)@.pending.remove(at), ..old(self)@ })
                    && said(final(notices)@) == said(old(notices)@),
                None => query is None && final(self)@ == old(self)@ && said(final(notices)@)
                    == said(old(notices)@) + told_nothing_waits(asked, req_id),
            },
    {
        let mut at: usize = 0;
        while at < self.pending.len()
            invariant
                self@ == old(self)@,
                at <= self.pending@.len(),
                first_under(self@.pending, asked, req_id, 0) == first_under(
                    self@.pending,
                    asked,
                    req_id,
                    at as int,
                ),
                *notices == *old(notices),
            decreases self.pending@.len() - at,
        {
            if self.pending[at].asked == asked && self.pending[at].req_id == req_id {
                return Some(self.pending.remove(at).query);
            }
            at = at + 1;
        }
        let ghost before = said(notices@);
        if asked == Asked::News {
            say(
                notices,
                Notice::RequestRefused {
                    req_id: req_id as i64,
                    code: NO_SUCH_SUBSCRIPTION,
                    text: "no such news request".to_owned(),
                },
            );
        }
        proof {
            assert(said(notices@) =~= before + told_nothing_waits(asked, req_id));
        }
        None
    }
}

/// A query that comes in segments is waited on until one states it is the
/// last.
pub proof fn a_segmented_query_waits_for_its_last(state: HmdsView, reply: Seq<char>, at: int)
    requires
        first_answered(state.pending, reply, 0) == Some(at),
        state.pending[at].asked is Bars || state.pending[at].asked is Ticks,
        element(reply, "eoq"@) != Some("true"@),
    ensures
        answered(state, reply) == state,
{
}

/// The first query a reply answers waits, and is answered by it.
pub proof fn what_is_found_is_answered(pending: Seq<Waiting>, reply: Seq<char>, from: int)
    requires
        first_answered(pending, reply, from) is Some,
    ensures
        from <= first_answered(pending, reply, from)->0 < pending.len(),
        answers_it(reply, pending[first_answered(pending, reply, from)->0].query@),
    decreases pending.len() - from,
{
    if !answers_it(reply, pending[from].query@) {
        what_is_found_is_answered(pending, reply, from + 1);
    }
}

/// A reply releases no query but one it names: every other still waits.
pub proof fn a_reply_releases_only_what_it_names(state: HmdsView, reply: Seq<char>, other: int)
    requires
        0 <= other < state.pending.len(),
        !answers_it(reply, state.pending[other].query@),
    ensures
        answered(state, reply).pending.contains(state.pending[other]),
{
    let stays = state.pending[other];
    if first_answered(state.pending, reply, 0) is Some {
        what_is_found_is_answered(state.pending, reply, 0);
        let at = first_answered(state.pending, reply, 0)->0;
        let rest = state.pending.remove(at);
        if other < at {
            assert(rest[other] == stays);
        } else {
            assert(rest[other - 1] == stays);
        }
        assert(state.pending[other] == stays);
    } else {
        assert(state.pending[other] == stays);
    }
}

} // verus!
