//! What becomes of the queries a session waits on when its connection goes.

use crate::engine::hmds::queries::{
    ends_bars, first_bar_stream, first_waiting, other_numbers, query_refused, tell, told,
    told_of_refusal, waiting_refused, without_the_stream_half, Asked, HmdsState, HmdsView, Waiting,
    NO_REQUEST,
};
use crate::engine::hmds::streams::first_named;
use crate::engine::known::{said, Notice, Said};
use crate::error_codes::Refusal;
use vstd::prelude::*;

verus! {

/// What a session holds once every query it waited on has failed, the one it
/// asked first failing first.
pub open spec fn all_failed(state: HmdsView) -> HmdsView
    decreases state.pending.len(),
{
    if state.pending.len() == 0 {
        state
    } else {
        let rest = waiting_refused(state, 0);
        if rest.pending.len() < state.pending.len() {
            all_failed(rest)
        } else {
            rest
        }
    }
}

/// The requests for bars that are over once every query has failed.
pub open spec fn all_over(state: HmdsView) -> Seq<u32>
    decreases state.pending.len(),
{
    if state.pending.len() == 0 {
        Seq::empty()
    } else {
        let rest = waiting_refused(state, 0);
        let after = if rest.pending.len() < state.pending.len() {
            all_over(rest)
        } else {
            Seq::empty()
        };
        if ends_bars(state, state.pending[0]) {
            seq![state.pending[0].req_id] + after
        } else {
            after
        }
    }
}

/// What is told when every query fails: the same to each caller.
pub open spec fn told_to_all(pending: Seq<Waiting>, text: Seq<char>) -> Seq<Said> {
    pending.map_values(|waiting: Waiting| told(waiting.req_id, Refusal::NOT_CONNECTED, text))
}

/// What is told of the scanner's parameters when the connection goes.
pub open spec fn told_of_params(state: HmdsView, text: Seq<char>) -> Seq<Said> {
    if state.pending_scanner_params {
        seq![told(NO_REQUEST, Refusal::NOT_CONNECTED, text)]
    } else {
        Seq::empty()
    }
}

impl HmdsState {
    /// Fail every query that waits on an answer, with the reason none will
    /// come: the requests for bars that are over.
    pub fn fail_pending(&mut self, reason: &str, notices: &mut Vec<Notice>) -> (over: Vec<u32>)
        ensures
            final(self)@ == (HmdsView {
                pending_scanner_params: false,
                ..all_failed(old(self)@)
            }),
            said(final(notices)@) == said(old(notices)@) + told_to_all(
                old(self)@.pending,
                reason@,
            ) + told_of_params(old(self)@, reason@),
            over@ == all_over(old(self)@),
    {
        let mut over: Vec<u32> = Vec::new();
        let ghost before = said(notices@);
        let ghost mut told_so_far: Seq<Said> = Seq::empty();
        proof {
            assert(before + told_so_far =~= before);
            assert(told_so_far + told_to_all(self@.pending, reason@) =~= told_to_all(
                self@.pending,
                reason@,
            ));
            assert(over@ + all_over(self@) =~= all_over(self@));
        }
        while self.pending.len() > 0
            invariant
                all_failed(self@) == all_failed(old(self)@),
                self@.pending_scanner_params == old(self)@.pending_scanner_params,
                over@ + all_over(self@) == all_over(old(self)@),
                said(notices@) == before + told_so_far,
                told_so_far + told_to_all(self@.pending, reason@) == told_to_all(
                    old(self)@.pending,
                    reason@,
                ),
            decreases self.pending@.len(),
        {
            let ghost state = self@;
            let ends: bool = self.first_ends_bars();
            let req_id: u32 = self.fail_first(ends);
            tell(notices, req_id, Refusal::NOT_CONNECTED, reason);
            if ends {
                over.push(req_id);
            }
            proof {
                let one = told(req_id, Refusal::NOT_CONNECTED, reason@);
                assert(told_to_all(state.pending, reason@) =~= seq![one] + told_to_all(
                    state.pending.remove(0),
                    reason@,
                ));
                assert((told_so_far.push(one)) + told_to_all(self@.pending, reason@) =~= told_so_far
                    + told_to_all(state.pending, reason@));
                told_so_far = told_so_far.push(one);
                assert(said(notices@) =~= before + told_so_far);
                assert(over@ + all_over(self@) =~= all_over(old(self)@));
            }
        }
        proof {
            assert(told_to_all(self@.pending, reason@) =~= Seq::empty());
            assert(told_so_far =~= told_to_all(old(self)@.pending, reason@));
            assert(over@ =~= all_over(old(self)@));
        }
        if self.pending_scanner_params {
            tell(notices, NO_REQUEST, Refusal::NOT_CONNECTED, reason);
            self.pending_scanner_params = false;
        }
        proof {
            assert(said(notices@) =~= before + told_to_all(old(self)@.pending, reason@)
                + told_of_params(old(self)@, reason@));
        }
        over
    }

    fn first_ends_bars(&self) -> (ends: bool)
        requires
            self@.pending.len() > 0,
        ensures
            ends == ends_bars(self@, self@.pending[0]),
    {
        self.pending[0].asked == Asked::Bars || (self.pending[0].asked == Asked::Adjustments
            && self.is_folded_with(&self.pending[0].query))
    }

    fn fail_first(&mut self, ends: bool) -> (req_id: u32)
        requires
            old(self)@.pending.len() > 0,
            ends == ends_bars(old(self)@, old(self)@.pending[0]),
        ensures
            final(self)@ == waiting_refused(old(self)@, 0),
            final(self)@.pending == old(self)@.pending.remove(0),
            req_id == old(self)@.pending[0].req_id,
            final(self)@.pending_scanner_params == old(self)@.pending_scanner_params,
    {
        let waiting: Waiting = self.pending.remove(0);
        if ends {
            self.fail_request(waiting.req_id);
        }
        waiting.req_id
    }
}

/// Nothing waits once the connection is lost.
pub proof fn nothing_waits_on_a_lost_connection(state: HmdsView)
    ensures
        all_failed(state).pending.len() == 0,
    decreases state.pending.len(),
{
    if state.pending.len() > 0 {
        let rest = waiting_refused(state, 0);
        assert(rest.pending == state.pending.remove(0));
        nothing_waits_on_a_lost_connection(rest);
    }
}

proof fn the_others_are_kept(numbers: Seq<u32>, gone: u32, req_id: u32)
    requires
        numbers.contains(req_id),
        req_id != gone,
    ensures
        other_numbers(numbers, gone).contains(req_id),
{
    broadcast use vstd::seq_lib::group_filter_ensures;

    let at = choose|i: int| 0 <= i < numbers.len() && numbers[i] == req_id;
    assert(numbers[at] == req_id);
}

/// A stream that is still wanted outlives the connection: a number whose
/// queries none of those that failed was asked under is asked for again.
pub proof fn a_wanted_stream_outlives_the_connection(state: HmdsView, req_id: u32)
    requires
        state.rtbar_resub.contains(req_id),
        forall|i: int| 0 <= i < state.pending.len() ==> (#[trigger] state.pending[i]).req_id
            != req_id,
    ensures
        all_failed(state).rtbar_resub.contains(req_id),
    decreases state.pending.len(),
{
    if state.pending.len() > 0 {
        let first = state.pending[0];
        let rest = waiting_refused(state, 0);
        assert(rest.pending == state.pending.remove(0));
        assert(first.req_id != req_id);
        assert forall|i: int| 0 <= i < rest.pending.len() implies (#[trigger] rest.pending[i]).req_id
            != req_id by {
            assert(rest.pending[i] == state.pending[i + 1]);
        }
        the_others_are_kept(state.rtbar_resub, first.req_id, req_id);
        a_wanted_stream_outlives_the_connection(rest, req_id);
    }
}

/// Withdrawing a request kept up to date leaves no record under its number:
/// it is not kept, not asked for again, and no bar is formed for it.
pub proof fn a_withdrawn_request_leaves_no_record(state: HmdsView, req_id: u32)
    ensures
        !without_the_stream_half(state, req_id).keep_up_to_date_reqs.contains(req_id),
        !without_the_stream_half(state, req_id).rtbar_resub.contains(req_id),
        !without_the_stream_half(state, req_id).forming_bars.contains(req_id),
        forall|i: int|
            0 <= i < without_the_stream_half(state, req_id).rtbar_subs.len() ==> (
            #[trigger] without_the_stream_half(state, req_id).rtbar_subs[i]).req_id != req_id,
{
    broadcast use vstd::seq_lib::group_filter_ensures;

}

/// A refusal that names nothing changes nothing and is told to nobody.
pub proof fn a_refusal_naming_nothing_is_told_to_nobody(
    state: HmdsView,
    stated: Seq<char>,
    text: Seq<char>,
)
    requires
        first_waiting(state.pending, stated, 0) is None,
        first_bar_stream(state.rtbar_subs, stated, 0) is None,
        first_named(state.ticks.subscriptions, stated, 0) is None,
    ensures
        query_refused(state, stated) == state,
        told_of_refusal(state, stated, text).len() == 0,
{
}

} // verus!
