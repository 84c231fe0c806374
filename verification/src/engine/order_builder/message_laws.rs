//! What holds of the messages orders go out as, and of what is said of them.

use crate::engine::context::{Context, Placed};
use crate::engine::known::{Known, Said};
use crate::engine::order_builder::attrs::{attr_fields, group_name, life_fields};
use crate::engine::order_builder::bracket::{bracket_fields, BracketOrder, Leg};
use crate::engine::order_builder::cancel::revision_name;
use crate::engine::order_builder::drain::{flight_settled, Flight, Rest, Settled};
use crate::engine::order_builder::fields::{also, states, unstated_by, Stated};
use crate::engine::order_builder::leftover::{
    each_inactive, each_leftover, leftover_said, leftover_text, request_op, withdraws_all,
    whole_account_text,
};
use crate::engine::order_builder::merge::merged_attrs;
use crate::engine::order_builder::replace::{restated_fields, Named};
use crate::engine::order_builder::shape::{instruction_of, restated, shape_fields};
use crate::types::attrs::OrderAttrs;
use crate::types::kinds::OrderKind;
use crate::types::orders::{Order, OrderOp, OrderRequest};
use vstd::prelude::*;

verus! {

proof fn what_is_left_was_not_stated(carried: Stated, lean: Stated, i: int, at: int)
    requires
        0 <= i < lean.len(),
        0 <= at < unstated_by(carried, lean).len(),
    ensures
        unstated_by(carried, lean)[at].0 != lean[i].0,
{
    broadcast use vstd::seq_lib::group_filter_ensures;

    assert(!states(lean, unstated_by(carried, lean)[at].0));
    assert(lean[i].0 == lean[i].0);
}

/// A replacement states nothing again: what an order carries comes after the
/// lean message, whose tags it states none of.
#[verifier::spinoff_prover]
pub proof fn a_replacement_states_nothing_again(
    lean: Stated,
    kind: OrderKind,
    attrs: OrderAttrs,
    orig: Order,
    named: Named,
    trail_as_t: bool,
    parent: Option<Seq<char>>,
    i: int,
    j: int,
)
    requires
        0 <= i < lean.len(),
        lean.len() <= j < restated_fields(lean, kind, attrs, orig, named, trail_as_t, parent).len(),
    ensures
        ({
            let message = restated_fields(lean, kind, attrs, orig, named, trail_as_t, parent);
            &&& message[i].0 == lean[i].0
            &&& message[j].0 != lean[i].0
        }),
{
    let again = restated(kind, named.price, named.stop_price);
    let shape = shape_fields(Seq::empty(), again, trail_as_t);
    let carried = attr_fields(
        shape,
        attrs,
        again,
        orig.side,
        instruction_of(kind, trail_as_t),
        parent,
    );
    what_is_left_was_not_stated(carried, lean, i, j - lean.len());
}

proof fn what_is_stated_after(f: Stated, when: bool, tag: u32, text: Seq<char>)
    ensures
        forall|other: u32| #[trigger]
            states(also(f, when, tag, text), other) <==> states(f, other) || (when && tag == other),
{
    let g = also(f, when, tag, text);
    assert forall|other: u32| #[trigger] states(g, other) <==> states(f, other) || (when && tag
        == other) by {
        if states(f, other) {
            let i = choose|i: int| 0 <= i < f.len() && #[trigger] f[i].0 == other;
            assert(g[i].0 == other);
        }
        if when && tag == other {
            assert(g[f.len() as int].0 == other);
        }
        if states(g, other) {
            let i = choose|i: int| 0 <= i < g.len() && #[trigger] g[i].0 == other;
            if i < f.len() {
                assert(f[i].0 == other);
            }
        }
    }
}

/// An order ends by a day or by a moment, and never states both.
pub proof fn an_order_ends_by_a_day_or_by_a_moment(f: Stated, attrs: OrderAttrs)
    requires
        !states(f, 432) && !states(f, 126),
    ensures
        !(states(life_fields(f, attrs), 432) && states(life_fields(f, attrs), 126)),
        states(life_fields(f, attrs), 432) <==> attrs.good_till_date_ymd > 0,
        states(life_fields(f, attrs), 126) <==> attrs.good_till_date_ymd == 0 && attrs.good_till
            > 0,
{
    assert forall|f: Stated, when: bool, tag: u32, text: Seq<char>, other: u32| #[trigger]
        states(also(f, when, tag, text), other) <==> states(f, other) || (when && tag == other) by {
        what_is_stated_after(f, when, tag, text);
    }
}

/// The exits of a bracket hang together: each goes out in the one group, and
/// under the name the entry goes out under.
pub proof fn the_exits_of_a_bracket_hang_together(
    at_entry: Context,
    at_exit: Context,
    known: Known,
    session: Seq<char>,
    bracket: BracketOrder,
    leg: Leg,
    now: Seq<char>,
)
    requires
        !(leg is Entry),
    ensures
        bracket_fields(at_entry, known, session, bracket, Leg::Entry, now).contains(
            (11u32, revision_name(bracket.parent_id, 0)),
        ),
        bracket_fields(at_exit, known, session, bracket, leg, now).contains(
            (6107u32, revision_name(bracket.parent_id, 0)),
        ),
        bracket_fields(at_exit, known, session, bracket, leg, now).contains(
            (583u32, bracket.group()),
        ),
{
    let entry = bracket_fields(at_entry, known, session, bracket, Leg::Entry, now);
    let exit = bracket_fields(at_exit, known, session, bracket, leg, now);
    assert(entry[2] == (11u32, revision_name(bracket.parent_id, 0)));
    assert(exit[17] == (6107u32, revision_name(bracket.parent_id, 0)));
    assert(exit[18] == (583u32, bracket.group()));
}

/// An exit of a bracket that is replaced stays in its bracket, whatever the
/// replacement states.
pub proof fn a_replaced_exit_stays_in_its_bracket(
    bracket: BracketOrder,
    leg: Leg,
    placed: Placed,
    stated: OrderAttrs,
)
    requires
        !(leg is Entry),
        bracket.leg_recorded(leg, placed),
    ensures
        group_name(merged_attrs(*placed.attrs, stated)) == bracket.group(),
        merged_attrs(*placed.attrs, stated).parent_id == bracket.parent_id,
        merged_attrs(*placed.attrs, stated).oca_type == 3,
{
    reveal_strlit("OCA_");
    assert(bracket.group().len() > 0);
}

/// A withdrawal that failed to leave touches no replacement still unanswered:
/// the names of every order, and what stands to be put back, are what they
/// were.
pub proof fn a_failed_withdrawal_leaves_replacements_alone(
    before: Context,
    after: Context,
    known: Known,
    said_before: Seq<Said>,
    said_after: Seq<Said>,
    order_id: u64,
    rest: Option<Rest>,
    settled: Settled,
    now_ns: u64,
)
    requires
        flight_settled(
            before,
            after,
            known,
            said_before,
            said_after,
            Flight::Withdrawal { order_id },
            rest,
            false,
            settled,
            now_ns,
        ),
    ensures
        after.pre_replace == before.pre_replace,
        after.submitted == before.submitted,
        after.modify_versions == before.modify_versions,
        after.last_clord == before.last_clord,
{
}

proof fn every_one_is_said(
    before: Seq<Said>,
    ids: Seq<u64>,
    op: OrderOp,
    text: Seq<char>,
    one: Said,
)
    requires
        before.contains(one) || exists|i: int|
            0 <= i < ids.len() && #[trigger] ids[i] != 0 && one == (Said::Inactive {
                order_id: ids[i],
                op,
                code: 504,
                text,
            }),
    ensures
        each_inactive(before, ids, op, text).contains(one),
    decreases ids.len(),
{
    if ids.len() > 0 {
        let earlier = each_inactive(before, ids.drop_last(), op, text);
        let all = each_inactive(before, ids, op, text);
        let last = Said::Inactive { order_id: ids.last(), op, code: 504, text };
        if ids.last() != 0 && one == last {
            assert(all[earlier.len() as int] == one);
        } else {
            if !before.contains(one) {
                let i = choose|i: int|
                    0 <= i < ids.len() && #[trigger] ids[i] != 0 && one == (Said::Inactive {
                        order_id: ids[i],
                        op,
                        code: 504,
                        text,
                    });
                assert(ids.drop_last()[i] != 0);
            }
            every_one_is_said(before, ids.drop_last(), op, text, one);
            let i = choose|i: int| 0 <= i < earlier.len() && earlier[i] == one;
            assert(all[i] == one);
        }
    }
}

proof fn every_one_left_is_said(
    before: Seq<Said>,
    requests: Seq<OrderRequest>,
    why: Seq<char>,
    at: int,
    id: u64,
)
    requires
        0 <= at < requests.len(),
        requests[at].ids().contains(id),
        id != 0,
    ensures
        each_leftover(before, requests, why).contains(
            Said::Inactive {
                order_id: id,
                op: request_op(requests[at]),
                code: 504,
                text: leftover_text(why, requests[at]),
            },
        ),
    decreases requests.len(),
{
    let one = Said::Inactive {
        order_id: id,
        op: request_op(requests[at]),
        code: 504,
        text: leftover_text(why, requests[at]),
    };
    let last = requests.last();
    let earlier = each_leftover(before, requests.drop_last(), why);
    if at == requests.len() - 1 {
        let i = choose|i: int| 0 <= i < last.ids().len() && last.ids()[i] == id;
        assert(last.ids()[i] != 0);
    } else {
        assert(requests.drop_last()[at] == requests[at]);
        every_one_left_is_said(before, requests.drop_last(), why, at, id);
    }
    every_one_is_said(earlier, last.ids(), request_op(last), leftover_text(why, last), one);
}

/// Nothing still waiting is dropped in silence: every order an instruction
/// names is told of it, as what the instruction was.
pub proof fn everyone_left_is_told(
    before: Seq<Said>,
    requests: Seq<OrderRequest>,
    why: Seq<char>,
    at: int,
    id: u64,
)
    requires
        0 <= at < requests.len(),
        requests[at].ids().contains(id),
        id != 0,
    ensures
        leftover_said(before, requests, why).contains(
            Said::Inactive {
                order_id: id,
                op: request_op(requests[at]),
                code: 504,
                text: leftover_text(why, requests[at]),
            },
        ),
{
    let one = Said::Inactive {
        order_id: id,
        op: request_op(requests[at]),
        code: 504,
        text: leftover_text(why, requests[at]),
    };
    every_one_left_is_said(before, requests, why, at, id);
    let each = each_leftover(before, requests, why);
    let all = leftover_said(before, requests, why);
    let i = choose|i: int| 0 <= i < each.len() && each[i] == one;
    assert(all[i] == one);
}

/// However many withdrawals of every order were still waiting, they are said
/// once, and last.
pub proof fn withdrawals_of_everything_are_said_once(
    before: Seq<Said>,
    requests: Seq<OrderRequest>,
    why: Seq<char>,
    at: int,
)
    requires
        0 <= at < requests.len(),
        withdraws_all(requests[at]),
    ensures
        leftover_said(before, requests, why) == each_leftover(before, requests, why).push(
            Said::Session { code: 504, text: whole_account_text(why) },
        ),
{
}

} // verus!
