//! Which orders of a family go once it is released.

use crate::engine::book::Book;
use crate::engine::intake::framing::Framing;
use crate::engine::intake::kept::{first_kept, is_placement, kept_at, with_kept, Kept};
use crate::engine::intake::order_laws::{a_taken_order_asks_what_was_built, asks_the_same};
use crate::engine::intake::state::{AttachedView, IntakeView};
use crate::engine::intake::take::{placement_taken, Taken};
use crate::engine::intake::transmit::{
    commands_of, going, member_goes, own_place, placed_ahead, whole_family,
};
use crate::engine::commands::Placement;
use crate::engine::known::Said;
use crate::types::orders::{InstrumentId, OrderOp, OrderRequest};
use vstd::prelude::*;

verus! {

proof fn a_member_that_goes_is_among_those_going(
    members: Seq<Kept>,
    attached: AttachedView,
    order_id: u64,
    at: int,
)
    requires
        0 <= at < members.len(),
        member_goes(members, attached, order_id, at),
    ensures
        going(members, attached, order_id).contains(members[at]),
    decreases members.len(),
{
    let less = members.drop_last();
    let before = going(less, attached, order_id);
    let all = going(members, attached, order_id);
    if at == members.len() - 1 {
        assert(all[before.len() as int] == members[at]);
    } else {
        assert(less[at] == members[at]);
        let api = attached.api_number(members[at].order_id);
        assert(placed_ahead(less, attached, at, api) ==> placed_ahead(members, attached, at, api))
            by {
            if placed_ahead(less, attached, at, api) {
                let i = choose|i: int|
                    0 <= i < at && is_placement(#[trigger] less[i]) && attached.api_number(
                        less[i].order_id,
                    ) == api;
                assert(members[i] == less[i]);
            }
        }
        a_member_that_goes_is_among_those_going(less, attached, order_id, at);
        let i = choose|i: int| 0 <= i < before.len() && before[i] == members[at];
        assert(all[i] == members[at]);
    }
}

/// Every member of a released family that never went goes with it, as the
/// instruction it was kept with; a change goes in any case. No member goes in
/// place of another: what goes is an instruction some member was kept with.
pub proof fn a_member_goes_as_it_was_kept(
    members: Seq<Kept>,
    attached: AttachedView,
    order_id: u64,
    at: int,
)
    requires
        0 <= at < members.len(),
        forall|i: int, j: int|
            0 <= i < j < members.len() ==> attached.api_number((#[trigger] members[i]).order_id)
                != attached.api_number((#[trigger] members[j]).order_id),
    ensures
        !is_placement(members[at]) || members[at].order_id == order_id
            || !attached.sent_api_ids.contains(attached.api_number(members[at].order_id))
            ==> commands_of(going(members, attached, order_id)).contains(members[at].command),
        forall|i: int|
            0 <= i < commands_of(going(members, attached, order_id)).len() ==> exists|j: int|
                0 <= j < members.len() && (#[trigger] members[j]).command == #[trigger] commands_of(
                    going(members, attached, order_id),
                )[i],
{
    let api = attached.api_number(members[at].order_id);
    let all = going(members, attached, order_id);
    if !is_placement(members[at]) || members[at].order_id == order_id
        || !attached.sent_api_ids.contains(api) {
        assert(!placed_ahead(members, attached, at, api));
        a_member_that_goes_is_among_those_going(members, attached, order_id, at);
        let i = choose|i: int| 0 <= i < all.len() && all[i] == members[at];
        assert(commands_of(all)[i] == members[at].command);
    }
    crate::engine::intake::laws::no_number_is_placed_twice(members, attached, order_id);
    assert forall|i: int| 0 <= i < commands_of(all).len() implies exists|j: int|
        0 <= j < members.len() && (#[trigger] members[j]).command == #[trigger] commands_of(all)[i]
        by {
        assert(members.contains(all[i]));
        let j = choose|j: int| 0 <= j < members.len() && members[j] == all[i];
        assert(members[j].command == commands_of(all)[i]);
    }
}

proof fn a_place_is_within(kept: Seq<Kept>, own_at: int, members: Seq<Kept>)
    ensures
        0 <= own_place(kept, own_at, members) <= members.len(),
    decreases members.len(),
{
    if members.len() > 0 {
        a_place_is_within(kept, own_at, members.drop_last());
    }
}

/// An order that is released is itself of the family released; a change is
/// released alone.
pub proof fn an_order_is_of_its_own_family(
    kept: Seq<Kept>,
    order_id: u64,
    parent_id: i64,
    replacing: bool,
)
    requires
        kept_at(kept, order_id) is Some,
    ensures
        ({
            let at = kept_at(kept, order_id)->0;
            let members = whole_family(kept, order_id, parent_id, replacing);
            &&& 0 <= at < kept.len()
            &&& kept[at].order_id == order_id
            &&& members.contains(kept[at])
            &&& replacing ==> members == seq![kept[at]]
        }),
{
    first_kept(kept, order_id);
    let at = kept_at(kept, order_id)->0;
    let others = if replacing {
        Seq::empty()
    } else {
        crate::engine::intake::kept::family(kept.remove(at), order_id, parent_id)
    };
    let place = own_place(kept, at, others);
    a_place_is_within(kept, at, others);
    let members = whole_family(kept, order_id, parent_id, replacing);
    assert(members == others.insert(place, kept[at]));
    assert(members[place] == kept[at]);
    if replacing {
        assert(members =~= seq![kept[at]]);
    }
}

/// An order that does not transmit is kept, asking what it was built to, and
/// hangs from the order it names.
pub proof fn an_order_that_does_not_transmit_is_kept(
    before: IntakeView,
    after: IntakeView,
    said_before: Seq<Said>,
    said_after: Seq<Said>,
    book: Book,
    p: Placement,
    order_id: u64,
    instrument: InstrumentId,
    op: OrderOp,
    built: OrderRequest,
    framing: Framing,
    out: Taken,
    command: OrderRequest,
    framed: Seq<OrderRequest>,
)
    requires
        placement_taken(
            before,
            after,
            said_before,
            said_after,
            book,
            p,
            order_id,
            instrument,
            op,
            built,
            None,
            framing,
            out,
            command,
            framed,
        ),
        !p.order.transmit,
        !book.waiting_attached@.contains(order_id),
    ensures
        out is Kept,
        asks_the_same(built, command),
        kept_at(after.kept, order_id) matches Some(at) && after.kept[at].command == command
            && after.kept[at].order_id == order_id,
        !p.order.what_if ==> after.placed.dom().contains(order_id)
            && after.placed[order_id].instrument == instrument
            && after.placed[order_id].order.qty == p.order.qty
            && after.placed[order_id].order.action == p.order.action,
{
    a_taken_order_asks_what_was_built(
        built,
        command,
        crate::engine::intake::take::command_kept(before.kept, order_id),
        crate::engine::intake::take::framing_for(before, order_id, false, framing),
        None,
        before.attached.wire_number(p.order.parent_id),
        (p.order_id as i64, p.order.client_id),
    );
    assert forall|kept: Seq<Kept>, one: Kept|
        #![trigger with_kept(kept, one)]
        one.order_id == order_id implies (kept_at(with_kept(kept, one), order_id) matches Some(at)
        && with_kept(kept, one)[at] == one) by {
        first_kept(kept, order_id);
        first_kept(with_kept(kept, one), order_id);
        let after = with_kept(kept, one);
        match kept_at(kept, order_id) {
            Some(at) => {
                assert(after[at] == one);
            },
            None => {
                assert(after[kept.len() as int] == one);
            },
        }
    }
}

} // verus!
