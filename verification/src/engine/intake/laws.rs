//! What holds of the orders kept and waiting, whatever is done with them.

use crate::engine::book::Book;
use crate::engine::commands::Pending;
use crate::engine::intake::forget::{
    children_and_others, forgotten_with, kept_children, kept_others, kept_under, kept_without,
    numbers_of,
};
use crate::engine::intake::kept::{
    each_number_is_kept_once, family, first_kept, in_the_family, is_placement, kept_at, kept_once,
    without_kept, Kept,
};
use crate::engine::intake::state::{AttachedView, IntakeView};
use crate::engine::intake::take::Generated;
use crate::engine::intake::transmit::{dropped, going, kept_after, member_goes, placed_ahead};
use crate::engine::intake::withdraw::{
    command_goes, goes_with, picked, placement_waits, withdrawn_with, Which,
};
use crate::types::contract::Contract;
use crate::types::orders::{InstrumentId, OrderRequest};
use std::sync::Arc;
use vstd::prelude::*;

verus! {

proof fn some_are_kept_once(kept: Seq<Kept>, stays: spec_fn(Kept) -> bool)
    requires
        kept_once(kept),
    ensures
        kept_once(kept.filter(stays)),
        forall|i: int|
            0 <= i < kept.filter(stays).len() ==> kept.contains(#[trigger] kept.filter(stays)[i]),
    decreases kept.len(),
{
    reveal(Seq::filter);
    let left = kept.filter(stays);
    if kept.len() > 0 {
        let before = kept.drop_last();
        assert(kept_once(before)) by {
            assert forall|i: int, j: int| 0 <= i < j < before.len() implies (
            #[trigger] before[i]).order_id != (#[trigger] before[j]).order_id by {
                assert(before[i] == kept[i] && before[j] == kept[j]);
            }
        }
        some_are_kept_once(before, stays);
        let earlier = before.filter(stays);
        assert forall|i: int| 0 <= i < earlier.len() implies kept.contains(
            #[trigger] earlier[i],
        ) by {
            let k = choose|k: int| 0 <= k < before.len() && before[k] == earlier[i];
            assert(kept[k] == earlier[i]);
        }
        if stays(kept.last()) {
            assert(left == earlier.push(kept.last()));
            assert forall|i: int, j: int| 0 <= i < j < left.len() implies (
            #[trigger] left[i]).order_id != (#[trigger] left[j]).order_id by {
                if j == earlier.len() {
                    assert(before.contains(earlier[i]));
                    let k = choose|k: int| 0 <= k < before.len() && before[k] == earlier[i];
                    assert(kept[k].order_id != kept[kept.len() - 1].order_id);
                } else {
                    assert(earlier[i].order_id != earlier[j].order_id);
                }
            }
            assert forall|i: int| 0 <= i < left.len() implies kept.contains(#[trigger] left[i]) by {
                if i == earlier.len() {
                    assert(kept[kept.len() - 1] == left[i]);
                } else {
                    assert(left[i] == earlier[i]);
                }
            }
        }
    }
}

proof fn all_but_one_are_kept_once(kept: Seq<Kept>, at: int)
    requires
        kept_once(kept),
        0 <= at < kept.len(),
    ensures
        kept_once(kept.remove(at)),
{
    let left = kept.remove(at);
    assert forall|i: int, j: int| 0 <= i < j < left.len() implies (#[trigger] left[i]).order_id
        != (#[trigger] left[j]).order_id by {
        let a = if i < at {
            i
        } else {
            i + 1
        };
        let b = if j < at {
            j
        } else {
            j + 1
        };
        assert(left[i] == kept[a] && left[j] == kept[b]);
    }
}

/// Taking out what is kept under a number keeps each of the others once, and
/// leaves none under it.
pub proof fn a_released_number_is_kept_no_more(kept: Seq<Kept>, order_id: u64)
    requires
        kept_once(kept),
    ensures
        kept_once(without_kept(kept, order_id)),
        kept_at(without_kept(kept, order_id), order_id) is None,
{
    first_kept(kept, order_id);
    let left = without_kept(kept, order_id);
    first_kept(left, order_id);
    match kept_at(kept, order_id) {
        Some(at) => {
            all_but_one_are_kept_once(kept, at);
            match kept_at(left, order_id) {
                Some(found) => {
                    let k = if found < at {
                        found
                    } else {
                        found + 1
                    };
                    assert(left[found] == kept[k]);
                    assert(kept[k].order_id == kept[at].order_id);
                },
                None => {},
            }
        },
        None => {},
    }
}

proof fn forgetting_keeps_each_once(kept: Seq<Kept>, list: Seq<u64>)
    requires
        kept_once(kept),
    ensures
        kept_once(kept_without(kept, list)),
        forall|i: int|
            0 <= i < kept_without(kept, list).len() ==> kept.contains(
                #[trigger] kept_without(kept, list)[i],
            ),
    decreases kept.len(), list.len(),
{
    let left = kept_without(kept, list);
    if list.len() == 0 {
        assert forall|i: int| 0 <= i < left.len() implies kept.contains(#[trigger] left[i]) by {
            assert(kept[i] == left[i]);
        }
    } else {
        let parent = list.last();
        children_and_others(kept, parent);
        let children = kept_children(kept, parent);
        if children.len() == 0 {
            forgetting_keeps_each_once(kept, list.drop_last());
        } else {
            let other = |one: Kept| !kept_under(one, parent);
            some_are_kept_once(kept, other);
            let rest = kept_others(kept, parent);
            forgetting_keeps_each_once(rest, list.drop_last() + numbers_of(children));
            assert(left == kept_without(rest, list.drop_last() + numbers_of(children)));
            assert forall|i: int| 0 <= i < left.len() implies kept.contains(#[trigger] left[i]) by {
                assert(rest.contains(left[i]));
                let j = choose|j: int| 0 <= j < rest.len() && rest[j] == left[i];
                assert(rest[j] == kept.filter(other)[j]);
            }
        }
    }
}

proof fn forgetting_orders_keeps_what_is_kept(view: IntakeView, ids: Seq<u64>)
    ensures
        view.forgetting_all(ids).kept == view.kept,
    decreases ids.len(),
{
    if ids.len() > 0 {
        forgetting_orders_keeps_what_is_kept(view, ids.drop_last());
    }
}

/// A withdrawal ends a kept order: nothing is kept under its number any more,
/// and each number still kept is kept once.
pub proof fn a_withdrawn_order_is_kept_no_more(view: IntakeView, order_id: u64)
    requires
        kept_once(view.kept),
    ensures
        kept_once(view.without_kept_placement(order_id).kept),
        kept_at(view.without_kept_placement(order_id).kept, order_id) is None,
{
    let rest = without_kept(view.kept, order_id);
    a_released_number_is_kept_no_more(view.kept, order_id);
    forgetting_keeps_each_once(rest, seq![order_id]);
    let left = kept_without(rest, seq![order_id]);
    first_kept(left, order_id);
    first_kept(rest, order_id);
    if kept_at(left, order_id) is Some {
        let at = kept_at(left, order_id)->Some_0;
        assert(rest.contains(left[at]));
        let k = choose|k: int| 0 <= k < rest.len() && rest[k] == left[at];
        assert(rest[k].order_id == order_id);
    }
    forgetting_orders_keeps_what_is_kept(
        IntakeView { kept: left, ..view },
        forgotten_with(rest, seq![order_id]),
    );
}

/// A withdrawal ends a waiting order: no command that places or restates it
/// waits any more.
pub proof fn a_withdrawn_order_waits_no_more(view: IntakeView, book: Book, order_id: u64)
    ensures
        !placement_waits(view.without_waiting_placement(book, order_id).waiting, order_id),
{
    let waiting = view.waiting;
    let left = view.without_waiting_placement(book, order_id).waiting;
    if placement_waits(left, order_id) {
        let i = choose|i: int|
            0 <= i < left.len() && picked(Which::Placing(order_id), #[trigger] left[i]);
        if view.works(book, order_id) {
            let stays = |pending: Pending| !picked(Which::Placing(order_id), pending);
            waiting.lemma_filter_pred(stays, i);
        } else if placement_waits(waiting, order_id) {
            let stays = |pending: Pending| !command_goes(waiting, order_id, pending);
            waiting.lemma_filter_pred(stays, i);
            assert(goes_with(waiting, order_id, order_id, 0));
            assert(withdrawn_with(waiting, order_id, order_id));
        }
    }
}

/// Every member of a family goes or is forgotten.
pub proof fn every_member_goes_or_is_forgotten(
    members: Seq<Kept>,
    attached: AttachedView,
    order_id: u64,
)
    ensures
        going(members, attached, order_id).len() + dropped(members, attached, order_id).len()
            == members.len(),
    decreases members.len(),
{
    if members.len() > 0 {
        every_member_goes_or_is_forgotten(members.drop_last(), attached, order_id);
    }
}

/// A family never places two orders under one of the caller's own numbers.
pub proof fn no_number_is_placed_twice(
    members: Seq<Kept>,
    attached: AttachedView,
    order_id: u64,
)
    ensures
        ({
            let out = going(members, attached, order_id);
            forall|i: int, j: int|
                0 <= i < j < out.len() && is_placement(#[trigger] out[i]) && is_placement(
                    #[trigger] out[j],
                ) ==> attached.api_number(out[i].order_id) != attached.api_number(out[j].order_id)
        }),
        forall|i: int|
            0 <= i < going(members, attached, order_id).len() ==> members.contains(
                #[trigger] going(members, attached, order_id)[i],
            ),
    decreases members.len(),
{
    let out = going(members, attached, order_id);
    if members.len() > 0 {
        let before = members.drop_last();
        no_number_is_placed_twice(before, attached, order_id);
        let earlier = going(before, attached, order_id);
        let last = members.len() - 1;
        assert forall|i: int| 0 <= i < earlier.len() implies members.contains(
            #[trigger] earlier[i],
        ) by {
            let k = choose|k: int| 0 <= k < before.len() && before[k] == earlier[i];
            assert(members[k] == earlier[i]);
        }
        if member_goes(members, attached, order_id, last) {
            assert(out == earlier.push(members[last]));
            assert(members.contains(members[last]));
            assert forall|i: int, j: int|
                0 <= i < j < out.len() && is_placement(#[trigger] out[i]) && is_placement(
                    #[trigger] out[j],
                ) implies attached.api_number(out[i].order_id) != attached.api_number(
                out[j].order_id,
            ) by {
                if j == earlier.len() {
                    assert(before.contains(earlier[i]));
                    let k = choose|k: int| 0 <= k < before.len() && before[k] == earlier[i];
                    assert(members[k] == out[i]);
                    if attached.api_number(out[i].order_id) == attached.api_number(
                        out[j].order_id,
                    ) {
                        assert(placed_ahead(
                            members,
                            attached,
                            last,
                            attached.api_number(members[last].order_id),
                        ));
                    }
                } else {
                    assert(out[i] == earlier[i] && out[j] == earlier[j]);
                }
            }
        }
    }
}

/// Releasing a family keeps each number that stays kept once.
pub proof fn a_release_keeps_each_number_once(
    kept: Seq<Kept>,
    order_id: u64,
    parent_id: i64,
    replacing: bool,
)
    requires
        kept_once(kept),
    ensures
        kept_once(kept_after(kept, order_id, parent_id, replacing)),
{
    let rest = without_kept(kept, order_id);
    a_released_number_is_kept_no_more(kept, order_id);
    if !replacing {
        let left = if parent_id > 0 {
            a_released_number_is_kept_no_more(rest, parent_id as u64);
            without_kept(rest, parent_id as u64)
        } else {
            rest
        };
        some_are_kept_once(left, |one: Kept| !in_the_family(one, order_id, parent_id));
    }
}

/// Taking generated orders keeps each number once.
pub proof fn generated_orders_are_kept_once(
    view: IntakeView,
    children: Seq<Generated>,
    framed: Seq<OrderRequest>,
    parent: u64,
    contract: Arc<Contract>,
    instrument: InstrumentId,
    preview: bool,
)
    requires
        kept_once(view.kept),
    ensures
        kept_once(
            view.with_all_generated(
                children,
                framed,
                parent,
                contract,
                instrument,
                preview,
            ).kept,
        ),
    decreases children.len(),
{
    if children.len() > 0 {
        generated_orders_are_kept_once(
            view,
            children.drop_last(),
            framed,
            parent,
            contract,
            instrument,
            preview,
        );
        let earlier = view.with_all_generated(
            children.drop_last(),
            framed,
            parent,
            contract,
            instrument,
            preview,
        );
        each_number_is_kept_once(
            earlier.kept,
            Kept {
                order_id: children.last().wire_id,
                parent_id: parent as i64,
                command: framed[children.len() - 1],
            },
        );
    }
}

} // verus!
