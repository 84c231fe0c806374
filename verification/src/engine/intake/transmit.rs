//! Releasing a family of orders with one that transmits.

use crate::engine::book::holds;
use crate::engine::intake::forget::forgetting_said;
use crate::engine::intake::kept::{
    family, family_of, first_kept, is_placement, kept_at, outside_the_family, position, release,
    without_kept, Kept,
};
use crate::engine::intake::state::{AttachedView, Intake, IntakeView};
use crate::engine::known::{said, say, Notice};
use crate::types::attrs::{AttachedAttrs, OrderAttrs};
use crate::types::orders::{OrderRequest, OrderSpec};
use std::sync::Arc;
use vstd::prelude::*;

verus! {

/// Whether a number is kept ahead of a place.
pub open spec fn kept_ahead(kept: Seq<Kept>, at: int, order_id: u64) -> bool {
    exists|i: int| 0 <= i < at && (#[trigger] kept[i]).order_id == order_id
}

/// Where the order that transmits goes among its family: ahead of the first
/// that was not kept ahead of it.
pub open spec fn own_place(kept: Seq<Kept>, own_at: int, members: Seq<Kept>) -> int
    decreases members.len(),
{
    if members.len() == 0 {
        0
    } else {
        let before = own_place(kept, own_at, members.drop_last());
        if before < members.len() - 1 {
            before
        } else if !kept_ahead(kept, own_at, members.last().order_id) {
            members.len() - 1
        } else {
            members.len() as int
        }
    }
}

/// The family released with an order that transmits, itself among it. A
/// replacement goes alone.
pub open spec fn whole_family(
    kept: Seq<Kept>,
    order_id: u64,
    parent_id: i64,
    replacing: bool,
) -> Seq<Kept> {
    match kept_at(kept, order_id) {
        None => Seq::empty(),
        Some(at) => {
            let members = if replacing {
                Seq::empty()
            } else {
                family(kept.remove(at), order_id, parent_id)
            };
            members.insert(own_place(kept, at, members), kept[at])
        },
    }
}

/// What stays kept once a family is released with an order that transmits.
pub open spec fn kept_after(
    kept: Seq<Kept>,
    order_id: u64,
    parent_id: i64,
    replacing: bool,
) -> Seq<Kept> {
    let rest = without_kept(kept, order_id);
    if replacing {
        rest
    } else {
        outside_the_family(rest, order_id, parent_id)
    }
}

/// Whether one of the caller's own numbers places an order ahead of a place.
pub open spec fn placed_ahead(
    members: Seq<Kept>,
    attached: AttachedView,
    at: int,
    api: i64,
) -> bool {
    exists|i: int|
        0 <= i < at && is_placement(#[trigger] members[i]) && attached.api_number(
            members[i].order_id,
        ) == api
}

/// Whether a member of a family goes: every change does, and a placement does
/// where no other of the family places its caller's number and it has not gone
/// already. The order that transmits goes though it has.
pub open spec fn member_goes(
    members: Seq<Kept>,
    attached: AttachedView,
    order_id: u64,
    at: int,
) -> bool {
    let api = attached.api_number(members[at].order_id);
    !is_placement(members[at]) || (!placed_ahead(members, attached, at, api) && (
    members[at].order_id == order_id || !attached.sent_api_ids.contains(api)))
}

/// The members of a family that go, in the order they go.
pub open spec fn going(members: Seq<Kept>, attached: AttachedView, order_id: u64) -> Seq<Kept>
    decreases members.len(),
{
    if members.len() == 0 {
        Seq::empty()
    } else {
        let before = going(members.drop_last(), attached, order_id);
        if member_goes(members, attached, order_id, members.len() - 1) {
            before.push(members.last())
        } else {
            before
        }
    }
}

/// The members of a family that do not go.
pub open spec fn dropped(members: Seq<Kept>, attached: AttachedView, order_id: u64) -> Seq<u64>
    decreases members.len(),
{
    if members.len() == 0 {
        Seq::empty()
    } else {
        let before = dropped(members.drop_last(), attached, order_id);
        if member_goes(members, attached, order_id, members.len() - 1) {
            before
        } else {
            before.push(members.last().order_id)
        }
    }
}

/// The caller's own numbers that went, with those of some placements.
pub open spec fn sent_with(attached: AttachedView, members: Seq<Kept>) -> AttachedView
    decreases members.len(),
{
    if members.len() == 0 {
        attached
    } else {
        let before = sent_with(attached, members.drop_last());
        let api = attached.api_number(members.last().order_id);
        if is_placement(members.last()) && !before.sent_api_ids.contains(api) {
            AttachedView { sent_api_ids: before.sent_api_ids.push(api), ..before }
        } else {
            before
        }
    }
}

/// Whether any of a family belongs to one that is attached.
pub open spec fn any_attached(members: Seq<Kept>, attached: AttachedView) -> bool {
    exists|i: int|
        0 <= i < members.len() && attached.family_keys.dom().contains(
            (#[trigger] members[i]).order_id,
        )
}

/// What a family goes out as.
#[derive(Debug)]
pub struct Transmitted {
    /// The instructions, in the order they go.
    pub commands: Vec<OrderRequest>,
    /// The order at the head of the family.
    pub root: u64,
    /// Whether the family is attached, and goes together.
    pub attached: bool,
}

/// The instructions of a list of orders kept.
pub open spec fn commands_of(members: Seq<Kept>) -> Seq<OrderRequest> {
    members.map_values(|one: Kept| one.command)
}

impl IntakeView {
    /// What intake holds once a family is released with an order that
    /// transmits.
    pub open spec fn after_transmitting(
        self,
        order_id: u64,
        parent_id: i64,
        replacing: bool,
    ) -> IntakeView {
        let members = whole_family(self.kept, order_id, parent_id, replacing);
        let left = (IntakeView {
            kept: kept_after(self.kept, order_id, parent_id, replacing),
            ..self
        }).forgetting_all(dropped(members, self.attached, order_id));
        IntakeView {
            attached: sent_with(left.attached, going(members, self.attached, order_id)),
            ..left
        }
    }
}

fn ahead(kept: &Vec<Kept>, at: usize) -> (ids: Vec<u64>)
    requires
        at <= kept@.len(),
    ensures
        forall|id: u64| ids@.contains(id) <==> #[trigger] kept_ahead(kept@, at as int, id),
{
    let mut ids: Vec<u64> = Vec::new();
    let mut i: usize = 0;
    while i < at
        invariant
            i <= at <= kept@.len(),
            ids@.len() == i,
            forall|j: int| 0 <= j < i ==> #[trigger] ids@[j] == kept@[j].order_id,
        decreases at - i,
    {
        ids.push(kept[i].order_id);
        i = i + 1;
    }
    proof {
        assert forall|id: u64| ids@.contains(id) <==> #[trigger] kept_ahead(kept@, at as int, id) by {
            if ids@.contains(id) {
                let j = choose|j: int| 0 <= j < ids@.len() && ids@[j] == id;
                assert(kept@[j].order_id == id);
            }
            if kept_ahead(kept@, at as int, id) {
                let j = choose|j: int| 0 <= j < at && (#[trigger] kept@[j]).order_id == id;
                assert(ids@[j] == id);
            }
        }
    }
    ids
}

fn place_of_own(
    members: &Vec<Kept>,
    ids: &Vec<u64>,
    kept: Ghost<Seq<Kept>>,
    own_at: Ghost<int>,
) -> (at: usize)
    requires
        forall|id: u64| ids@.contains(id) <==> #[trigger] kept_ahead(kept@, own_at@, id),
    ensures
        at == own_place(kept@, own_at@, members@),
        at <= members@.len(),
{
    let mut at: usize = 0;
    proof {
        assert(members@.take(0) =~= Seq::empty());
    }
    while at < members.len()
        invariant
            at <= members@.len(),
            forall|id: u64| ids@.contains(id) <==> #[trigger] kept_ahead(kept@, own_at@, id),
            own_place(kept@, own_at@, members@.take(at as int)) == at,
        decreases members@.len() - at,
    {
        proof {
            assert(members@.take(at + 1).drop_last() =~= members@.take(at as int));
            assert(members@.take(at + 1).last() == members@[at as int]);
        }
        if !holds(ids, members[at].order_id) {
            proof {
                assert(!kept_ahead(kept@, own_at@, members@[at as int].order_id));
                the_first_place_stays(kept@, own_at@, members@, at + 1);
            }
            return at;
        }
        proof {
            assert(kept_ahead(kept@, own_at@, members@[at as int].order_id));
        }
        at = at + 1;
    }
    proof {
        assert(members@.take(at as int) =~= members@);
    }
    at
}

proof fn the_first_place_stays(kept: Seq<Kept>, own_at: int, members: Seq<Kept>, at: int)
    requires
        0 < at <= members.len(),
        own_place(kept, own_at, members.take(at)) == at - 1,
    ensures
        own_place(kept, own_at, members) == at - 1,
    decreases members.len(),
{
    if at < members.len() {
        assert(members.drop_last().take(at) =~= members.take(at));
        the_first_place_stays(kept, own_at, members.drop_last(), at);
    } else {
        assert(members.take(at) =~= members);
    }
}

fn numbers_listed(list: &Vec<i64>, api: i64) -> (held: bool)
    ensures
        held == list@.contains(api),
{
    let mut at: usize = 0;
    while at < list.len()
        invariant
            at <= list@.len(),
            forall|i: int| 0 <= i < at ==> list@[i] != api,
        decreases list@.len() - at,
    {
        if list[at] == api {
            return true;
        }
        at = at + 1;
    }
    false
}

/// Part a family into what goes and the numbers of what does not.
fn part(intake: &Intake, members: Vec<Kept>, order_id: u64) -> (parted: (Vec<Kept>, Vec<u64>))
    ensures
        parted.0@ == going(members@, intake@.attached, order_id),
        parted.1@ == dropped(members@, intake@.attached, order_id),
{
    let ghost whole = members@;
    let ghost attached = intake@.attached;
    let mut left: Vec<Kept> = members;
    let mut goes: Vec<Kept> = Vec::new();
    let mut stays: Vec<u64> = Vec::new();
    let mut seen: Vec<i64> = Vec::new();
    let ghost mut done: int = 0;
    proof {
        assert(whole.take(0) =~= Seq::empty());
        assert(left@ =~= whole.skip(0));
    }
    while left.len() > 0
        invariant
            0 <= done <= whole.len(),
            attached == intake@.attached,
            left@ == whole.skip(done),
            goes@ == going(whole.take(done), attached, order_id),
            stays@ == dropped(whole.take(done), attached, order_id),
            forall|api: i64|
                seen@.contains(api) <==> #[trigger] placed_ahead(whole, attached, done, api),
        decreases left@.len(),
    {
        let one: Kept = left.remove(0);
        let api: i64 = intake.attached.api_order_id(one.order_id);
        let places: bool = one.places_the_order();
        let ghost before = seen@;
        let ghost next = whole.take(done + 1);
        proof {
            assert(next.drop_last() =~= whole.take(done));
            assert(next.last() == one);
            assert(whole[done] == one);
            assert(left@ =~= whole.skip(done + 1));
            prefixes_agree(whole, attached, done + 1, done, api);
            assert(placed_ahead(next, attached, done, api) == placed_ahead(
                whole,
                attached,
                done,
                api,
            ));
        }
        let new: bool = if places {
            let new: bool = !numbers_listed(&seen, api);
            if new {
                seen.push(api);
            }
            new
        } else {
            false
        };
        proof {
            assert forall|other: i64|
                seen@.contains(other) <==> #[trigger] placed_ahead(
                    whole,
                    attached,
                    done + 1,
                    other,
                ) by {
                seen_with_one_more(whole, attached, done, other);
                if before.contains(other) {
                    let j = choose|j: int| 0 <= j < before.len() && before[j] == other;
                    assert(seen@[j] == other);
                }
                if places && other == api {
                    if new {
                        assert(seen@[before.len() as int] == other);
                    }
                }
                if seen@.contains(other) && !before.contains(other) {
                    let j = choose|j: int| 0 <= j < seen@.len() && seen@[j] == other;
                    assert(j == before.len());
                }
            }
            done = done + 1;
        }
        if !places || (new && (one.order_id == order_id || !intake.attached.went(api))) {
            goes.push(one);
        } else {
            stays.push(one.order_id);
        }
    }
    proof {
        assert(whole.take(done) =~= whole);
    }
    (goes, stays)
}

proof fn prefixes_agree(
    members: Seq<Kept>,
    attached: AttachedView,
    upto: int,
    at: int,
    api: i64,
)
    requires
        0 <= at <= upto <= members.len(),
    ensures
        placed_ahead(members.take(upto), attached, at, api) == placed_ahead(
            members,
            attached,
            at,
            api,
        ),
{
    let short = members.take(upto);
    if placed_ahead(members, attached, at, api) {
        let i = choose|i: int|
            0 <= i < at && is_placement(#[trigger] members[i]) && attached.api_number(
                members[i].order_id,
            ) == api;
        assert(short[i] == members[i]);
    }
    if placed_ahead(short, attached, at, api) {
        let i = choose|i: int|
            0 <= i < at && is_placement(#[trigger] short[i]) && attached.api_number(
                short[i].order_id,
            ) == api;
        assert(short[i] == members[i]);
    }
}

proof fn seen_with_one_more(members: Seq<Kept>, attached: AttachedView, at: int, api: i64)
    requires
        0 <= at < members.len(),
    ensures
        placed_ahead(members, attached, at + 1, api) == (placed_ahead(members, attached, at, api)
            || (is_placement(members[at]) && attached.api_number(members[at].order_id) == api)),
{
    if placed_ahead(members, attached, at + 1, api) {
        let i = choose|i: int|
            0 <= i < at + 1 && is_placement(#[trigger] members[i]) && attached.api_number(
                members[i].order_id,
            ) == api;
        if i < at {
            assert(placed_ahead(members, attached, at, api));
        }
    }
    if placed_ahead(members, attached, at, api) {
        let i = choose|i: int|
            0 <= i < at && is_placement(#[trigger] members[i]) && attached.api_number(
                members[i].order_id,
            ) == api;
        assert(is_placement(members[i]));
    }
}

fn forget_each(intake: &mut Intake, notices: &mut Vec<Notice>, ids: &Vec<u64>)
    ensures
        final(intake)@ == old(intake)@.forgetting_all(ids@),
        said(final(notices)@) == forgetting_said(said(old(notices)@), ids@),
{
    let mut at: usize = 0;
    proof {
        assert(ids@.take(0) =~= Seq::empty());
    }
    while at < ids.len()
        invariant
            at <= ids@.len(),
            intake@ == old(intake)@.forgetting_all(ids@.take(at as int)),
            said(notices@) == forgetting_said(said(old(notices)@), ids@.take(at as int)),
        decreases ids@.len() - at,
    {
        proof {
            assert(ids@.take(at + 1).drop_last() =~= ids@.take(at as int));
            assert(ids@.take(at + 1).last() == ids@[at as int]);
        }
        intake.forget_waiting_attachment(notices, ids[at]);
        say(notices, Notice::Forgotten(ids[at]));
        at = at + 1;
    }
    proof {
        assert(ids@.take(at as int) =~= ids@);
    }
}

fn note_sent(intake: &mut Intake, members: &Vec<Kept>)
    ensures
        final(intake)@ == (IntakeView {
            attached: sent_with(old(intake)@.attached, members@),
            ..old(intake)@
        }),
{
    let ghost first = intake@.attached;
    let mut at: usize = 0;
    proof {
        assert(members@.take(0) =~= Seq::empty());
    }
    while at < members.len()
        invariant
            at <= members@.len(),
            first == old(intake)@.attached,
            intake@ == (IntakeView {
                attached: sent_with(first, members@.take(at as int)),
                ..old(intake)@
            }),
            intake@.attached.api_of == first.api_of,
        decreases members@.len() - at,
    {
        proof {
            assert(members@.take(at + 1).drop_last() =~= members@.take(at as int));
            assert(members@.take(at + 1).last() == members@[at as int]);
        }
        if members[at].places_the_order() {
            let api: i64 = intake.attached.api_order_id(members[at].order_id);
            if !intake.attached.went(api) {
                intake.attached.sent_api_ids.push(api);
            }
        }
        at = at + 1;
    }
    proof {
        assert(members@.take(at as int) =~= members@);
    }
}

fn in_an_attached_family(intake: &Intake, members: &Vec<Kept>) -> (any: bool)
    ensures
        any == any_attached(members@, intake@.attached),
{
    let mut at: usize = 0;
    while at < members.len()
        invariant
            at <= members@.len(),
            forall|i: int|
                0 <= i < at ==> !intake@.attached.family_keys.dom().contains(
                    (#[trigger] members@[i]).order_id,
                ),
        decreases members@.len() - at,
    {
        if intake.attached.family_keys.contains_key(&members[at].order_id) {
            return true;
        }
        at = at + 1;
    }
    false
}

fn take_commands(members: Vec<Kept>) -> (commands: Vec<OrderRequest>)
    ensures
        commands@ == commands_of(members@),
{
    let ghost whole = members@;
    let mut left: Vec<Kept> = members;
    let mut commands: Vec<OrderRequest> = Vec::new();
    proof {
        assert(commands_of(whole.take(0)) =~= Seq::empty());
        assert(left@ =~= whole.skip(0));
    }
    let ghost mut done: int = 0;
    while left.len() > 0
        invariant
            0 <= done <= whole.len(),
            left@ == whole.skip(done),
            commands@ == commands_of(whole.take(done)),
        decreases left@.len(),
    {
        let one: Kept = left.remove(0);
        proof {
            assert(left@ =~= whole.skip(done + 1));
            assert(commands_of(whole.take(done + 1)) =~= commands_of(whole.take(done)).push(
                one.command,
            ));
            done = done + 1;
        }
        commands.push(one.command);
    }
    proof {
        assert(whole.take(done) =~= whole);
    }
    commands
}

/// Release the family of an order that transmits and is kept: its parent where
/// that is kept, what shares the parent or hangs from it, and the order itself
/// in the place it has among them. A placement under a caller's number that
/// another of the family places, or that went already, is forgotten instead.
pub fn transmit_order_family(
    intake: &mut Intake,
    notices: &mut Vec<Notice>,
    order_id: u64,
    parent_id: i64,
    replacing: bool,
) -> (out: Transmitted)
    requires
        kept_at(old(intake)@.kept, order_id) is Some,
    ensures
        ({
            let members = whole_family(old(intake)@.kept, order_id, parent_id, replacing);
            &&& members.len() > 0
            &&& out.root == members[0].order_id
            &&& out.attached == any_attached(members, old(intake)@.attached)
            &&& out.commands@ == commands_of(going(members, old(intake)@.attached, order_id))
            &&& said(final(notices)@) == forgetting_said(
                said(old(notices)@),
                dropped(members, old(intake)@.attached, order_id),
            )
        }),
        final(intake)@ == old(intake)@.after_transmitting(order_id, parent_id, replacing),
{
    let ghost before = intake@;
    proof {
        first_kept(before.kept, order_id);
    }
    let own_at: usize = position(&intake.kept, order_id).unwrap();
    let ids: Vec<u64> = ahead(&intake.kept, own_at);
    let own: Kept = release(&mut intake.kept, order_id).unwrap();
    let mut members: Vec<Kept> = if replacing {
        Vec::new()
    } else {
        family_of(&mut intake.kept, order_id, parent_id)
    };
    let at: usize = place_of_own(&members, &ids, Ghost(before.kept), Ghost(own_at as int));
    members.insert(at, own);
    proof {
        assert(members@ == whole_family(before.kept, order_id, parent_id, replacing));
        assert(intake@.kept == kept_after(before.kept, order_id, parent_id, replacing));
    }
    let root: u64 = members[0].order_id;
    let attached: bool = in_an_attached_family(intake, &members);
    let (goes, gone): (Vec<Kept>, Vec<u64>) = part(intake, members, order_id);
    forget_each(intake, notices, &gone);
    note_sent(intake, &goes);
    Transmitted { commands: take_commands(goes), root, attached }
}

/// What an order states, where an instruction states an order whole.
pub open spec fn stated_by(request: OrderRequest) -> Option<OrderAttrs> {
    match request {
        OrderRequest::SubmitEx { attrs, .. } => Some(attrs),
        OrderRequest::Modify { spec, .. } => match spec {
            Some(spec) => Some(spec.attrs),
            None => None,
        },
        _ => None,
    }
}

/// An instruction with what its order states replaced.
pub open spec fn restating(request: OrderRequest, stated: OrderAttrs) -> OrderRequest {
    match request {
        OrderRequest::SubmitEx { order_id, instrument, con_id, side, qty, kind, tif, attrs: _ } =>
            OrderRequest::SubmitEx {
            order_id,
            instrument,
            con_id,
            side,
            qty,
            kind,
            tif,
            attrs: stated,
        },
        OrderRequest::Modify {
            order_id,
            price,
            qty,
            outside_rth,
            ord_type,
            tif,
            stop_price,
            spec,
        } => match spec {
            Some(spec) => OrderRequest::Modify {
                order_id,
                price,
                qty,
                outside_rth,
                ord_type,
                tif,
                stop_price,
                spec: Some(Box::new(OrderSpec { kind: spec.kind, attrs: stated })),
            },
            None => request,
        },
        _ => request,
    }
}

/// Whether what a family states of an order is what it was, but for the ratio
/// factor. An order that belonged to none states nothing else.
pub open spec fn with_factor(
    before: Option<Arc<AttachedAttrs>>,
    after: Option<Arc<AttachedAttrs>>,
    factor: Seq<char>,
) -> bool {
    &&& after is Some
    &&& after->Some_0.ratio_factor is Some
    &&& after->Some_0.ratio_factor->Some_0@ == factor
    &&& match before {
        Some(before) => *after->Some_0 == (AttachedAttrs {
            ratio_factor: after->Some_0.ratio_factor,
            ..*before
        }),
        None => {
            let stated = *after->Some_0;
            &&& stated.api_identity is None
            &&& stated.contract_id is None
            &&& stated.family_key@.len() == 0
            &&& stated.parent@.len() == 0
            &&& !stated.use_parent_price
            &&& stated.profit_offset is None
            &&& stated.combo is None
        },
    }
}

/// What an order states, with what its family states replaced.
pub open spec fn in_family(attrs: OrderAttrs, attached: Option<Arc<AttachedAttrs>>) -> OrderAttrs {
    OrderAttrs { attached, ..attrs }
}

/// Whether an instruction is another with the ratio factor stated on it.
pub open spec fn states_the_factor(
    before: OrderRequest,
    after: OrderRequest,
    factor: Seq<char>,
) -> bool {
    match stated_by(before) {
        Some(was) => exists|attached: Option<Arc<AttachedAttrs>>|
            {
                &&& #[trigger] with_factor(was.attached, attached, factor)
                &&& after == restating(before, in_family(was, attached))
            },
        None => after == before,
    }
}

fn factored(attached: &Option<Arc<AttachedAttrs>>, factor: &str) -> (r: Option<Arc<AttachedAttrs>>)
    ensures
        with_factor(*attached, r, factor@),
{
    let mut stated: AttachedAttrs = match attached {
        Some(attached) => (**attached).clone(),
        None => AttachedAttrs::default(),
    };
    stated.ratio_factor = Some(factor.to_owned());
    Some(Arc::new(stated))
}

/// Replace what an order's family states.
#[verifier::spinoff_prover]
pub fn put_in_family(attrs: OrderAttrs, attached: Option<Arc<AttachedAttrs>>) -> (r: OrderAttrs)
    ensures
        r == in_family(attrs, attached),
{
    OrderAttrs { attached, ..attrs }
}

/// State the ratio factor of a combination on an instruction.
#[verifier::spinoff_prover]
fn state_factor(request: OrderRequest, factor: &str) -> (stated: OrderRequest)
    ensures
        states_the_factor(request, stated, factor@),
{
    match request {
        OrderRequest::SubmitEx { order_id, instrument, con_id, side, qty, kind, tif, attrs } => {
            let attached: Option<Arc<AttachedAttrs>> = factored(&attrs.attached, factor);
            proof {
                assert(with_factor(attrs.attached, attached, factor@));
            }
            let attrs: OrderAttrs = put_in_family(attrs, attached);
            OrderRequest::SubmitEx { order_id, instrument, con_id, side, qty, kind, tif, attrs }
        },
        OrderRequest::Modify {
            order_id,
            price,
            qty,
            outside_rth,
            ord_type,
            tif,
            stop_price,
            spec,
        } => match spec {
            Some(spec) => {
                let spec: OrderSpec = *spec;
                let attached: Option<Arc<AttachedAttrs>> = factored(&spec.attrs.attached, factor);
                proof {
                    assert(with_factor(spec.attrs.attached, attached, factor@));
                }
                let attrs: OrderAttrs = put_in_family(spec.attrs, attached);
                OrderRequest::Modify {
                    order_id,
                    price,
                    qty,
                    outside_rth,
                    ord_type,
                    tif,
                    stop_price,
                    spec: Some(Box::new(OrderSpec { kind: spec.kind, attrs })),
                }
            },
            None => OrderRequest::Modify {
                order_id,
                price,
                qty,
                outside_rth,
                ord_type,
                tif,
                stop_price,
                spec: None,
            },
        },
        other => other,
    }
}

/// State the ratio factor of a combination on the head of an attached family
/// and on the order that transmitted it.
pub fn state_ratio(
    commands: Vec<OrderRequest>,
    root: u64,
    order_id: u64,
    factor: &str,
) -> (stated: Vec<OrderRequest>)
    ensures
        stated@.len() == commands@.len(),
        forall|i: int|
            0 <= i < commands@.len() ==> if commands@[i].id() == root || commands@[i].id()
                == order_id {
                states_the_factor(commands@[i], #[trigger] stated@[i], factor@)
            } else {
                stated@[i] == commands@[i]
            },
{
    let ghost whole = commands@;
    let mut left: Vec<OrderRequest> = commands;
    let mut stated: Vec<OrderRequest> = Vec::new();
    proof {
        assert(left@ =~= whole.skip(0));
    }
    while left.len() > 0
        invariant
            stated@.len() <= whole.len(),
            left@ == whole.skip(stated@.len() as int),
            forall|i: int|
                0 <= i < stated@.len() ==> if whole[i].id() == root || whole[i].id() == order_id {
                    states_the_factor(whole[i], #[trigger] stated@[i], factor@)
                } else {
                    stated@[i] == whole[i]
                },
        decreases left@.len(),
    {
        let one: OrderRequest = left.remove(0);
        proof {
            assert(one == whole[stated@.len() as int]);
            assert(left@ =~= whole.skip(stated@.len() as int + 1));
        }
        let id: u64 = one.order_id();
        if id == root || id == order_id {
            stated.push(state_factor(one, factor));
        } else {
            stated.push(one);
        }
    }
    stated
}

/// A parent kept ahead of the order that transmits goes first.
pub proof fn the_parent_goes_first(kept: Seq<Kept>, order_id: u64, parent_id: i64)
    requires
        parent_id > 0,
        kept_at(kept, order_id) is Some,
        kept_at(kept, parent_id as u64) is Some,
        kept_at(kept, parent_id as u64)->Some_0 < kept_at(kept, order_id)->Some_0,
        order_id != parent_id as u64,
    ensures
        whole_family(kept, order_id, parent_id, false)[0] == kept[kept_at(
            kept,
            parent_id as u64,
        )->Some_0],
{
    first_kept(kept, order_id);
    first_kept(kept, parent_id as u64);
    let own_at = kept_at(kept, order_id)->Some_0;
    let parent_at = kept_at(kept, parent_id as u64)->Some_0;
    let rest = kept.remove(own_at);
    first_kept(rest, parent_id as u64);
    assert(rest[parent_at] == kept[parent_at]);
    match kept_at(rest, parent_id as u64) {
        Some(at) => {
            if at < parent_at {
                assert(rest[at] == kept[at]);
            }
        },
        None => {},
    }
    let members = family(rest, order_id, parent_id);
    assert(members[0] == kept[parent_at]);
    assert(kept_ahead(kept, own_at, members[0].order_id));
    own_place_is_after(kept, own_at, members);
}

proof fn own_place_is_after(kept: Seq<Kept>, own_at: int, members: Seq<Kept>)
    requires
        members.len() > 0,
        kept_ahead(kept, own_at, members[0].order_id),
    ensures
        1 <= own_place(kept, own_at, members) <= members.len(),
    decreases members.len(),
{
    if members.len() > 1 {
        assert(members.drop_last()[0] == members[0]);
        own_place_is_after(kept, own_at, members.drop_last());
    } else {
        reveal_with_fuel(own_place, 2);
        assert(members.drop_last() =~= Seq::empty());
    }
}

} // verus!
