//! Taking an order that is built: recording it, keeping it, and letting it go
//! with its family where it transmits.

use crate::engine::book::Book;
use crate::engine::commands::Placement;
use crate::engine::intake::bracket::taken_said;
use crate::engine::intake::framing::{
    frame_generated, framed_as, take_as, taken_as, terms_of, terms_stated, Framing,
};
use crate::engine::intake::kept::{
    first_kept, keep, kept_at, position, what_is_kept_is_released, with_kept, Kept,
};
use crate::engine::intake::placement::{replacement, replacing_with};
use crate::engine::intake::state::{AttachedView, Intake, IntakeView, PlacedHere};
use crate::engine::intake::transmit::{
    any_attached, commands_of, dropped, going, transmit_order_family, whole_family, Transmitted,
};
use crate::engine::intake::forget::forgetting_said;
use crate::engine::known::{said, say, Notice, Said, TakenOrder};
use crate::error_codes::Refusal;
use crate::types::contract::{Contract, OrderTerms};
use crate::types::orders::{InstrumentId, OrderOp, OrderRequest};
use std::sync::Arc;
use vstd::prelude::*;

verus! {

/// An order generated with a placement, and its instruction.
#[derive(Debug)]
pub struct Generated {
    pub wire_id: u64,
    pub order: OrderTerms,
    pub command: OrderRequest,
}

/// What a placement that attaches orders was prepared with.
#[derive(Debug)]
pub struct Prepared {
    /// The key of the family it begins.
    pub parent_family_key: String,
    pub children: Vec<Generated>,
}

/// The key of the family an instruction's order belongs to, where it belongs to
/// one.
pub open spec fn family_key_of(request: OrderRequest) -> Option<String> {
    match terms_stated(request) {
        Some(terms) => match terms {
            Some(terms) => if terms.family_key@.len() > 0 {
                Some(terms.family_key)
            } else {
                None
            },
            None => None,
        },
        None => None,
    }
}

fn family_key(request: &OrderRequest) -> (key: Option<String>)
    ensures
        key == family_key_of(*request),
{
    match terms_of(request) {
        Some(terms) => match terms {
            Some(terms) => if terms.family_key.as_str().unicode_len() > 0 {
                Some(terms.family_key.clone())
            } else {
                None
            },
            None => None,
        },
        None => None,
    }
}

/// The text of a key, where there is one.
pub open spec fn key_text(key: Option<String>) -> Option<Seq<char>> {
    match key {
        Some(key) => Some(key@),
        None => None,
    }
}

impl IntakeView {
    /// With an order's numbers and its family remembered. A preview does not
    /// count as placed.
    pub open spec fn remembering(
        self,
        wire: u64,
        api: i64,
        key: Option<String>,
        preview: bool,
    ) -> IntakeView {
        let placed = self.attached.placing(wire, api);
        let keyed = match key {
            Some(key) => AttachedView {
                family_keys: placed.family_keys.insert(wire, key),
                ..placed
            },
            None => placed,
        };
        IntakeView {
            attached: if preview {
                keyed
            } else {
                keyed.counting(api)
            },
            ..self
        }
    }
}

/// What is said of an order's numbers and its family.
pub open spec fn remembered_said(
    wire: u64,
    api: i64,
    client_id: i32,
    key: Option<String>,
) -> Said {
    Said::Attached {
        order_id: wire,
        family_key: key_text(key),
        api_order_id: api,
        api_client_id: client_id,
    }
}

/// Remember an order's numbers and the family it belongs to.
pub fn remember_attachment(
    intake: &mut Intake,
    notices: &mut Vec<Notice>,
    wire: u64,
    api: i64,
    client_id: i32,
    request: &OrderRequest,
    preview: bool,
)
    ensures
        final(intake)@ == old(intake)@.remembering(wire, api, family_key_of(*request), preview),
        said(final(notices)@) == said(old(notices)@).push(
            remembered_said(wire, api, client_id, family_key_of(*request)),
        ),
{
    intake.attached.place(wire, api);
    let key: Option<String> = family_key(request);
    match &key {
        Some(key) => {
            intake.attached.family_keys.insert(wire, key.clone());
        },
        None => {},
    }
    say(
        notices,
        Notice::Attached {
            order_id: wire,
            family_key: key,
            api_order_id: api,
            api_client_id: client_id,
        },
    );
    if !preview {
        intake.attached.count(api);
    }
}

/// What is recorded of an order for the checks: what a replacement leaves as it
/// was are the links and the group the order was placed with.
pub open spec fn recorded_terms(order: OrderTerms, before: Option<PlacedHere>) -> OrderTerms {
    match before {
        Some(before) => OrderTerms {
            parent_id: before.order.parent_id,
            oca_group: before.order.oca_group,
            oca_type: before.order.oca_type,
            ..order
        },
        None => order,
    }
}

impl IntakeView {
    /// What is placed under a number, where anything is.
    pub open spec fn placed_under(self, order_id: u64) -> Option<PlacedHere> {
        if self.placed.dom().contains(order_id) {
            Some(self.placed[order_id])
        } else {
            None
        }
    }

    /// With an order recorded for the checks. A preview is not.
    pub open spec fn recording(
        self,
        order_id: u64,
        order: OrderTerms,
        contract: Contract,
        instrument: InstrumentId,
    ) -> IntakeView {
        if order.what_if {
            self
        } else {
            IntakeView {
                placed: self.placed.insert(
                    order_id,
                    PlacedHere {
                        order: Arc::new(recorded_terms(order, self.placed_under(order_id))),
                        instrument,
                        contract: Arc::new(contract),
                    },
                ),
                ..self
            }
        }
    }

    /// With an instruction kept.
    pub open spec fn keeping(
        self,
        order_id: u64,
        parent_id: i64,
        command: OrderRequest,
    ) -> IntakeView {
        IntakeView { kept: with_kept(self.kept, Kept { order_id, parent_id, command }), ..self }
    }

    /// With an order that was generated with a placement taken. One whose
    /// caller's number went already is not.
    pub open spec fn with_generated(
        self,
        child: Generated,
        framed: OrderRequest,
        parent: u64,
        contract: Arc<Contract>,
        instrument: InstrumentId,
        preview: bool,
    ) -> IntakeView {
        if self.attached.sent_api_ids.contains(child.order.order_id) {
            self
        } else {
            let remembered = (IntakeView {
                generated: self.generated.insert(child.wire_id, parent),
                ..self
            }).remembering(child.wire_id, child.order.order_id, family_key_of(framed), preview);
            (IntakeView {
                placed: remembered.placed.insert(
                    child.wire_id,
                    PlacedHere { order: Arc::new(child.order), instrument, contract },
                ),
                ..remembered
            }).keeping(child.wire_id, parent as i64, framed)
        }
    }

    /// With each of a list of orders generated with a placement taken.
    pub open spec fn with_all_generated(
        self,
        children: Seq<Generated>,
        framed: Seq<OrderRequest>,
        parent: u64,
        contract: Arc<Contract>,
        instrument: InstrumentId,
        preview: bool,
    ) -> IntakeView
        decreases children.len(),
    {
        if children.len() == 0 {
            self
        } else {
            self.with_all_generated(
                children.drop_last(),
                framed,
                parent,
                contract,
                instrument,
                preview,
            ).with_generated(
                children.last(),
                framed[children.len() - 1],
                parent,
                contract,
                instrument,
                preview,
            )
        }
    }
}

/// What is said of each of a list of orders generated with a placement.
pub open spec fn generated_said(
    before: Seq<Said>,
    sent: Seq<i64>,
    children: Seq<Generated>,
    framed: Seq<OrderRequest>,
    contract: Arc<Contract>,
    instrument: InstrumentId,
    client_id: i32,
) -> Seq<Said>
    decreases children.len(),
{
    if children.len() == 0 {
        before
    } else {
        let earlier = generated_said(
            before,
            sent,
            children.drop_last(),
            framed,
            contract,
            instrument,
            client_id,
        );
        let child = children.last();
        if sent.contains(child.order.order_id) {
            earlier
        } else {
            earlier.push(
                remembered_said(
                    child.wire_id,
                    child.order.order_id,
                    client_id,
                    family_key_of(framed[children.len() - 1]),
                ),
            ).push(
                taken_said(
                    child.wire_id,
                    PlacedHere { order: Arc::new(child.order), instrument, contract },
                    false,
                ),
            )
        }
    }
}

/// Whether each of a list of instructions is framed as another.
pub open spec fn all_framed(
    children: Seq<Generated>,
    framed: Seq<OrderRequest>,
    framing: Framing,
) -> bool {
    &&& framed.len() == children.len()
    &&& forall|i: int|
        0 <= i < children.len() ==> framed_as(children[i].command, #[trigger] framed[i], framing)
}

proof fn later_framing_does_not_count(
    view: IntakeView,
    children: Seq<Generated>,
    framed: Seq<OrderRequest>,
    more: OrderRequest,
    parent: u64,
    contract: Arc<Contract>,
    instrument: InstrumentId,
    preview: bool,
)
    requires
        children.len() <= framed.len(),
    ensures
        view.with_all_generated(
            children,
            framed.push(more),
            parent,
            contract,
            instrument,
            preview,
        ) == view.with_all_generated(children, framed, parent, contract, instrument, preview),
    decreases children.len(),
{
    if children.len() > 0 {
        later_framing_does_not_count(
            view,
            children.drop_last(),
            framed,
            more,
            parent,
            contract,
            instrument,
            preview,
        );
    }
}

proof fn later_framing_is_not_said(
    before: Seq<Said>,
    sent: Seq<i64>,
    children: Seq<Generated>,
    framed: Seq<OrderRequest>,
    more: OrderRequest,
    contract: Arc<Contract>,
    instrument: InstrumentId,
    client_id: i32,
)
    requires
        children.len() <= framed.len(),
    ensures
        generated_said(
            before,
            sent,
            children,
            framed.push(more),
            contract,
            instrument,
            client_id,
        ) == generated_said(before, sent, children, framed, contract, instrument, client_id),
    decreases children.len(),
{
    if children.len() > 0 {
        later_framing_is_not_said(
            before,
            sent,
            children.drop_last(),
            framed,
            more,
            contract,
            instrument,
            client_id,
        );
    }
}

proof fn generating_sends_nothing(
    view: IntakeView,
    children: Seq<Generated>,
    framed: Seq<OrderRequest>,
    parent: u64,
    contract: Arc<Contract>,
    instrument: InstrumentId,
    preview: bool,
)
    ensures
        view.with_all_generated(
            children,
            framed,
            parent,
            contract,
            instrument,
            preview,
        ).attached.sent_api_ids == view.attached.sent_api_ids,
    decreases children.len(),
{
    if children.len() > 0 {
        generating_sends_nothing(
            view,
            children.drop_last(),
            framed,
            parent,
            contract,
            instrument,
            preview,
        );
    }
}

fn take_generated(
    intake: &mut Intake,
    notices: &mut Vec<Notice>,
    child: Generated,
    framing: &Framing,
    parent: u64,
    contract: &Arc<Contract>,
    instrument: InstrumentId,
    client_id: i32,
    preview: bool,
) -> (framed: Ghost<OrderRequest>)
    ensures
        framed_as(child.command, framed@, *framing),
        final(intake)@ == old(intake)@.with_generated(
            child,
            framed@,
            parent,
            *contract,
            instrument,
            preview,
        ),
        said(final(notices)@) == (if old(intake)@.attached.sent_api_ids.contains(
            child.order.order_id,
        ) {
            said(old(notices)@)
        } else {
            said(old(notices)@).push(
                remembered_said(
                    child.wire_id,
                    child.order.order_id,
                    client_id,
                    family_key_of(framed@),
                ),
            ).push(
                taken_said(
                    child.wire_id,
                    PlacedHere { order: Arc::new(child.order), instrument, contract: *contract },
                    false,
                ),
            )
        }),
{
    let went: bool = intake.attached.went(child.order.order_id);
    let Generated { wire_id, order, command } = child;
    let request: OrderRequest = frame_generated(command, framing);
    let ghost framed = request;
    if went {
        return Ghost(framed);
    }
    intake.generated.insert(wire_id, parent);
    remember_attachment(
        intake,
        notices,
        wire_id,
        order.order_id,
        client_id,
        &request,
        preview,
    );
    let shared: Arc<OrderTerms> = Arc::new(order);
    say(
        notices,
        Notice::Taken(
            TakenOrder {
                order_id: wire_id,
                contract: contract.clone(),
                order: shared.clone(),
                instrument,
                restated: false,
            },
        ),
    );
    intake.placed.insert(
        wire_id,
        PlacedHere { order: shared, instrument, contract: contract.clone() },
    );
    keep(&mut intake.kept, wire_id, parent as i64, request);
    Ghost(framed)
}

fn take_all_generated(
    intake: &mut Intake,
    notices: &mut Vec<Notice>,
    children: Vec<Generated>,
    framing: &Framing,
    parent: u64,
    contract: &Arc<Contract>,
    instrument: InstrumentId,
    client_id: i32,
    preview: bool,
) -> (framed: Ghost<Seq<OrderRequest>>)
    ensures
        all_framed(children@, framed@, *framing),
        final(intake)@ == old(intake)@.with_all_generated(
            children@,
            framed@,
            parent,
            *contract,
            instrument,
            preview,
        ),
        said(final(notices)@) == generated_said(
            said(old(notices)@),
            old(intake)@.attached.sent_api_ids,
            children@,
            framed@,
            *contract,
            instrument,
            client_id,
        ),
{
    let ghost whole = children@;
    let mut left: Vec<Generated> = children;
    let ghost mut framed: Seq<OrderRequest> = Seq::empty();
    proof {
        assert(left@ =~= whole.skip(0));
        assert(whole.take(0) =~= Seq::empty());
    }
    while left.len() > 0
        invariant
            framed.len() <= whole.len(),
            left@ == whole.skip(framed.len() as int),
            all_framed(whole.take(framed.len() as int), framed, *framing),
            intake@ == old(intake)@.with_all_generated(
                whole.take(framed.len() as int),
                framed,
                parent,
                *contract,
                instrument,
                preview,
            ),
            said(notices@) == generated_said(
                said(old(notices)@),
                old(intake)@.attached.sent_api_ids,
                whole.take(framed.len() as int),
                framed,
                *contract,
                instrument,
                client_id,
            ),
        decreases left@.len(),
    {
        let child: Generated = left.remove(0);
        let ghost seen = whole.take(framed.len() as int);
        let ghost next = whole.take(framed.len() as int + 1);
        proof {
            assert(child == whole[framed.len() as int]);
            assert(left@ =~= whole.skip(framed.len() as int + 1));
            assert(next.drop_last() =~= seen);
            assert(next.last() == child);
            generating_sends_nothing(
                old(intake)@,
                seen,
                framed,
                parent,
                *contract,
                instrument,
                preview,
            );
        }
        let request: Ghost<OrderRequest> = take_generated(
            intake,
            notices,
            child,
            framing,
            parent,
            contract,
            instrument,
            client_id,
            preview,
        );
        proof {
            later_framing_does_not_count(
                old(intake)@,
                seen,
                framed,
                request@,
                parent,
                *contract,
                instrument,
                preview,
            );
            later_framing_is_not_said(
                said(old(notices)@),
                old(intake)@.attached.sent_api_ids,
                seen,
                framed,
                request@,
                *contract,
                instrument,
                client_id,
            );
            let more = framed.push(request@);
            assert(all_framed(next, more, *framing)) by {
                assert forall|i: int| 0 <= i < next.len() implies framed_as(
                    next[i].command,
                    #[trigger] more[i],
                    *framing,
                ) by {
                    if i < framed.len() {
                        assert(more[i] == framed[i]);
                        assert(next[i] == seen[i]);
                    }
                }
            }
            assert(more[next.len() - 1] == request@);
            framed = more;
        }
    }
    proof {
        assert(whole.take(framed.len() as int) =~= whole);
    }
    Ghost(framed)
}

/// What became of an order that was taken.
#[derive(Debug)]
pub enum Taken {
    /// It waits for what is attached to it, and is amended where it waits.
    Amended(OrderRequest),
    /// It waits for what is attached to it, and nothing of it changes.
    Unamended,
    /// It is kept until an order that transmits releases it.
    Kept,
    /// It went, with its family.
    Went(Transmitted),
}

/// What is said about an order that is placed anyway.
pub open spec fn warnings_said(
    before: Seq<Said>,
    order_id: u64,
    op: OrderOp,
    warnings: Seq<Refusal>,
) -> Seq<Said>
    decreases warnings.len(),
{
    if warnings.len() == 0 {
        before
    } else {
        let warning = warnings.last();
        warnings_said(before, order_id, op, warnings.drop_last()).push(
            Said::OrderNotice { order_id, op, code: warning.code, text: warning.message@ },
        )
    }
}

fn say_warnings(notices: &mut Vec<Notice>, order_id: u64, op: OrderOp, warnings: &Vec<Refusal>)
    ensures
        said(final(notices)@) == warnings_said(
            said(old(notices)@),
            order_id,
            op,
            warnings@,
        ),
{
    let mut at: usize = 0;
    proof {
        assert(warnings@.take(0) =~= Seq::empty());
    }
    while at < warnings.len()
        invariant
            at <= warnings@.len(),
            said(notices@) == warnings_said(
                said(old(notices)@),
                order_id,
                op,
                warnings@.take(at as int),
            ),
        decreases warnings@.len() - at,
    {
        proof {
            assert(warnings@.take(at + 1).drop_last() =~= warnings@.take(at as int));
            assert(warnings@.take(at + 1).last() == warnings@[at as int]);
        }
        say(
            notices,
            Notice::OrderNotice {
                order_id,
                op,
                code: warnings[at].code,
                text: warnings[at].message.clone(),
            },
        );
        at = at + 1;
    }
    proof {
        assert(warnings@.take(at as int) =~= warnings@);
    }
}

/// The instruction kept under a number, where any is.
pub open spec fn command_kept(kept: Seq<Kept>, order_id: u64) -> Option<OrderRequest> {
    match kept_at(kept, order_id) {
        Some(at) => Some(kept[at].command),
        None => None,
    }
}

/// What an order's family resolved to, where it belongs to one: it was prepared
/// with the orders it attaches, or it is a member already.
pub open spec fn framing_for(
    view: IntakeView,
    order_id: u64,
    prepared: bool,
    framing: Framing,
) -> Option<Framing> {
    if prepared || view.attached.family_keys.dom().contains(order_id) {
        Some(framing)
    } else {
        None
    }
}

/// The key of the family a placement begins, where it attaches orders.
pub open spec fn begun_key(prepared: Option<Prepared>) -> Option<String> {
    match prepared {
        Some(prepared) => Some(prepared.parent_family_key),
        None => None,
    }
}

/// The orders generated with a placement.
pub open spec fn generated_with(prepared: Option<Prepared>) -> Seq<Generated> {
    match prepared {
        Some(prepared) => prepared.children@,
        None => Seq::empty(),
    }
}

/// What intake holds once an order is recorded, before it is kept.
pub open spec fn recorded(
    before: IntakeView,
    p: Placement,
    order_id: u64,
    instrument: InstrumentId,
    command: OrderRequest,
) -> IntakeView {
    before.remembering(
        order_id,
        p.order_id as i64,
        family_key_of(command),
        p.order.what_if,
    ).recording(order_id, p.order, p.contract, instrument)
}

/// The order another hangs from, by the number it goes out under.
pub open spec fn hangs_from(view: IntakeView, order: OrderTerms) -> i64 {
    view.attached.wire_number(order.parent_id) as i64
}

/// What intake holds once an order is kept, with what was generated with it.
pub open spec fn kept_whole(
    before: IntakeView,
    p: Placement,
    order_id: u64,
    instrument: InstrumentId,
    command: OrderRequest,
    children: Seq<Generated>,
    framed: Seq<OrderRequest>,
) -> IntakeView {
    let recorded = recorded(before, p, order_id, instrument, command);
    let kept = (IntakeView {
        generated: recorded.generated.remove(order_id),
        ..recorded
    }).keeping(order_id, hangs_from(recorded, p.order), command).with_all_generated(
        children,
        framed,
        order_id,
        Arc::new(p.contract),
        instrument,
        p.order.what_if,
    );
    if p.order.what_if {
        kept
    } else {
        IntakeView { attached: kept.attached.counting(p.order_id as i64), ..kept }
    }
}

/// What is said of an order taken, ahead of anything the venue says about it.
pub open spec fn recorded_said(
    before: Seq<Said>,
    p: Placement,
    order_id: u64,
    instrument: InstrumentId,
    command: OrderRequest,
    replacing: bool,
) -> Seq<Said> {
    before.push(
        remembered_said(
            order_id,
            p.order_id as i64,
            p.order.client_id,
            family_key_of(command),
        ),
    ).push(
        taken_said(
            order_id,
            PlacedHere {
                order: Arc::new(p.order),
                instrument,
                contract: Arc::new(p.contract),
            },
            replacing,
        ),
    )
}

/// Whether an order is taken so: recorded, amended where it waits for what is
/// attached to it, or kept with what was generated with it and let go with its
/// family where it transmits.
pub open spec fn placement_taken(
    before: IntakeView,
    after: IntakeView,
    said_before: Seq<Said>,
    said_after: Seq<Said>,
    book: Book,
    p: Placement,
    order_id: u64,
    instrument: InstrumentId,
    op: OrderOp,
    built: OrderRequest,
    prepared: Option<Prepared>,
    framing: Framing,
    out: Taken,
    command: OrderRequest,
    framed: Seq<OrderRequest>,
) -> bool {
    let replacing = before.replaces(book, order_id);
    let children = generated_with(prepared);
    let recorded = recorded(before, p, order_id, instrument, command);
    let told = recorded_said(said_before, p, order_id, instrument, command, replacing);
    &&& taken_as(
        built,
        command,
        command_kept(before.kept, order_id),
        framing_for(before, order_id, prepared is Some, framing),
        begun_key(prepared),
        before.attached.wire_number(p.order.parent_id),
        (p.order_id as i64, p.order.client_id),
    )
    &&& if book.waiting_attached@.contains(order_id) {
        &&& after == recorded
        &&& said_after == told
        &&& match command {
            OrderRequest::SubmitEx { .. } => out == Taken::Amended(
                replacement(p.order, order_id, command),
            ),
            _ => out is Unamended,
        }
    } else {
        let parent_id = hangs_from(recorded, p.order);
        let whole = kept_whole(before, p, order_id, instrument, command, children, framed);
        let all_told = generated_said(
            told,
            before.attached.sent_api_ids,
            children,
            framed,
            Arc::new(p.contract),
            instrument,
            p.order.client_id,
        );
        &&& all_framed(children, framed, framing)
        &&& if p.order.transmit {
            let members = whole_family(whole.kept, order_id, parent_id, replacing);
            &&& after == whole.after_transmitting(order_id, parent_id, replacing)
            &&& said_after == warnings_said(
                forgetting_said(all_told, dropped(members, whole.attached, order_id)),
                order_id,
                op,
                p.warnings@,
            )
            &&& match out {
                Taken::Went(went) => {
                    &&& members.len() > 0
                    &&& went.root == members[0].order_id
                    &&& went.attached == any_attached(members, whole.attached)
                    &&& went.commands@ == commands_of(going(members, whole.attached, order_id))
                },
                _ => false,
            }
        } else {
            &&& after == whole
            &&& said_after == warnings_said(all_told, order_id, op, p.warnings@)
            &&& out is Kept
        }
    }
}

/// Keeping another order keeps what is kept.
proof fn still_kept_under(kept: Seq<Kept>, one: Kept, order_id: u64)
    requires
        kept_at(kept, order_id) is Some,
    ensures
        kept_at(with_kept(kept, one), order_id) is Some,
{
    first_kept(kept, order_id);
    first_kept(kept, one.order_id);
    let after = with_kept(kept, one);
    first_kept(after, order_id);
    let at = kept_at(kept, order_id)->Some_0;
    if kept_at(after, order_id) is None {
        assert(after[at].order_id == order_id);
    }
}

proof fn still_kept_with_generated(
    view: IntakeView,
    children: Seq<Generated>,
    framed: Seq<OrderRequest>,
    parent: u64,
    contract: Arc<Contract>,
    instrument: InstrumentId,
    preview: bool,
)
    requires
        kept_at(view.kept, parent) is Some,
    ensures
        kept_at(
            view.with_all_generated(
                children,
                framed,
                parent,
                contract,
                instrument,
                preview,
            ).kept,
            parent,
        ) is Some,
    decreases children.len(),
{
    if children.len() > 0 {
        still_kept_with_generated(
            view,
            children.drop_last(),
            framed,
            parent,
            contract,
            instrument,
            preview,
        );
        let earlier = view.with_all_generated(
            children.drop_last(),
            framed,
            parent,
            contract,
            instrument,
            preview,
        );
        still_kept_under(
            earlier.kept,
            Kept {
                order_id: children.last().wire_id,
                parent_id: parent as i64,
                command: framed[children.len() - 1],
            },
            parent,
        );
    }
}

fn record_order(
    intake: &mut Intake,
    notices: &mut Vec<Notice>,
    p: &Placement,
    contract: &Arc<Contract>,
    order_id: u64,
    instrument: InstrumentId,
    command: &OrderRequest,
    replacing: bool,
)
    requires
        **contract == p.contract,
    ensures
        final(intake)@ == recorded(old(intake)@, *p, order_id, instrument, *command),
        said(final(notices)@) == recorded_said(
            said(old(notices)@),
            *p,
            order_id,
            instrument,
            *command,
            replacing,
        ),
{
    remember_attachment(
        intake,
        notices,
        order_id,
        p.order_id as i64,
        p.order.client_id,
        command,
        p.order.what_if,
    );
    let ghost remembered = intake@;
    say(
        notices,
        Notice::Taken(
            TakenOrder {
                order_id,
                contract: contract.clone(),
                order: Arc::new(p.order.clone()),
                instrument,
                restated: replacing,
            },
        ),
    );
    if !p.order.what_if {
        let mut order: OrderTerms = p.order.clone();
        match intake.placed.get(&order_id) {
            Some(before) => {
                order.parent_id = before.order.parent_id;
                order.oca_group = before.order.oca_group.clone();
                order.oca_type = before.order.oca_type;
            },
            None => {},
        }
        intake.placed.insert(
            order_id,
            PlacedHere { order: Arc::new(order), instrument, contract: contract.clone() },
        );
    }
}

fn keep_order(
    intake: &mut Intake,
    notices: &mut Vec<Notice>,
    p: &Placement,
    contract: &Arc<Contract>,
    order_id: u64,
    instrument: InstrumentId,
    command: OrderRequest,
    children: Vec<Generated>,
    framing: &Framing,
) -> (framed: Ghost<Seq<OrderRequest>>)
    requires
        **contract == p.contract,
    ensures
        all_framed(children@, framed@, *framing),
        ({
            let start = old(intake)@;
            let kept = (IntakeView {
                generated: start.generated.remove(order_id),
                ..start
            }).keeping(order_id, hangs_from(start, p.order), command).with_all_generated(
                children@,
                framed@,
                order_id,
                *contract,
                instrument,
                p.order.what_if,
            );
            &&& final(intake)@ == (if p.order.what_if {
                kept
            } else {
                IntakeView { attached: kept.attached.counting(p.order_id as i64), ..kept }
            })
            &&& kept_at(final(intake)@.kept, order_id) is Some
            &&& said(final(notices)@) == generated_said(
                said(old(notices)@),
                start.attached.sent_api_ids,
                children@,
                framed@,
                *contract,
                instrument,
                p.order.client_id,
            )
        }),
{
    let ghost start = intake@;
    let _ = intake.generated.remove(&order_id);
    let parent_id: i64 = intake.attached.wire_order_id(p.order.parent_id) as i64;
    proof {
        what_is_kept_is_released(start.kept, Kept { order_id, parent_id, command });
    }
    keep(&mut intake.kept, order_id, parent_id, command);
    let ghost alone = intake@;
    let framed: Ghost<Seq<OrderRequest>> = take_all_generated(
        intake,
        notices,
        children,
        framing,
        order_id,
        contract,
        instrument,
        p.order.client_id,
        p.order.what_if,
    );
    proof {
        still_kept_with_generated(
            alone,
            children@,
            framed@,
            order_id,
            *contract,
            instrument,
            p.order.what_if,
        );
    }
    if !p.order.what_if {
        intake.attached.count(p.order_id as i64);
    }
    framed
}

/// Take an order that is built. Every member of a family is kept before the
/// family is released, so a parent restated after its children still has the
/// first place.
pub fn take_placement(
    intake: &mut Intake,
    notices: &mut Vec<Notice>,
    book: &Book,
    p: &Placement,
    order_id: u64,
    instrument: InstrumentId,
    op: OrderOp,
    built: OrderRequest,
    prepared: Option<Prepared>,
    framing: &Framing,
) -> (out: Taken)
    ensures
        exists|command: OrderRequest, framed: Seq<OrderRequest>| #[trigger]
            placement_taken(
                old(intake)@,
                final(intake)@,
                said(old(notices)@),
                said(final(notices)@),
                *book,
                *p,
                order_id,
                instrument,
                op,
                built,
                prepared,
                *framing,
                out,
                command,
                framed,
            ),
{
    let ghost before = intake@;
    let ghost said_before = said(notices@);
    let ghost given = prepared;
    let replacing: bool = intake.working(book, order_id) && !book.is_waiting_attached(order_id);
    let in_family: bool = prepared.is_some() || intake.attached.family_keys.contains_key(
        &order_id,
    );
    let parent: u64 = intake.attached.wire_order_id(p.order.parent_id);
    let (key, children): (Option<String>, Vec<Generated>) = match prepared {
        Some(prepared) => (Some(prepared.parent_family_key), prepared.children),
        None => (None, Vec::new()),
    };
    let held: Option<&OrderRequest> = match position(&intake.kept, order_id) {
        Some(at) => Some(&intake.kept[at].command),
        None => None,
    };
    let command: OrderRequest = take_as(
        built,
        held,
        if in_family {
            Some(framing)
        } else {
            None
        },
        key.as_ref(),
        parent,
        (p.order_id as i64, p.order.client_id),
    );
    let contract: Arc<Contract> = Arc::new(p.contract.clone());
    record_order(intake, notices, p, &contract, order_id, instrument, &command, replacing);
    let ghost taken = command;
    proof {
        assert(children@ =~= generated_with(given));
    }
    if book.is_waiting_attached(order_id) {
        let amends: bool = matches!(command, OrderRequest::SubmitEx { .. });
        let out: Taken = if amends {
            Taken::Amended(replacing_with(&p.order, order_id, command))
        } else {
            Taken::Unamended
        };
        proof {
            assert(placement_taken(
                before,
                intake@,
                said_before,
                said(notices@),
                *book,
                *p,
                order_id,
                instrument,
                op,
                built,
                given,
                *framing,
                out,
                taken,
                Seq::empty(),
            ));
        }
        return out;
    }
    let parent_id: i64 = intake.attached.wire_order_id(p.order.parent_id) as i64;
    let framed: Ghost<Seq<OrderRequest>> = keep_order(
        intake,
        notices,
        p,
        &contract,
        order_id,
        instrument,
        command,
        children,
        framing,
    );
    let out: Taken = if p.order.transmit {
        Taken::Went(transmit_order_family(intake, notices, order_id, parent_id, replacing))
    } else {
        Taken::Kept
    };
    say_warnings(notices, order_id, op, &p.warnings);
    proof {
        assert(placement_taken(
            before,
            intake@,
            said_before,
            said(notices@),
            *book,
            *p,
            order_id,
            instrument,
            op,
            built,
            given,
            *framing,
            out,
            taken,
            framed@,
        ));
    }
    out
}

} // verus!
