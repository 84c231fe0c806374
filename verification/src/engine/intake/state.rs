//! What intake holds about the orders its callers place.

use crate::engine::book::{holds, Book};
use crate::engine::commands::{about_orders, Pending};
use crate::engine::intake::kept::{keeps_a_placement, placement_kept, Kept};
use crate::engine::known::{said, say, Notice, Said};
use crate::error_codes::Refusal;
use crate::listing::Listing;
use crate::table::Table;
use crate::types::contract::{Contract, OrderTerms};
use crate::types::orders::{InstrumentId, OrderRequest};
use std::sync::Arc;
use vstd::prelude::*;

verus! {

/// What this session placed or restated, as the checks read it.
#[derive(Debug, PartialEq)]
pub struct PlacedHere {
    pub order: Arc<OrderTerms>,
    pub instrument: InstrumentId,
    pub contract: Arc<Contract>,
}

/// The numbers and the families of the orders placed here.
#[derive(Debug)]
pub struct Attached {
    /// The number each of the caller's own goes out under.
    pub wire_of: Table<i64, u64>,
    /// The caller's own number for each that goes out.
    pub api_of: Table<u64, i64>,
    /// The family each order belongs to.
    pub family_keys: Table<u64, String>,
    /// The caller's own numbers of the orders that went.
    pub sent_api_ids: Vec<i64>,
    /// The highest of the caller's own numbers placed here.
    pub highest: i64,
}

/// The numbers and the families of the orders placed here.
#[verifier::ext_equal]
pub struct AttachedView {
    pub wire_of: Map<i64, u64>,
    pub api_of: Map<u64, i64>,
    pub family_keys: Map<u64, String>,
    pub sent_api_ids: Seq<i64>,
    pub highest: i64,
}

impl View for Attached {
    type V = AttachedView;

    open spec fn view(&self) -> AttachedView {
        AttachedView {
            wire_of: self.wire_of@,
            api_of: self.api_of@,
            family_keys: self.family_keys@,
            sent_api_ids: self.sent_api_ids@,
            highest: self.highest,
        }
    }
}

impl AttachedView {
    /// The caller's own number for an order, which is the number it goes out
    /// under where it has no other.
    pub open spec fn api_number(self, wire: u64) -> i64 {
        if self.api_of.dom().contains(wire) {
            self.api_of[wire]
        } else {
            wire as i64
        }
    }

    /// The number one of the caller's own goes out under, which is that number
    /// itself where it has no other.
    pub open spec fn wire_number(self, api: i64) -> u64 {
        if self.wire_of.dom().contains(api) {
            self.wire_of[api]
        } else {
            api as u64
        }
    }

    /// With an order placed under a number of its caller's own.
    pub open spec fn placing(self, wire: u64, api: i64) -> AttachedView {
        AttachedView {
            wire_of: self.wire_of.insert(api, wire),
            api_of: self.api_of.insert(wire, api),
            ..self
        }
    }

    /// Without an order that was never sent: its caller's number for it and
    /// its family are free again.
    pub open spec fn discarding(self, wire: u64) -> AttachedView {
        let api = self.api_number(wire);
        AttachedView {
            wire_of: if self.wire_of.dom().contains(api) && self.wire_of[api] == wire {
                self.wire_of.remove(api)
            } else {
                self.wire_of
            },
            api_of: self.api_of.remove(wire),
            family_keys: self.family_keys.remove(wire),
            ..self
        }
    }

    /// With a number of the caller's own counted as the highest where it is.
    pub open spec fn counting(self, api: i64) -> AttachedView {
        AttachedView {
            highest: if api > self.highest {
                api
            } else {
                self.highest
            },
            ..self
        }
    }
}

impl Attached {
    /// Nothing placed yet.
    pub fn new() -> (attached: Self)
        ensures
            attached@ == (AttachedView {
                wire_of: Map::empty(),
                api_of: Map::empty(),
                family_keys: Map::empty(),
                sent_api_ids: Seq::empty(),
                highest: 0,
            }),
    {
        Attached {
            wire_of: Table::new(),
            api_of: Table::new(),
            family_keys: Table::new(),
            sent_api_ids: Vec::new(),
            highest: 0,
        }
    }

    /// The caller's own number for an order.
    pub fn api_order_id(&self, wire: u64) -> (api: i64)
        ensures
            api == self@.api_number(wire),
    {
        match self.api_of.get(&wire) {
            Some(api) => *api,
            None => wire as i64,
        }
    }

    /// The number one of the caller's own goes out under.
    pub fn wire_order_id(&self, api: i64) -> (wire: u64)
        ensures
            wire == self@.wire_number(api),
    {
        match self.wire_of.get(&api) {
            Some(wire) => *wire,
            None => api as u64,
        }
    }

    /// Note an order placed under a number of its caller's own.
    pub fn place(&mut self, wire: u64, api: i64)
        ensures
            final(self)@ == old(self)@.placing(wire, api),
    {
        self.wire_of.insert(api, wire);
        self.api_of.insert(wire, api);
    }

    /// Forget an order that was never sent.
    pub fn discard_local_order(&mut self, wire: u64)
        ensures
            final(self)@ == old(self)@.discarding(wire),
    {
        let api: i64 = self.api_order_id(wire);
        let names_it: bool = match self.wire_of.get(&api) {
            Some(named) => *named == wire,
            None => false,
        };
        if names_it {
            let _ = self.wire_of.remove(&api);
        }
        let _ = self.api_of.remove(&wire);
        let _ = self.family_keys.remove(&wire);
    }

    /// Count a number of the caller's own.
    pub fn count(&mut self, api: i64)
        ensures
            final(self)@ == old(self)@.counting(api),
    {
        if api > self.highest {
            self.highest = api;
        }
    }

    /// Whether an order with this number of its caller's own went.
    pub fn went(&self, api: i64) -> (went: bool)
        ensures
            went == self@.sent_api_ids.contains(api),
    {
        let mut at: usize = 0;
        while at < self.sent_api_ids.len()
            invariant
                at <= self.sent_api_ids@.len(),
                forall|i: int| 0 <= i < at ==> self.sent_api_ids@[i] != api,
            decreases self.sent_api_ids@.len() - at,
        {
            if self.sent_api_ids[at] == api {
                return true;
            }
            at = at + 1;
        }
        false
    }
}

/// The engine's side of the orders its callers place.
#[derive(Debug)]
pub struct Intake {
    pub attached: Attached,
    /// The placement each generated order was admitted with.
    pub generated: Table<u64, u64>,
    /// Commands not yet taken, in the order they were admitted.
    pub waiting: Vec<Pending>,
    /// The numbers the waiting commands act on.
    pub waiting_ids: Vec<u64>,
    /// Lookups shared by orders for the same contract.
    pub naming: Listing<String, u32>,
    /// Failed lookups still read by commands that shared them.
    pub unnamed: Table<u32, Refusal>,
    /// Orders built and kept until one that transmits releases them.
    pub kept: Vec<Kept>,
    /// What this session placed or restated, by number.
    pub placed: Table<u64, PlacedHere>,
    /// What the venue named each description as, for the next order on it.
    pub named: Listing<String, Contract>,
}

/// What intake holds.
#[verifier::ext_equal]
pub struct IntakeView {
    pub attached: AttachedView,
    pub generated: Map<u64, u64>,
    pub waiting: Seq<Pending>,
    pub waiting_ids: Seq<u64>,
    pub naming: Map<Seq<char>, u32>,
    pub unnamed: Map<u32, Refusal>,
    pub kept: Seq<Kept>,
    pub placed: Map<u64, PlacedHere>,
    pub named: Map<Seq<char>, Contract>,
}

impl View for Intake {
    type V = IntakeView;

    open spec fn view(&self) -> IntakeView {
        IntakeView {
            attached: self.attached@,
            generated: self.generated@,
            waiting: self.waiting@,
            waiting_ids: self.waiting_ids@,
            naming: self.naming@,
            unnamed: self.unnamed@,
            kept: self.kept@,
            placed: self.placed@,
            named: self.named@,
        }
    }
}

/// The numbers a list of waiting commands acts on, one after the other.
pub open spec fn numbers_waiting(waiting: Seq<Pending>) -> Seq<u64>
    decreases waiting.len(),
{
    if waiting.len() == 0 {
        Seq::empty()
    } else {
        numbers_waiting(waiting.drop_last()) + waiting.last().cmd.own_numbers()
    }
}

/// Whether every command of a list is about orders, and has its numbers.
pub open spec fn all_admitted(waiting: Seq<Pending>) -> bool {
    forall|i: int|
        0 <= i < waiting.len() ==> (#[trigger] waiting[i]).cmd.numbered() && about_orders(
            waiting[i].cmd,
        )
}

impl IntakeView {
    /// Whether a number names an order the venue is working. What is kept
    /// under it and would place it names an order nothing has submitted.
    pub open spec fn works(self, book: Book, order_id: u64) -> bool {
        ((self.placed.dom().contains(order_id) && !book.has_finished(order_id))
            || book.working@.contains(order_id)) && !placement_kept(self.kept, order_id)
    }

    /// With the numbers the waiting commands act on counted anew.
    pub open spec fn recounted(self) -> IntakeView {
        IntakeView { waiting_ids: numbers_waiting(self.waiting), ..self }
    }

    /// Without an order that was never sent.
    pub open spec fn forgetting(self, order_id: u64) -> IntakeView {
        IntakeView {
            placed: self.placed.remove(order_id),
            attached: self.attached.discarding(order_id),
            ..self
        }
    }
}

/// Add the numbers of a list to another.
pub fn add_all(ids: &mut Vec<u64>, more: &Vec<u64>)
    ensures
        final(ids)@ == old(ids)@ + more@,
{
    let mut at: usize = 0;
    proof {
        assert(old(ids)@ + more@.take(0) =~= old(ids)@);
    }
    while at < more.len()
        invariant
            at <= more@.len(),
            ids@ == old(ids)@ + more@.take(at as int),
        decreases more@.len() - at,
    {
        ids.push(more[at]);
        proof {
            assert(ids@ =~= old(ids)@ + more@.take(at + 1));
        }
        at = at + 1;
    }
    proof {
        assert(more@.take(at as int) =~= more@);
    }
}

impl Intake {
    /// Nothing taken yet.
    pub fn new() -> (intake: Self)
        ensures
            intake@ == (IntakeView {
                attached: AttachedView {
                    wire_of: Map::empty(),
                    api_of: Map::empty(),
                    family_keys: Map::empty(),
                    sent_api_ids: Seq::empty(),
                    highest: 0,
                },
                generated: Map::empty(),
                waiting: Seq::empty(),
                waiting_ids: Seq::empty(),
                naming: Map::empty(),
                unnamed: Map::empty(),
                kept: Seq::empty(),
                placed: Map::empty(),
                named: Map::empty(),
            }),
    {
        Intake {
            attached: Attached::new(),
            generated: Table::new(),
            waiting: Vec::new(),
            waiting_ids: Vec::new(),
            naming: Listing::new(),
            unnamed: Table::new(),
            kept: Vec::new(),
            placed: Table::new(),
            named: Listing::new(),
        }
    }

    /// Count the numbers the waiting commands act on anew.
    pub fn recount_waiting(&mut self)
        requires
            all_admitted(old(self)@.waiting),
        ensures
            final(self)@ == old(self)@.recounted(),
    {
        let mut ids: Vec<u64> = Vec::new();
        let mut at: usize = 0;
        proof {
            assert(self.waiting@.take(0) =~= Seq::empty());
        }
        while at < self.waiting.len()
            invariant
                at <= self.waiting@.len(),
                self@ == old(self)@,
                all_admitted(self.waiting@),
                ids@ == numbers_waiting(self.waiting@.take(at as int)),
            decreases self.waiting@.len() - at,
        {
            proof {
                assert(self.waiting@.take(at + 1).drop_last() =~= self.waiting@.take(at as int));
                assert(self.waiting@.take(at + 1).last() == self.waiting@[at as int]);
            }
            let own: Vec<u64> = self.waiting[at].cmd.own();
            add_all(&mut ids, &own);
            at = at + 1;
        }
        proof {
            assert(self.waiting@.take(at as int) =~= self.waiting@);
        }
        self.waiting_ids = ids;
    }

    /// How many commands wait on the venue.
    pub fn waiting(&self) -> (count: usize)
        ensures
            count == self@.waiting.len(),
    {
        self.waiting.len()
    }

    /// Whether a number names an order the venue is working.
    pub fn working(&self, book: &Book, order_id: u64) -> (working: bool)
        ensures
            working == self@.works(*book, order_id),
    {
        let placed_here: bool = self.placed.contains_key(&order_id) && !book.number_finished(
            order_id,
        );
        (placed_here || book.venue_is_working(order_id)) && !keeps_a_placement(
            &self.kept,
            order_id,
        )
    }

    /// Forget an order that was never sent, with its caller's number for it.
    pub fn forget_waiting_attachment(&mut self, notices: &mut Vec<Notice>, order_id: u64)
        ensures
            final(self)@ == old(self)@.forgetting(order_id),
            said(final(notices)@) == said(old(notices)@).push(Said::NumberForgotten(order_id)),
    {
        let _ = self.placed.remove(&order_id);
        self.attached.discard_local_order(order_id);
        say(notices, Notice::NumberForgotten(order_id));
    }
}

/// The number of a request, and whether it submits one order.
pub open spec fn mark(request: OrderRequest) -> (u64, bool) {
    (request.id(), request is SubmitEx)
}

/// The marks of a list of requests.
pub open spec fn marks(requests: Seq<OrderRequest>) -> Seq<(u64, bool)> {
    requests.map_values(|request: OrderRequest| mark(request))
}

/// The marks of what is kept.
pub open spec fn kept_marks(kept: Seq<Kept>) -> Seq<(u64, bool)> {
    kept.map_values(|one: Kept| mark(one.command))
}

/// Whether some request of a list was generated with a placement.
pub open spec fn generates(
    marks: Seq<(u64, bool)>,
    generated: Map<u64, u64>,
    parent: u64,
) -> bool {
    exists|i: int|
        0 <= i < marks.len() && generated.dom().contains((#[trigger] marks[i]).0)
            && generated[marks[i].0] == parent
}

/// Whether a request counts with the placement it was admitted with.
pub open spec fn counts_with_a_family(
    marks: Seq<(u64, bool)>,
    generated: Map<u64, u64>,
    one: (u64, bool),
) -> bool {
    one.1 && (generated.dom().contains(one.0) || generates(marks, generated, one.0))
}

/// The placement a request was admitted with: its own where it was generated
/// with none.
pub open spec fn admitted_with(generated: Map<u64, u64>, one: (u64, bool)) -> u64 {
    if generated.dom().contains(one.0) {
        generated[one.0]
    } else {
        one.0
    }
}

/// How many admissions a list of requests holds: each placement once with the
/// orders it generated, and every other request by itself.
pub open spec fn admissions(marks: Seq<(u64, bool)>, generated: Map<u64, u64>) -> nat {
    let alone = marks.filter(|one: (u64, bool)| !counts_with_a_family(marks, generated, one));
    let families = marks.filter(
        |one: (u64, bool)| counts_with_a_family(marks, generated, one),
    ).map_values(|one: (u64, bool)| admitted_with(generated, one)).to_set();
    alone.len() + families.len()
}

fn generated_by(marks: &Vec<(u64, bool)>, generated: &Table<u64, u64>, parent: u64) -> (found: bool)
    ensures
        found == generates(marks@, generated@, parent),
{
    let mut at: usize = 0;
    while at < marks.len()
        invariant
            at <= marks@.len(),
            forall|i: int|
                0 <= i < at ==> !(generated@.dom().contains((#[trigger] marks@[i]).0)
                    && generated@[marks@[i].0] == parent),
        decreases marks@.len() - at,
    {
        match generated.get(&marks[at].0) {
            Some(of) => {
                if *of == parent {
                    return true;
                }
            },
            None => {},
        }
        at = at + 1;
    }
    false
}

fn add_marks(list: &mut Vec<(u64, bool)>, requests: &Vec<OrderRequest>)
    ensures
        final(list)@ == old(list)@ + marks(requests@),
{
    let mut at: usize = 0;
    proof {
        assert(old(list)@ + marks(requests@).take(0) =~= old(list)@);
    }
    while at < requests.len()
        invariant
            at <= requests@.len(),
            list@ == old(list)@ + marks(requests@).take(at as int),
        decreases requests@.len() - at,
    {
        let submits: bool = matches!(requests[at], OrderRequest::SubmitEx { .. });
        list.push((requests[at].order_id(), submits));
        proof {
            assert(list@ =~= old(list)@ + marks(requests@).take(at + 1));
        }
        at = at + 1;
    }
    proof {
        assert(marks(requests@).take(at as int) =~= marks(requests@));
    }
}

fn marks_of_kept(kept: &Vec<Kept>) -> (list: Vec<(u64, bool)>)
    ensures
        list@ == kept_marks(kept@),
{
    let mut list: Vec<(u64, bool)> = Vec::new();
    let mut at: usize = 0;
    while at < kept.len()
        invariant
            at <= kept@.len(),
            list@ == kept_marks(kept@).take(at as int),
        decreases kept@.len() - at,
    {
        let submits: bool = matches!(kept[at].command, OrderRequest::SubmitEx { .. });
        list.push((kept[at].command.order_id(), submits));
        proof {
            assert(list@ =~= kept_marks(kept@).take(at + 1));
        }
        at = at + 1;
    }
    proof {
        assert(kept_marks(kept@).take(at as int) =~= kept_marks(kept@));
    }
    list
}

fn count_admissions(marks: &Vec<(u64, bool)>, generated: &Table<u64, u64>) -> (count: usize)
    ensures
        count == admissions(marks@, generated@),
{
    let ghost inside = |one: (u64, bool)| counts_with_a_family(marks@, generated@, one);
    let ghost outside = |one: (u64, bool)| !counts_with_a_family(marks@, generated@, one);
    let ghost key = |one: (u64, bool)| admitted_with(generated@, one);
    let mut families: Vec<u64> = Vec::new();
    let mut alone: usize = 0;
    let mut at: usize = 0;
    proof {
        reveal(Seq::filter);
        assert(marks@.take(0) =~= Seq::empty());
        assert(marks@.take(0).filter(inside).map_values(key).to_set() =~= Set::empty());
        assert(families@.to_set() =~= Set::empty());
    }
    while at < marks.len()
        invariant
            at <= marks@.len(),
            inside == (|one: (u64, bool)| counts_with_a_family(marks@, generated@, one)),
            outside == (|one: (u64, bool)| !counts_with_a_family(marks@, generated@, one)),
            key == (|one: (u64, bool)| admitted_with(generated@, one)),
            alone == marks@.take(at as int).filter(outside).len(),
            families@.no_duplicates(),
            families@.to_set() == marks@.take(at as int).filter(inside).map_values(key).to_set(),
            alone + families@.len() <= at,
        decreases marks@.len() - at,
    {
        let one: (u64, bool) = marks[at];
        let ghost before = marks@.take(at as int).filter(inside);
        proof {
            reveal(Seq::filter);
            assert(marks@.take(at + 1).drop_last() =~= marks@.take(at as int));
            assert(marks@.take(at + 1).last() == one);
        }
        if one.1 && (generated.contains_key(&one.0) || generated_by(marks, generated, one.0)) {
            let with: u64 = match generated.get(&one.0) {
                Some(with) => *with,
                None => one.0,
            };
            proof {
                let after = before.push(one);
                assert(marks@.take(at + 1).filter(inside) == after);
                assert(after.map_values(key) =~= before.map_values(key).push(with));
                before.map_values(key).lemma_push_to_set_commute(with);
            }
            if !holds(&families, with) {
                proof {
                    families@.lemma_push_to_set_commute(with);
                }
                families.push(with);
            } else {
                proof {
                    assert(families@.to_set().contains(with));
                    assert(families@.to_set().insert(with) =~= families@.to_set());
                }
            }
        } else {
            alone = alone + 1;
        }
        at = at + 1;
    }
    proof {
        assert(marks@.take(at as int) =~= marks@);
        families@.unique_seq_to_set();
    }
    alone + families.len()
}

/// How many admissions are built and not sent. A placement counts once while
/// any of the orders it generated remain; a later change of one of them is an
/// admission of its own.
pub fn built_order_commands_held(
    intake: &Intake,
    pending: &Vec<OrderRequest>,
    quoting: &Vec<OrderRequest>,
) -> (count: usize)
    ensures
        count == admissions(
            kept_marks(intake@.kept) + marks(pending@) + marks(quoting@),
            intake@.generated,
        ),
{
    let mut list: Vec<(u64, bool)> = marks_of_kept(&intake.kept);
    add_marks(&mut list, pending);
    add_marks(&mut list, quoting);
    count_admissions(&list, &intake.generated)
}

} // verus!
