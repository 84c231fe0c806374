//! Withdrawals as their callers ask for them.

use crate::engine::book::{holds, Book};
use crate::engine::context::Context;
use crate::engine::intake::forget::withdraw_kept_placement;
use crate::engine::intake::kept::placement_kept;
use crate::engine::intake::state::{add_all, Intake, IntakeView};
use crate::engine::known::{said, say, Known, Notice, Said};
use crate::error_codes::{Refusal, NOT_CANCELLABLE, NO_SUCH_ORDER};
use crate::text::{decimal, digits, int_text, joined, joined3, uint_text};
use crate::types::orders::{InstrumentId, OrderCancel, OrderOp, OrderRequest};
use vstd::prelude::*;

verus! {

/// Whether a command was taken, which is sent, kept, refused or withdrawn, or
/// waits.
#[derive(Clone, Copy, Debug, PartialEq, Eq, Structural)]
pub enum Step {
    Done,
    Waits,
}

/// What is said of a withdrawal that states a time.
pub open spec fn time_text(time: Seq<char>) -> Seq<char> {
    "a withdrawal states a time, and this client does not send it: a gateway sends one only where the venue has turned that record on for the login, and this client does not read whether it has, so the order is withdrawn without it. State it where the order was placed to have it recorded. (stated: "@
        + time + ")"@
}

/// What is said of a withdrawal that happens and states a time, which does not
/// travel.
pub open spec fn time_said(before: Seq<Said>, order_id: u64, stated: OrderCancel) -> Seq<Said> {
    let time = stated.manual_order_cancel_time@;
    if time.len() == 0 {
        before
    } else {
        before.push(
            Said::Inactive { order_id, op: OrderOp::Cancel, code: 321, text: time_text(time) },
        )
    }
}

/// Say that a withdrawal's time does not travel, for a withdrawal that
/// happens: the order goes without it.
pub fn say_the_time_did_not_travel(
    notices: &mut Vec<Notice>,
    order_id: u64,
    stated: &OrderCancel,
)
    ensures
        said(final(notices)@) == time_said(said(old(notices)@), order_id, *stated),
{
    let time: &str = stated.manual_order_cancel_time.as_str();
    if time.unicode_len() == 0 {
        return;
    }
    let text: String = joined3(
        "a withdrawal states a time, and this client does not send it: a gateway sends one only where the venue has turned that record on for the login, and this client does not read whether it has, so the order is withdrawn without it. State it where the order was placed to have it recorded. (stated: ",
        time,
        ")",
    );
    say(
        notices,
        Notice::Inactive { order_id, op: OrderOp::Cancel, code: Refusal::VALIDATION, text },
    );
}

/// What becomes of a withdrawal of one order.
pub enum Withdrawal {
    /// The order waited for what is attached to it, and went with it.
    WaitedAttached,
    /// The order was kept and never sent.
    WasKept,
    /// The venue has finished with the order.
    Finished,
    /// The venue is still naming the account's working orders.
    NotYetKnown,
    /// No such order is working.
    NoSuchOrder,
    /// The withdrawal goes to the venue.
    Goes,
}

impl IntakeView {
    /// What becomes of a withdrawal of one order. One carried over from an
    /// earlier session is not known until the venue has named the account's
    /// working orders; where the naming did not finish, nothing is known either
    /// way and the withdrawal goes.
    pub open spec fn withdrawal(
        self,
        book: Book,
        order_id: u64,
        waited_attached: bool,
    ) -> Withdrawal {
        if waited_attached {
            Withdrawal::WaitedAttached
        } else if placement_kept(self.kept, order_id) {
            Withdrawal::WasKept
        } else if book.has_finished(order_id) {
            Withdrawal::Finished
        } else {
            match book.replay {
                None => Withdrawal::NotYetKnown,
                Some(named) => if named && !self.without_kept_placement(order_id).works(
                    book,
                    order_id,
                ) {
                    Withdrawal::NoSuchOrder
                } else {
                    Withdrawal::Goes
                },
            }
        }
    }
}

/// The caller's own number for an order, as reports of it stated it.
pub open spec fn reported_number(known: Known, order_id: u64) -> i64 {
    if known.attached@.dom().contains(order_id) {
        match known.attached@[order_id].api_order_id {
            Some(api) => api,
            None => order_id as i64,
        }
    } else {
        order_id as i64
    }
}

fn number_reported(known: &Known, order_id: u64) -> (api: i64)
    ensures
        api == reported_number(*known, order_id),
{
    match known.attached.get(&order_id) {
        Some(held) => match held.api_order_id {
            Some(api) => api,
            None => order_id as i64,
        },
        None => order_id as i64,
    }
}

/// The venue's own number for an order, nought where it gave none.
pub open spec fn perm_number(known: Known, order_id: u64) -> i64 {
    match known.info(order_id) {
        Some(info) => info.perm_id,
        None => 0,
    }
}

/// What is said of a withdrawal of one order.
pub open spec fn withdrawal_said(
    before: Seq<Said>,
    view: IntakeView,
    book: Book,
    known: Known,
    order_id: u64,
    stated: OrderCancel,
    waited_attached: bool,
) -> Seq<Said> {
    let after = view.said_without_kept(before, order_id);
    let api = reported_number(known, order_id);
    match view.withdrawal(book, order_id, waited_attached) {
        Withdrawal::WaitedAttached => before,
        Withdrawal::WasKept => time_said(after, order_id, stated),
        Withdrawal::Finished => after.push(
            Said::OrderRefused {
                id: api,
                op: OrderOp::Cancel,
                code: NOT_CANCELLABLE,
                text: "Cancel attempted when order is not in a cancellable state. Order permId = "@
                    + decimal(perm_number(known, order_id) as int),
            },
        ),
        Withdrawal::NotYetKnown => after,
        Withdrawal::NoSuchOrder => after.push(
            Said::OrderRefused {
                id: api,
                op: OrderOp::Cancel,
                code: NO_SUCH_ORDER,
                text: "no order is working under "@ + decimal(api as int),
            },
        ),
        Withdrawal::Goes => time_said(after, order_id, stated),
    }
}

/// Withdraw one order. `waited_attached` says whether the order waited for what
/// is attached to it and was withdrawn there.
pub fn take_cancel(
    intake: &mut Intake,
    pending: &mut Vec<OrderRequest>,
    notices: &mut Vec<Notice>,
    book: &Book,
    known: &Known,
    order_id: u64,
    stated: &OrderCancel,
    waited_attached: bool,
) -> (step: Step)
    ensures
        step is Waits <==> old(intake)@.withdrawal(*book, order_id, waited_attached) is NotYetKnown,
        final(intake)@ == (if waited_attached {
            old(intake)@
        } else {
            old(intake)@.without_kept_placement(order_id)
        }),
        said(final(notices)@) == withdrawal_said(
            said(old(notices)@),
            old(intake)@,
            *book,
            *known,
            order_id,
            *stated,
            waited_attached,
        ),
        final(pending)@ == (if old(intake)@.withdrawal(
            *book,
            order_id,
            waited_attached,
        ) is Goes {
            old(pending)@.push(OrderRequest::Cancel { order_id, stated: *stated })
        } else {
            old(pending)@
        }),
{
    if waited_attached {
        return Step::Done;
    }
    if withdraw_kept_placement(intake, notices, order_id) {
        say_the_time_did_not_travel(notices, order_id, stated);
        return Step::Done;
    }
    let api: i64 = number_reported(known, order_id);
    if book.number_finished(order_id) {
        let perm_id: i64 = match known.orders.get(&order_id) {
            Some(info) => info.perm_id,
            None => 0,
        };
        let text: String = joined(
            "Cancel attempted when order is not in a cancellable state. Order permId = ",
            int_text(perm_id).as_str(),
        );
        say(
            notices,
            Notice::OrderRefused { id: api, op: OrderOp::Cancel, code: NOT_CANCELLABLE, text },
        );
        return Step::Done;
    }
    match book.replay {
        None => Step::Waits,
        Some(named) => {
            if named && !intake.working(book, order_id) {
                let text: String = joined("no order is working under ", int_text(api).as_str());
                say(
                    notices,
                    Notice::OrderRefused {
                        id: api,
                        op: OrderOp::Cancel,
                        code: NO_SUCH_ORDER,
                        text,
                    },
                );
                return Step::Done;
            }
            say_the_time_did_not_travel(notices, order_id, stated);
            pending.push(OrderRequest::Cancel { order_id, stated: stated.clone() });
            Step::Done
        },
    }
}

/// The open orders that carry one of the venue's own numbers.
pub open spec fn carrying(open_orders: Seq<(u64, i64)>, perm_id: i64) -> Seq<u64> {
    open_orders.filter(|one: (u64, i64)| one.1 == perm_id).map_values(|one: (u64, i64)| one.0)
}

/// The orders one of the venue's own numbers may name, the likeliest first: the
/// one held under the number itself, the one the venue's name for it was
/// learned for, and then whatever carries it.
pub open spec fn named_by(book: Book, perm_id: i64) -> Seq<u64> {
    let carriers = carrying(book.open_orders@, perm_id);
    let number = perm_id as u64;
    let itself = if carriers.contains(number) {
        seq![number]
    } else {
        Seq::empty()
    };
    let learned = if book.names@.dom().contains(number) && carriers.contains(book.names@[number]) {
        seq![book.names@[number]]
    } else {
        Seq::empty()
    };
    itself + learned + carriers
}

/// The first of a list the engine holds.
pub open spec fn first_held(context: Context, ids: Seq<u64>) -> Option<u64>
    decreases ids.len(),
{
    if ids.len() == 0 {
        None
    } else {
        match first_held(context, ids.drop_last()) {
            Some(id) => Some(id),
            None => if context.held(ids.last()) is Some {
                Some(ids.last())
            } else {
                None
            },
        }
    }
}

/// The order one of the venue's own numbers names: of those that carry it, the
/// one the engine holds, and otherwise the likeliest.
pub open spec fn perm_id_names(book: Book, context: Context, perm_id: i64) -> Option<u64> {
    let ids = named_by(book, perm_id);
    match first_held(context, ids) {
        Some(id) => Some(id),
        None => if ids.len() > 0 {
            Some(ids[0])
        } else {
            None
        },
    }
}

fn carriers_of(book: &Book, perm_id: i64) -> (ids: Vec<u64>)
    ensures
        ids@ == carrying(book.open_orders@, perm_id),
{
    let mut ids: Vec<u64> = Vec::new();
    let mut at: usize = 0;
    let ghost open = book.open_orders@;
    proof {
        reveal(Seq::filter);
        assert(open.take(0) =~= Seq::empty());
        assert(ids@ =~= carrying(open.take(0), perm_id));
    }
    while at < book.open_orders.len()
        invariant
            at <= open.len(),
            open == book.open_orders@,
            ids@ == carrying(open.take(at as int), perm_id),
        decreases open.len() - at,
    {
        let one: (u64, i64) = book.open_orders[at];
        let ghost before = open.take(at as int).filter(|one: (u64, i64)| one.1 == perm_id);
        proof {
            reveal(Seq::filter);
            assert(open.take(at + 1).drop_last() =~= open.take(at as int));
            assert(open.take(at + 1).last() == one);
        }
        if one.1 == perm_id {
            ids.push(one.0);
            proof {
                assert(open.take(at + 1).filter(|one: (u64, i64)| one.1 == perm_id) == before.push(
                    one,
                ));
                let number = |one: (u64, i64)| one.0;
                assert(before.push(one).map_values(number) =~= before.map_values(number).push(
                    one.0,
                ));
            }
        }
        at = at + 1;
    }
    proof {
        assert(open.take(at as int) =~= open);
    }
    ids
}

/// The order one of the venue's own numbers names.
pub fn order_under_perm_id(book: &Book, context: &Context, perm_id: i64) -> (found: Option<u64>)
    ensures
        found == perm_id_names(*book, *context, perm_id),
{
    let carriers: Vec<u64> = carriers_of(book, perm_id);
    let number: u64 = perm_id as u64;
    let mut ids: Vec<u64> = Vec::new();
    if holds(&carriers, number) {
        ids.push(number);
    }
    match book.names.get(&number) {
        Some(learned) => {
            if holds(&carriers, *learned) {
                ids.push(*learned);
            }
        },
        None => {},
    }
    add_all(&mut ids, &carriers);
    proof {
        assert(ids@ =~= named_by(*book, perm_id));
        assert(ids@.take(0) =~= Seq::empty());
    }
    let mut at: usize = 0;
    while at < ids.len()
        invariant
            at <= ids@.len(),
            ids@ == named_by(*book, perm_id),
            first_held(*context, ids@.take(at as int)) is None,
        decreases ids@.len() - at,
    {
        proof {
            assert(ids@.take(at + 1).drop_last() =~= ids@.take(at as int));
            assert(ids@.take(at + 1).last() == ids@[at as int]);
        }
        if context.order(ids[at]).is_some() {
            proof {
                the_first_held_stays(*context, ids@, at + 1);
            }
            return Some(ids[at]);
        }
        at = at + 1;
    }
    proof {
        assert(ids@.take(at as int) =~= ids@);
    }
    if ids.len() > 0 {
        Some(ids[0])
    } else {
        None
    }
}

proof fn the_first_held_stays(context: Context, ids: Seq<u64>, at: int)
    requires
        0 <= at <= ids.len(),
        first_held(context, ids.take(at)) is Some,
    ensures
        first_held(context, ids) == first_held(context, ids.take(at)),
    decreases ids.len(),
{
    if at < ids.len() {
        assert(ids.drop_last().take(at) =~= ids.take(at));
        the_first_held_stays(context, ids.drop_last(), at);
    } else {
        assert(ids.take(at) =~= ids);
    }
}

/// Whether a withdrawal states nothing about itself.
pub open spec fn states_nothing(stated: OrderCancel) -> bool {
    stated.ext_operator@.len() == 0 && stated.manual_order_indicator == i32::MAX
        && stated.manual_order_cancel_time@.len() == 0
}

/// What a withdrawal by one of the venue's own numbers comes to.
#[derive(Clone, Copy, Debug, PartialEq, Eq, Structural)]
pub enum ByPermId {
    /// It waits for the venue to name the account's working orders.
    Waits,
    /// The number names no order, and it is refused.
    Unknown,
    /// It withdraws the order of this number.
    Withdraws(u64),
}

/// What a withdrawal by one of the venue's own numbers comes to.
pub open spec fn withdraws_by_perm_id(book: Book, context: Context, perm_id: i64) -> ByPermId {
    if book.replay is None {
        ByPermId::Waits
    } else {
        match perm_id_names(book, context, perm_id) {
            None => ByPermId::Unknown,
            Some(order_id) => ByPermId::Withdraws(order_id),
        }
    }
}

/// Find the order one of the venue's own numbers names, and withdraw the
/// placement kept under it. What waits attached to the order is withdrawn next,
/// and the order itself after that.
pub fn take_cancel_by_perm_id(
    intake: &mut Intake,
    context: &Context,
    notices: &mut Vec<Notice>,
    book: &Book,
    perm_id: i64,
) -> (found: ByPermId)
    ensures
        found == withdraws_by_perm_id(*book, *context, perm_id),
        final(intake)@ == (match found {
            ByPermId::Withdraws(order_id) => old(intake)@.without_kept_placement(order_id),
            _ => old(intake)@,
        }),
        said(final(notices)@) == (match found {
            ByPermId::Waits => said(old(notices)@),
            ByPermId::Unknown => said(old(notices)@).push(
                Said::Session {
                    code: NO_SUCH_ORDER,
                    text: "cancel_order_by_perm_id: permId "@ + decimal(perm_id as int)
                        + " not found in open orders"@,
                },
            ),
            ByPermId::Withdraws(order_id) => old(intake)@.said_without_kept(
                said(old(notices)@),
                order_id,
            ),
        }),
{
    if book.replay.is_none() {
        return ByPermId::Waits;
    }
    match order_under_perm_id(book, context, perm_id) {
        None => {
            let text: String = joined3(
                "cancel_order_by_perm_id: permId ",
                int_text(perm_id).as_str(),
                " not found in open orders",
            );
            say(notices, Notice::Session { code: NO_SUCH_ORDER, text });
            ByPermId::Unknown
        },
        Some(order_id) => {
            let _ = withdraw_kept_placement(intake, notices, order_id);
            ByPermId::Withdraws(order_id)
        },
    }
}

/// Whether a withdrawal that states this of itself is made so.
pub open spec fn withdrawn_stating(
    before: IntakeView,
    said_before: Seq<Said>,
    said_after: Seq<Said>,
    pending_before: Seq<OrderRequest>,
    pending_after: Seq<OrderRequest>,
    book: Book,
    known: Known,
    order_id: u64,
    waited_attached: bool,
    stated: OrderCancel,
) -> bool {
    &&& said_after == withdrawal_said(
        said_before,
        before,
        book,
        known,
        order_id,
        stated,
        waited_attached,
    )
    &&& pending_after == (if before.withdrawal(book, order_id, waited_attached) is Goes {
        pending_before.push(OrderRequest::Cancel { order_id, stated })
    } else {
        pending_before
    })
}

/// Withdraw the order one of the venue's own numbers was found to name, under
/// the number its own reports carry in this session. The withdrawal states
/// nothing about itself. `waited_attached` says whether the order waited for
/// what is attached to it and was withdrawn there.
pub fn finish_cancel_by_perm_id(
    intake: &mut Intake,
    pending: &mut Vec<OrderRequest>,
    notices: &mut Vec<Notice>,
    book: &Book,
    known: &Known,
    order_id: u64,
    waited_attached: bool,
) -> (step: Step)
    ensures
        step is Waits <==> old(intake)@.withdrawal(*book, order_id, waited_attached) is NotYetKnown,
        final(intake)@ == (if waited_attached {
            old(intake)@
        } else {
            old(intake)@.without_kept_placement(order_id)
        }),
        exists|stated: OrderCancel|
            states_nothing(stated) && #[trigger] withdrawn_stating(
                old(intake)@,
                said(old(notices)@),
                said(final(notices)@),
                old(pending)@,
                final(pending)@,
                *book,
                *known,
                order_id,
                waited_attached,
                stated,
            ),
{
    let stated: OrderCancel = OrderCancel::default();
    let step: Step = take_cancel(
        intake,
        pending,
        notices,
        book,
        known,
        order_id,
        &stated,
        waited_attached,
    );
    proof {
        assert(withdrawn_stating(
            old(intake)@,
            said(old(notices)@),
            said(notices@),
            old(pending)@,
            pending@,
            *book,
            *known,
            order_id,
            waited_attached,
            stated,
        ));
    }
    step
}

/// Once the venue has named the account's working orders, a withdrawal by one
/// of its own numbers does not wait: the order it finds is withdrawn, or its
/// withdrawal refused.
pub proof fn a_found_order_does_not_wait(
    book: Book,
    context: Context,
    perm_id: i64,
    view: IntakeView,
    order_id: u64,
    waited_attached: bool,
)
    requires
        withdraws_by_perm_id(book, context, perm_id) == ByPermId::Withdraws(order_id),
    ensures
        !(view.withdrawal(book, order_id, waited_attached) is NotYetKnown),
{
}

/// What is said where the venue had not finished naming the account's working
/// orders.
pub open spec fn not_covered_text(count: u32) -> Seq<char> {
    "the venue had not finished naming this account's working orders within the wait: "@ + digits(
        count as nat,
    )
        + " cancels were sent for what had been named, and what had not been named is not covered and may still be working"@
}

/// Whether a request withdraws every order on the first so many contracts.
pub open spec fn withdraws_first(
    request: OrderRequest,
    count: u32,
    stated: OrderCancel,
) -> bool {
    match request {
        OrderRequest::GlobalCancel { instruments, stated: s } => {
            &&& instruments@ == Seq::new(count as nat, |i: int| i as u32)
            &&& s == stated
        },
        _ => false,
    }
}

fn first_instruments(count: u32) -> (list: Vec<InstrumentId>)
    ensures
        list@ == Seq::new(count as nat, |i: int| i as u32),
{
    let mut list: Vec<InstrumentId> = Vec::new();
    let mut at: u32 = 0;
    while at < count
        invariant
            at <= count,
            list@ == Seq::new(at as nat, |i: int| i as u32),
        decreases count - at,
    {
        list.push(at);
        at = at + 1;
        proof {
            assert(list@ =~= Seq::new(at as nat, |i: int| i as u32));
        }
    }
    list
}

/// Withdraw every order the account is working. This wire carries no withdrawal
/// of everything, so one goes for the contracts the engine holds, once the
/// venue has named what the account is working.
pub fn take_global_cancel(
    pending: &mut Vec<OrderRequest>,
    notices: &mut Vec<Notice>,
    book: &Book,
    instrument_count: u32,
    stated: &OrderCancel,
) -> (step: Step)
    ensures
        step is Waits <==> book.replay is None,
        if book.replay is None || instrument_count == 0 {
            final(pending)@ == old(pending)@
        } else {
            &&& final(pending)@.len() == old(pending)@.len() + 1
            &&& final(pending)@.drop_last() == old(pending)@
            &&& withdraws_first(final(pending)@.last(), instrument_count, *stated)
        },
        said(final(notices)@) == (if book.replay == Some(false) && book.naming_began {
            said(old(notices)@).push(
                Said::Session { code: -1i32, text: not_covered_text(instrument_count) },
            )
        } else {
            said(old(notices)@)
        }),
{
    match book.replay {
        None => Step::Waits,
        Some(named) => {
            if instrument_count != 0 {
                pending.push(
                    OrderRequest::GlobalCancel {
                        instruments: first_instruments(instrument_count),
                        stated: stated.clone(),
                    },
                );
                proof {
                    assert(pending@.drop_last() =~= old(pending)@);
                }
            }
            if !named && book.naming_began {
                let text: String = joined3(
                    "the venue had not finished naming this account's working orders within the wait: ",
                    uint_text(instrument_count as u64).as_str(),
                    " cancels were sent for what had been named, and what had not been named is not covered and may still be working",
                );
                say(notices, Notice::Session { code: Refusal::NO_ANSWER, text });
            }
            Step::Done
        },
    }
}

} // verus!
