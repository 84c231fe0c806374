//! What the engine holds about its orders and the contracts they are on.

use crate::listing::Listing;
use crate::table::Table;
use crate::types::attrs::OrderAttrs;
use crate::types::kinds::OrderKind;
use crate::types::orders::{InstrumentId, Order, OrderRequest, OrderStatus};
use std::sync::Arc;
use vstd::prelude::*;

verus! {

/// What a strike's text reads as.
#[derive(Clone, Copy, Debug, PartialEq, Eq, Structural)]
pub enum StrikeReads {
    /// No number.
    Unreadable,
    /// A number that is not above nought.
    NotAbove,
    /// A number above nought.
    Above,
}

/// What tells a contract apart from others on its symbol.
#[derive(Debug, PartialEq)]
pub struct OrderIdentity {
    pub expiry: String,
    pub strike: String,
    pub strike_reads: StrikeReads,
    pub right: String,
    pub multiplier: String,
    pub trading_class: String,
    pub local_symbol: String,
    pub currency: String,
}

/// A contract the engine holds, and how orders on it are routed.
#[derive(Debug, PartialEq)]
pub struct Slot {
    pub con_id: Option<i64>,
    pub symbol: String,
    pub sec_type: String,
    pub destination: String,
    pub identity: Option<OrderIdentity>,
    /// The currency its caller registered it in.
    pub currency: Option<String>,
}

/// An order as it was placed: its shape and everything it carries.
#[derive(Debug, PartialEq)]
pub struct Placed {
    pub kind: OrderKind,
    pub attrs: Arc<OrderAttrs>,
}

impl Clone for Placed {
    fn clone(&self) -> (copy: Self)
        ensures
            copy == *self,
    {
        Placed { kind: self.kind.clone(), attrs: self.attrs.clone() }
    }
}

/// What the venue held before a replacement went out: the order, the name it
/// held it under, and the record of it.
#[derive(Debug, PartialEq)]
pub struct Fallback {
    pub order: Order,
    pub clord: String,
    pub record: Option<Placed>,
}

/// What the engine holds about its orders.
#[derive(Debug)]
pub struct Context {
    /// The orders the engine tracks.
    pub orders: Table<u64, Order>,
    /// Each order as it was placed.
    pub submitted: Table<u64, Placed>,
    /// How many times each order was replaced.
    pub modify_versions: Table<u64, u32>,
    /// The name the venue last took each order under.
    pub last_clord: Table<u64, String>,
    /// What the venue held before each replacement still unanswered.
    pub pre_replace: Listing<(u64, u32), Fallback>,
    /// How many withdrawals of each order went out after the first.
    pub cancel_attempts: Table<u64, u64>,
    /// The security type and the destination each order went out on.
    pub order_destination: Table<u64, (String, String)>,
    /// The slots to see again whether they are still needed.
    pub slots_to_reconsider: Vec<InstrumentId>,
    /// The instructions not yet sent, in the order they were given.
    pub pending_orders: Vec<OrderRequest>,
    /// The contracts, each on its slot.
    pub slots: Vec<Slot>,
}

/// Whether an order may still trade.
pub open spec fn open_on(order: Order, instrument: InstrumentId) -> bool {
    order.instrument == instrument && !order.status.terminal()
}

/// The orders of a list that may still trade on a contract.
pub open spec fn open_ids(
    keys: Seq<u64>,
    orders: Map<u64, Order>,
    instrument: InstrumentId,
) -> Seq<u64> {
    keys.filter(|id: u64| open_on(orders[id], instrument))
}

/// Whether any order's state on a contract is not known.
pub open spec fn any_uncertain(orders: Map<u64, Order>, instrument: InstrumentId) -> bool {
    exists|id: u64| #[trigger]
        orders.dom().contains(id) && orders[id].instrument == instrument
            && orders[id].status is Uncertain
}

/// The orders with one's status changed, where it is tracked.
pub open spec fn with_status(
    orders: Map<u64, Order>,
    order_id: u64,
    status: OrderStatus,
) -> Map<u64, Order> {
    if orders.dom().contains(order_id) {
        orders.insert(order_id, Order { status, ..orders[order_id] })
    } else {
        orders
    }
}

impl Context {
    /// A context that holds nothing.
    pub fn new() -> (context: Self)
        ensures
            context.orders@ == Map::<u64, Order>::empty(),
            context.orders.keys() == Seq::<u64>::empty(),
            context.submitted@ == Map::<u64, Placed>::empty(),
            context.modify_versions@ == Map::<u64, u32>::empty(),
            context.last_clord@ == Map::<u64, String>::empty(),
            context.pre_replace@ == Map::<(u64, u32), Fallback>::empty(),
            context.cancel_attempts@ == Map::<u64, u64>::empty(),
            context.order_destination@ == Map::<u64, (String, String)>::empty(),
            context.slots_to_reconsider@.len() == 0,
            context.pending_orders@.len() == 0,
            context.slots@.len() == 0,
    {
        Context {
            orders: Table::new(),
            submitted: Table::new(),
            modify_versions: Table::new(),
            last_clord: Table::new(),
            pre_replace: Listing::new(),
            cancel_attempts: Table::new(),
            order_destination: Table::new(),
            slots_to_reconsider: Vec::new(),
            pending_orders: Vec::new(),
            slots: Vec::new(),
        }
    }

    /// Whether nothing but the tracked orders differs.
    pub open spec fn same_but_orders(self, other: Self) -> bool {
        &&& self.submitted == other.submitted
        &&& self.modify_versions == other.modify_versions
        &&& self.last_clord == other.last_clord
        &&& self.pre_replace == other.pre_replace
        &&& self.cancel_attempts == other.cancel_attempts
        &&& self.order_destination == other.order_destination
        &&& self.slots_to_reconsider == other.slots_to_reconsider
        &&& self.pending_orders == other.pending_orders
        &&& self.slots == other.slots
    }

    /// Whether nothing but the instructions not yet sent differs.
    pub open spec fn same_but_pending(self, other: Self) -> bool {
        &&& self.orders == other.orders
        &&& self.submitted == other.submitted
        &&& self.modify_versions == other.modify_versions
        &&& self.last_clord == other.last_clord
        &&& self.pre_replace == other.pre_replace
        &&& self.cancel_attempts == other.cancel_attempts
        &&& self.order_destination == other.order_destination
        &&& self.slots_to_reconsider == other.slots_to_reconsider
        &&& self.slots == other.slots
    }

    /// The order under a number, where it is tracked.
    pub open spec fn held(self, order_id: u64) -> Option<Order> {
        if self.orders@.dom().contains(order_id) {
            Some(self.orders@[order_id])
        } else {
            None
        }
    }

    /// The order as it was placed, where that is recorded.
    pub open spec fn placed(self, order_id: u64) -> Option<Placed> {
        if self.submitted@.dom().contains(order_id) {
            Some(self.submitted@[order_id])
        } else {
            None
        }
    }

    /// How many times an order was replaced.
    pub open spec fn version(self, order_id: u64) -> u32 {
        if self.modify_versions@.dom().contains(order_id) {
            self.modify_versions@[order_id]
        } else {
            0
        }
    }

    /// The order under a number.
    pub fn order(&self, order_id: u64) -> (order: Option<Order>)
        ensures
            order == self.held(order_id),
    {
        match self.orders.get(&order_id) {
            Some(order) => Some(*order),
            None => None,
        }
    }

    /// The order as it was placed.
    pub fn record(&self, order_id: u64) -> (record: Option<Placed>)
        ensures
            record == self.placed(order_id),
    {
        match self.submitted.get(&order_id) {
            Some(record) => Some(record.clone()),
            None => None,
        }
    }

    /// How many times an order was replaced.
    pub fn replaced_times(&self, order_id: u64) -> (version: u32)
        ensures
            version == self.version(order_id),
    {
        match self.modify_versions.get(&order_id) {
            Some(version) => *version,
            None => 0,
        }
    }

    /// Track an order, in place of what was tracked under its number.
    pub fn insert_order(&mut self, order: Order)
        ensures
            final(self).orders@ == old(self).orders@.insert(order.order_id, order),
            final(self).orders.keys() == (if old(self).orders@.dom().contains(order.order_id) {
                old(self).orders.keys()
            } else {
                old(self).orders.keys().push(order.order_id)
            }),
            final(self).same_but_orders(*old(self)),
    {
        self.orders.insert(order.order_id, order);
    }

    /// Set where an order stands, whatever it stood at. Nothing where it is
    /// not tracked.
    pub fn set_order_status_forced(&mut self, order_id: u64, status: OrderStatus)
        ensures
            final(self).orders@ == with_status(old(self).orders@, order_id, status),
            final(self).orders.keys() == old(self).orders.keys(),
            final(self).same_but_orders(*old(self)),
    {
        match self.order(order_id) {
            Some(order) => {
                self.orders.insert(order_id, Order { status, ..order });
            },
            None => {},
        }
    }

    /// Move an order to a status, and say whether it moved: not where it is
    /// not tracked, is finished with, or stands there already.
    pub fn update_order_status(&mut self, order_id: u64, status: OrderStatus) -> (moved: bool)
        ensures
            moved == (match old(self).held(order_id) {
                Some(order) => !order.status.terminal() && order.status != status,
                None => false,
            }),
            final(self).orders@ == (if moved {
                with_status(old(self).orders@, order_id, status)
            } else {
                old(self).orders@
            }),
            final(self).orders.keys() == old(self).orders.keys(),
            final(self).same_but_orders(*old(self)),
    {
        match self.order(order_id) {
            Some(order) => {
                if order.status.is_terminal() || order.status == status {
                    return false;
                }
                self.orders.insert(order_id, Order { status, ..order });
                true
            },
            None => false,
        }
    }

    /// The orders that may still trade on a contract, in the order they were
    /// tracked.
    pub fn open_orders_for(&self, instrument: InstrumentId) -> (ids: Vec<u64>)
        ensures
            ids@ == open_ids(self.orders.keys(), self.orders@, instrument),
    {
        let keys: Vec<u64> = self.orders.key_list();
        let mut ids: Vec<u64> = Vec::new();
        let mut at: usize = 0;
        let ghost open = |id: u64| open_on(self.orders@[id], instrument);
        proof {
            reveal(Seq::filter);
            self.orders.keys_have_values();
            assert(keys@ =~= self.orders.keys());
            assert(keys@.take(0) =~= Seq::empty());
            assert(ids@ =~= keys@.take(0).filter(open));
        }
        while at < keys.len()
            invariant
                at <= keys@.len(),
                keys@ == self.orders.keys(),
                open == (|id: u64| open_on(self.orders@[id], instrument)),
                forall|id: u64|
                    self.orders.keys().contains(id) <==> #[trigger] self.orders@.dom().contains(
                        id,
                    ),
                ids@ == keys@.take(at as int).filter(open),
            decreases keys@.len() - at,
        {
            let id: u64 = keys[at];
            proof {
                reveal(Seq::filter);
                assert(keys@.take(at + 1).drop_last() =~= keys@.take(at as int));
                assert(keys@.take(at + 1).last() == id);
                assert(self.orders.keys().contains(id));
                assert(self.orders@.dom().contains(id));
            }
            match self.order(id) {
                Some(order) => {
                    if order.instrument == instrument && !order.status.is_terminal() {
                        ids.push(id);
                    }
                },
                None => {},
            }
            at = at + 1;
        }
        proof {
            assert(keys@.take(at as int) =~= keys@);
        }
        ids
    }

    /// Whether any order's state on a contract is not known.
    pub fn any_uncertain_on(&self, instrument: InstrumentId) -> (any: bool)
        ensures
            any == any_uncertain(self.orders@, instrument),
    {
        let keys: Vec<u64> = self.orders.key_list();
        let mut at: usize = 0;
        proof {
            self.orders.keys_have_values();
            assert(keys@ =~= self.orders.keys());
        }
        while at < keys.len()
            invariant
                at <= keys@.len(),
                keys@ == self.orders.keys(),
                forall|id: u64|
                    self.orders.keys().contains(id) <==> #[trigger] self.orders@.dom().contains(
                        id,
                    ),
                forall|i: int|
                    0 <= i < at ==> !(self.orders@[#[trigger] keys@[i]].instrument == instrument
                        && self.orders@[keys@[i]].status is Uncertain),
            decreases keys@.len() - at,
        {
            let id: u64 = keys[at];
            proof {
                assert(self.orders.keys().contains(id));
                assert(self.orders@.dom().contains(id));
            }
            match self.order(id) {
                Some(order) => {
                    if order.instrument == instrument && matches!(
                        order.status,
                        OrderStatus::Uncertain,
                    ) {
                        return true;
                    }
                },
                None => {},
            }
            at = at + 1;
        }
        proof {
            assert forall|id: u64| #[trigger] self.orders@.dom().contains(id) implies !(
            self.orders@[id].instrument == instrument && self.orders@[id].status is Uncertain) by {
                assert(self.orders.keys().contains(id));
                let i = choose|i: int| 0 <= i < keys@.len() && keys@[i] == id;
                assert(keys@[i] == id);
            }
        }
        false
    }

    /// The contract a slot holds, where there is such a slot.
    pub open spec fn slot(self, instrument: InstrumentId) -> Option<Slot> {
        if (instrument as int) < self.slots@.len() {
            Some(self.slots@[instrument as int])
        } else {
            None
        }
    }

    /// The contract a slot holds.
    pub fn slot_of(&self, instrument: InstrumentId) -> (slot: Option<&Slot>)
        ensures
            slot is Some <==> self.slot(instrument) is Some,
            slot matches Some(slot) ==> Some(*slot) == self.slot(instrument),
    {
        if (instrument as usize) < self.slots.len() {
            Some(&self.slots[instrument as usize])
        } else {
            None
        }
    }

    /// The number the venue gave the contract a slot holds.
    pub open spec fn con_id(self, instrument: InstrumentId) -> Option<i64> {
        match self.slot(instrument) {
            Some(slot) => slot.con_id,
            None => None,
        }
    }

    /// The number the venue gave the contract a slot holds.
    pub fn con_id_of(&self, instrument: InstrumentId) -> (con_id: Option<i64>)
        ensures
            con_id == self.con_id(instrument),
    {
        match self.slot_of(instrument) {
            Some(slot) => slot.con_id,
            None => None,
        }
    }

    /// The symbol of the contract a slot holds, empty where none was given.
    pub open spec fn symbol(self, instrument: InstrumentId) -> Seq<char> {
        match self.slot(instrument) {
            Some(slot) => slot.symbol@,
            None => Seq::empty(),
        }
    }

    /// The symbol of the contract a slot holds.
    pub fn symbol_of(&self, instrument: InstrumentId) -> (symbol: String)
        ensures
            symbol@ == self.symbol(instrument),
    {
        match self.slot_of(instrument) {
            Some(slot) => slot.symbol.clone(),
            None => String::new(),
        }
    }

    /// The security type and the destination orders on a slot go out on.
    pub open spec fn routing(self, instrument: InstrumentId) -> (Seq<char>, Seq<char>) {
        match self.slot(instrument) {
            Some(slot) => (slot.sec_type@, slot.destination@),
            None => (Seq::empty(), Seq::empty()),
        }
    }

    /// The security type and the destination orders on a slot go out on.
    pub fn order_routing(&self, instrument: InstrumentId) -> (routing: (String, String))
        ensures
            (routing.0@, routing.1@) == self.routing(instrument),
    {
        match self.slot_of(instrument) {
            Some(slot) => (slot.sec_type.clone(), slot.destination.clone()),
            None => (String::new(), String::new()),
        }
    }

    /// Record an order as it was placed.
    pub fn record_placement(&mut self, order_id: u64, placed: Placed)
        ensures
            final(self).submitted@ == old(self).submitted@.insert(order_id, placed),
            final(self).orders == old(self).orders,
            final(self).modify_versions == old(self).modify_versions,
            final(self).last_clord == old(self).last_clord,
            final(self).pre_replace == old(self).pre_replace,
            final(self).cancel_attempts == old(self).cancel_attempts,
            final(self).order_destination == old(self).order_destination,
            final(self).slots_to_reconsider == old(self).slots_to_reconsider,
            final(self).pending_orders == old(self).pending_orders,
            final(self).slots == old(self).slots,
    {
        self.submitted.insert(order_id, placed);
    }
}

} // verus!
