//! What the venue's book of orders says.

use crate::table::Table;
use vstd::prelude::*;

verus! {

/// What the venue's book of orders says.
#[derive(Debug)]
pub struct Book {
    /// The orders the venue has finished with.
    pub finished: Vec<u64>,
    /// The orders the venue is working.
    pub working: Vec<u64>,
    /// Whether the venue named the account's working orders whole; nothing
    /// while it is still naming them.
    pub replay: Option<bool>,
    /// Whether the venue began naming them.
    pub naming_began: bool,
    /// The number each of the caller's own numbers goes out under.
    pub wire_numbers: Table<i64, u64>,
    /// Each open order with the venue's own number for it.
    pub open_orders: Vec<(u64, i64)>,
    /// The order each of the venue's names was learned for.
    pub names: Table<u64, u64>,
    /// The orders waiting for what is attached to them.
    pub waiting_attached: Vec<u64>,
    /// The highest number used by this client.
    pub highest_used: u64,
    /// The caller's own client number.
    pub client_id: i32,
}

/// Whether a list holds a number.
pub fn holds(list: &Vec<u64>, number: u64) -> (held: bool)
    ensures
        held == list@.contains(number),
{
    let mut at: usize = 0;
    while at < list.len()
        invariant
            at <= list@.len(),
            forall|i: int| 0 <= i < at ==> list@[i] != number,
        decreases list@.len() - at,
    {
        if list[at] == number {
            return true;
        }
        at = at + 1;
    }
    false
}

impl Book {
    /// A book that says nothing yet.
    pub fn new() -> (book: Self)
        ensures
            book.finished@.len() == 0,
            book.working@.len() == 0,
            book.replay is None,
            !book.naming_began,
            book.wire_numbers@ == Map::<i64, u64>::empty(),
            book.open_orders@.len() == 0,
            book.names@ == Map::<u64, u64>::empty(),
            book.waiting_attached@.len() == 0,
            book.highest_used == 0,
            book.client_id == 0,
    {
        Book {
            finished: Vec::new(),
            working: Vec::new(),
            replay: None,
            naming_began: false,
            wire_numbers: Table::new(),
            open_orders: Vec::new(),
            names: Table::new(),
            waiting_attached: Vec::new(),
            highest_used: 0,
            client_id: 0,
        }
    }

    /// Whether the venue has finished with an order.
    pub open spec fn has_finished(self, order_id: u64) -> bool {
        self.finished@.contains(order_id)
    }

    /// Whether the venue has finished with an order.
    pub fn number_finished(&self, order_id: u64) -> (finished: bool)
        ensures
            finished == self.has_finished(order_id),
    {
        holds(&self.finished, order_id)
    }

    /// Whether the venue is working an order.
    pub fn venue_is_working(&self, order_id: u64) -> (working: bool)
        ensures
            working == self.working@.contains(order_id),
    {
        holds(&self.working, order_id)
    }

    /// Whether an order waits for what is attached to it.
    pub fn is_waiting_attached(&self, order_id: u64) -> (waiting: bool)
        ensures
            waiting == self.waiting_attached@.contains(order_id),
    {
        holds(&self.waiting_attached, order_id)
    }

    /// The number one of the caller's own goes out under: that number itself
    /// where it has no other.
    pub open spec fn wire_number(self, order_id: u64) -> u64 {
        if self.wire_numbers@.dom().contains(order_id as i64) {
            self.wire_numbers@[order_id as i64]
        } else {
            order_id
        }
    }

    /// The number one of the caller's own goes out under.
    pub fn wire_order_id(&self, order_id: u64) -> (wire: u64)
        ensures
            wire == self.wire_number(order_id),
    {
        match self.wire_numbers.get(&(order_id as i64)) {
            Some(wire) => *wire,
            None => order_id,
        }
    }
}

} // verus!
