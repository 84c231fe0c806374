//! What the session knows from the venue, and what it says to its callers.

use crate::table::Table;
use crate::types::contract::{Contract, OrderTerms};
use crate::types::orders::{CancelReject, InstrumentId, OrderOp, OrderUpdate};
use std::sync::Arc;
use vstd::prelude::*;

verus! {

/// What a report of an attached order stated about it, empty where it stated
/// nothing.
#[derive(Debug, PartialEq)]
pub struct AttachedOrderMetadata {
    pub family_key: String,
    pub parent: String,
    pub use_parent_price: bool,
    /// The profit offset as the wire writes it.
    pub profit_offset: Option<String>,
    pub api_order_id: Option<i64>,
    pub api_client_id: Option<i32>,
}

/// What the venue says of an order it holds.
#[derive(Debug, PartialEq)]
pub struct OrderInfo {
    pub account: String,
    pub perm_id: i64,
    pub parent_id: i64,
    pub avg_price: i64,
}

/// What the session knows from the venue.
#[derive(Debug)]
pub struct Known {
    /// The features the logon turned on.
    pub features: Vec<String>,
    /// The currency on the venue's definition of each contract.
    pub currencies: Table<i64, String>,
    /// What the venue says of each order.
    pub orders: Table<u64, OrderInfo>,
    /// What reports of attached orders stated about them.
    pub attached: Table<u64, AttachedOrderMetadata>,
}

impl Known {
    /// A session that knows nothing yet.
    pub fn new() -> (known: Self)
        ensures
            known.features@.len() == 0,
            known.currencies@ == Map::<i64, String>::empty(),
            known.orders@ == Map::<u64, OrderInfo>::empty(),
            known.attached@ == Map::<u64, AttachedOrderMetadata>::empty(),
    {
        Known {
            features: Vec::new(),
            currencies: Table::new(),
            orders: Table::new(),
            attached: Table::new(),
        }
    }

    /// Whether the logon turned a feature on.
    pub open spec fn turned_on(self, feature: Seq<char>) -> bool {
        exists|i: int| 0 <= i < self.features@.len() && (#[trigger] self.features@[i])@ == feature
    }

    /// Whether the logon turned a feature on.
    pub fn enables(&self, feature: &str) -> (on: bool)
        ensures
            on == self.turned_on(feature@),
    {
        let mut at: usize = 0;
        while at < self.features.len()
            invariant
                at <= self.features@.len(),
                forall|i: int| 0 <= i < at ==> (#[trigger] self.features@[i])@ != feature@,
            decreases self.features@.len() - at,
        {
            if *self.features[at].as_str() == *feature {
                return true;
            }
            at = at + 1;
        }
        false
    }

    /// What the venue says of an order.
    pub open spec fn info(self, order_id: u64) -> Option<OrderInfo> {
        if self.orders@.dom().contains(order_id) {
            Some(self.orders@[order_id])
        } else {
            None
        }
    }
}

/// An order taken from its caller.
#[derive(Debug, PartialEq)]
pub struct TakenOrder {
    pub order_id: u64,
    pub contract: Arc<Contract>,
    pub order: Arc<OrderTerms>,
    pub instrument: InstrumentId,
    /// Whether it restates an order that is working.
    pub restated: bool,
}

/// Something said to a caller.
#[derive(Debug, PartialEq)]
#[allow(inconsistent_fields)]
pub enum Notice {
    /// An operation on an order did not happen, and the order stands as it was
    /// or was never placed.
    Inactive { order_id: u64, op: OrderOp, code: i32, text: String },
    /// Where an order stands.
    Update(OrderUpdate),
    /// A change that did not happen.
    CancelReject(CancelReject),
    /// An order went out to the venue.
    WentOut(u64),
    /// Something that belongs to no request.
    Session { code: i32, text: String },
    /// An operation on an order is refused, under its caller's number for it.
    OrderRefused { id: i64, op: OrderOp, code: i32, text: String },
    /// A request is refused, and ends.
    RequestRefused { req_id: i64, code: i32, text: String },
    /// Something about an order that happens anyway.
    OrderNotice { order_id: u64, op: OrderOp, code: i32, text: String },
    /// An order is taken: said ahead of anything the venue says about it.
    Taken(TakenOrder),
    /// An order never sent is forgotten.
    Forgotten(u64),
    /// A change never sent is forgotten, and its order stands.
    RevisionForgotten(u64),
    /// The caller's own number for an order never sent is free again.
    NumberForgotten(u64),
    /// Which family an order belongs to, and its caller's number for it.
    Attached {
        order_id: u64,
        family_key: Option<String>,
        api_order_id: i64,
        api_client_id: i32,
    },
}

/// What a notice says.
#[allow(inconsistent_fields)]
pub enum Said {
    Inactive { order_id: u64, op: OrderOp, code: i32, text: Seq<char> },
    Update(OrderUpdate),
    CancelReject(CancelReject),
    WentOut(u64),
    Session { code: i32, text: Seq<char> },
    OrderRefused { id: i64, op: OrderOp, code: i32, text: Seq<char> },
    RequestRefused { req_id: i64, code: i32, text: Seq<char> },
    OrderNotice { order_id: u64, op: OrderOp, code: i32, text: Seq<char> },
    Taken(TakenOrder),
    Forgotten(u64),
    RevisionForgotten(u64),
    NumberForgotten(u64),
    Attached {
        order_id: u64,
        family_key: Option<Seq<char>>,
        api_order_id: i64,
        api_client_id: i32,
    },
}

/// What a notice says.
pub open spec fn notice_says(notice: Notice) -> Said {
    match notice {
        Notice::Inactive { order_id, op, code, text } => Said::Inactive {
            order_id,
            op,
            code,
            text: text@,
        },
        Notice::Update(update) => Said::Update(update),
        Notice::CancelReject(reject) => Said::CancelReject(reject),
        Notice::WentOut(order_id) => Said::WentOut(order_id),
        Notice::Session { code, text } => Said::Session { code, text: text@ },
        Notice::OrderRefused { id, op, code, text } => Said::OrderRefused {
            id,
            op,
            code,
            text: text@,
        },
        Notice::RequestRefused { req_id, code, text } => Said::RequestRefused {
            req_id,
            code,
            text: text@,
        },
        Notice::OrderNotice { order_id, op, code, text } => Said::OrderNotice {
            order_id,
            op,
            code,
            text: text@,
        },
        Notice::Taken(taken) => Said::Taken(taken),
        Notice::Forgotten(order_id) => Said::Forgotten(order_id),
        Notice::RevisionForgotten(order_id) => Said::RevisionForgotten(order_id),
        Notice::NumberForgotten(order_id) => Said::NumberForgotten(order_id),
        Notice::Attached { order_id, family_key, api_order_id, api_client_id } => Said::Attached {
            order_id,
            family_key: match family_key {
                Some(key) => Some(key@),
                None => None,
            },
            api_order_id,
            api_client_id,
        },
    }
}

/// What a list of notices says.
pub open spec fn said(notices: Seq<Notice>) -> Seq<Said> {
    notices.map_values(|notice: Notice| notice_says(notice))
}

/// Say one more thing.
pub fn say(notices: &mut Vec<Notice>, notice: Notice)
    ensures
        said(final(notices)@) == said(old(notices)@).push(notice_says(notice)),
{
    notices.push(notice);
    proof {
        assert(said(notices@) =~= said(old(notices)@).push(notice_says(notice)));
    }
}

} // verus!
