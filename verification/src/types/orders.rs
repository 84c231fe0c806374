//! Orders, the requests made about them, and what is said of them.

use crate::types::attrs::OrderAttrs;
use crate::types::kinds::{OrderKind, Side};
use vstd::prelude::*;

verus! {

pub const ORD_MARKET: u8 = 49;

pub const ORD_LIMIT: u8 = 50;

pub const ORD_STOP: u8 = 51;

pub const ORD_STOP_LIMIT: u8 = 52;

pub const ORD_MOC: u8 = 53;

pub const ORD_LOC: u8 = 66;

pub const ORD_MIT: u8 = 74;

pub const ORD_MTL: u8 = 75;

/// The name trailing, relative and pegged orders share.
pub const ORD_PEGGED: u8 = 80;

/// The name a trailing stop has of its own, where the venue takes it.
pub const ORD_TRAIL: u8 = 84;

pub const ORD_MKT_PRT: u8 = 85;

/// The types whose name on the wire is not one character, or is shared, are
/// held under numbers of their own.
pub const ORD_LIT: u8 = 128;

pub const ORD_STP_PRT: u8 = 129;

pub const ORD_TRAIL_LIMIT: u8 = 130;

pub const ORD_PEG_MKT: u8 = 131;

pub const ORD_PEG_MID: u8 = 132;

pub const ORD_PEG_BENCH: u8 = 133;

pub const ORD_SNAP_MKT: u8 = 134;

pub const ORD_SNAP_MID: u8 = 135;

pub const ORD_SNAP_PRI: u8 = 136;

pub const ORD_PASSV_REL: u8 = 137;

pub const ORD_PEG_BEST: u8 = 138;

pub const ORD_MIDPX: u8 = 139;

/// A day order.
pub const TIF_DAY: u8 = 48;

/// An order good till it is cancelled.
pub const TIF_GTC: u8 = 49;

/// No time in force is known.
pub const TIF_UNSTATED: u8 = 0;

/// The slot a contract is held on.
pub type InstrumentId = u32;

/// The text of one byte, or a nought where the byte is no character of its own.
pub open spec fn byte_text(byte: u8) -> Seq<char> {
    if byte < 128 {
        seq![byte as char]
    } else {
        "0"@
    }
}

/// The text of one byte.
pub fn byte_as_text(byte: u8) -> (text: String)
    ensures
        text@ == byte_text(byte),
{
    if byte < 128 {
        let mut text: String = String::new();
        text.push(byte as char);
        proof {
            assert(text@ =~= seq![byte as char]);
        }
        text
    } else {
        "0".to_owned()
    }
}

/// The name a tracked type goes out under on the wire.
pub open spec fn ord_type_name(ord_type: u8) -> Seq<char> {
    if ord_type == ORD_LIT {
        "LT"@
    } else if ord_type == ORD_STP_PRT {
        "SP"@
    } else if ord_type == ORD_TRAIL_LIMIT {
        "TSL"@
    } else if ord_type == ORD_PEG_MKT || ord_type == ORD_PEG_MID {
        "P"@
    } else if ord_type == ORD_PEG_BENCH {
        "PB"@
    } else if ord_type == ORD_SNAP_MKT {
        "SMKT"@
    } else if ord_type == ORD_SNAP_MID {
        "SMID"@
    } else if ord_type == ORD_SNAP_PRI {
        "SREL"@
    } else if ord_type == ORD_PASSV_REL {
        "PSVR"@
    } else if ord_type == ORD_PEG_BEST {
        "E2M"@
    } else if ord_type == ORD_MIDPX {
        "MIDPX"@
    } else {
        byte_text(ord_type)
    }
}

/// The name a tracked type goes out under.
pub fn ord_type_fix_str(ord_type: u8) -> (name: String)
    ensures
        name@ == ord_type_name(ord_type),
{
    if ord_type == ORD_LIT {
        "LT".to_owned()
    } else if ord_type == ORD_STP_PRT {
        "SP".to_owned()
    } else if ord_type == ORD_TRAIL_LIMIT {
        "TSL".to_owned()
    } else if ord_type == ORD_PEG_MKT || ord_type == ORD_PEG_MID {
        "P".to_owned()
    } else if ord_type == ORD_PEG_BENCH {
        "PB".to_owned()
    } else if ord_type == ORD_SNAP_MKT {
        "SMKT".to_owned()
    } else if ord_type == ORD_SNAP_MID {
        "SMID".to_owned()
    } else if ord_type == ORD_SNAP_PRI {
        "SREL".to_owned()
    } else if ord_type == ORD_PASSV_REL {
        "PSVR".to_owned()
    } else if ord_type == ORD_PEG_BEST {
        "E2M".to_owned()
    } else if ord_type == ORD_MIDPX {
        "MIDPX".to_owned()
    } else {
        byte_as_text(ord_type)
    }
}

/// The tracked type a name on the wire reads as, with the instruction beside
/// it: the instruction is what tells the pegs apart.
pub open spec fn named_ord_type(name: Seq<char>, instruction: Seq<char>) -> u8 {
    if name == "P"@ && instruction == "P"@ {
        ORD_PEG_MKT
    } else if name == "P"@ && instruction == "M"@ {
        ORD_PEG_MID
    } else if name == "LT"@ {
        ORD_LIT
    } else if name == "SP"@ {
        ORD_STP_PRT
    } else if name == "TSL"@ {
        ORD_TRAIL_LIMIT
    } else if name == "PB"@ {
        ORD_PEG_BENCH
    } else if name == "SMKT"@ {
        ORD_SNAP_MKT
    } else if name == "SMID"@ {
        ORD_SNAP_MID
    } else if name == "SREL"@ {
        ORD_SNAP_PRI
    } else if name == "PSVR"@ {
        ORD_PASSV_REL
    } else if name == "E2M"@ {
        ORD_PEG_BEST
    } else if name == "MIDPX"@ {
        ORD_MIDPX
    } else if name == "PMID2"@ {
        ORD_PEG_MID
    } else if name.len() == 1 && (name[0] as u32) < 128 {
        name[0] as u8
    } else {
        0
    }
}

/// The tracked type a name on the wire reads as.
pub fn ord_type_from_fix(name: &str, instruction: &str) -> (ord_type: u8)
    ensures
        ord_type == named_ord_type(name@, instruction@),
{
    if *name == *"P" && *instruction == *"P" {
        ORD_PEG_MKT
    } else if *name == *"P" && *instruction == *"M" {
        ORD_PEG_MID
    } else if *name == *"LT" {
        ORD_LIT
    } else if *name == *"SP" {
        ORD_STP_PRT
    } else if *name == *"TSL" {
        ORD_TRAIL_LIMIT
    } else if *name == *"PB" {
        ORD_PEG_BENCH
    } else if *name == *"SMKT" {
        ORD_SNAP_MKT
    } else if *name == *"SMID" {
        ORD_SNAP_MID
    } else if *name == *"SREL" {
        ORD_SNAP_PRI
    } else if *name == *"PSVR" {
        ORD_PASSV_REL
    } else if *name == *"E2M" {
        ORD_PEG_BEST
    } else if *name == *"MIDPX" {
        ORD_MIDPX
    } else if *name == *"PMID2" {
        ORD_PEG_MID
    } else if name.unicode_len() == 1 {
        let only: char = name.get_char(0);
        if (only as u32) < 128 {
            only as u8
        } else {
            0
        }
    } else {
        0
    }
}

/// Where an order stands.
#[derive(Clone, Copy, Debug, PartialEq, Eq, Structural)]
pub enum OrderStatus {
    PendingSubmit,
    Submitted,
    PartiallyFilled,
    PendingCancel,
    PendingReplace,
    Filled,
    Cancelled,
    Rejected,
    /// Nothing here knows what the venue holds.
    Uncertain,
}

impl OrderStatus {
    /// Whether the order is finished with.
    pub open spec fn terminal(self) -> bool {
        self is Filled || self is Cancelled || self is Rejected
    }

    pub fn is_terminal(&self) -> (terminal: bool)
        ensures
            terminal == self.terminal(),
    {
        matches!(self, OrderStatus::Filled | OrderStatus::Cancelled | OrderStatus::Rejected)
    }
}

/// An order as the engine tracks it.
#[derive(Clone, Copy, Debug, PartialEq, Eq, Structural)]
pub struct Order {
    pub order_id: u64,
    pub instrument: InstrumentId,
    pub side: Side,
    pub price: i64,
    pub qty: i64,
    pub filled: i64,
    pub status: OrderStatus,
    pub ord_type: u8,
    pub tif: u8,
    pub stop_price: i64,
}

impl Order {
    /// An order on its way to the venue, with nothing filled.
    pub fn new(
        order_id: u64,
        instrument: InstrumentId,
        side: Side,
        qty: i64,
        price: i64,
        ord_type: u8,
        tif: u8,
        stop_price: i64,
    ) -> (order: Self)
        ensures
            order == (Order {
                order_id,
                instrument,
                side,
                price,
                qty,
                filled: 0,
                status: OrderStatus::PendingSubmit,
                ord_type,
                tif,
                stop_price,
            }),
    {
        Order {
            order_id,
            instrument,
            side,
            price,
            qty,
            filled: 0,
            status: OrderStatus::PendingSubmit,
            ord_type,
            tif,
            stop_price,
        }
    }
}

/// An order stated whole: its shape and everything it carries.
#[derive(Debug, PartialEq)]
pub struct OrderSpec {
    pub kind: OrderKind,
    pub attrs: OrderAttrs,
}

/// What a withdrawal states about itself.
#[derive(Debug, PartialEq)]
pub struct OrderCancel {
    pub ext_operator: String,
    /// One or nought where a person did or did not enter it by hand.
    pub manual_order_indicator: i32,
    pub manual_order_cancel_time: String,
}

impl Default for OrderCancel {
    /// A withdrawal that states nothing about itself.
    fn default() -> (r: Self)
        ensures
            r.ext_operator@.len() == 0,
            r.manual_order_indicator == i32::MAX,
            r.manual_order_cancel_time@.len() == 0,
    {
        OrderCancel {
            ext_operator: String::new(),
            manual_order_indicator: i32::MAX,
            manual_order_cancel_time: String::new(),
        }
    }
}

impl Clone for OrderCancel {
    fn clone(&self) -> (copy: Self)
        ensures
            copy == *self,
    {
        OrderCancel {
            ext_operator: self.ext_operator.clone(),
            manual_order_indicator: self.manual_order_indicator,
            manual_order_cancel_time: self.manual_order_cancel_time.clone(),
        }
    }
}

/// An instruction about orders, waiting to be sent.
#[derive(Debug, PartialEq)]
#[allow(inconsistent_fields)]
pub enum OrderRequest {
    SubmitEx {
        order_id: u64,
        instrument: InstrumentId,
        con_id: i64,
        side: Side,
        qty: i64,
        kind: OrderKind,
        tif: u8,
        attrs: OrderAttrs,
    },
    SubmitBracket {
        con_id: i64,
        parent_id: u64,
        tp_id: u64,
        sl_id: u64,
        instrument: InstrumentId,
        side: Side,
        qty: i64,
        entry_price: i64,
        take_profit: i64,
        stop_loss: i64,
    },
    Cancel { order_id: u64, stated: OrderCancel },
    CancelAll { instrument: InstrumentId, stated: OrderCancel },
    GlobalCancel { instruments: Vec<InstrumentId>, stated: OrderCancel },
    Modify {
        order_id: u64,
        price: i64,
        qty: i64,
        outside_rth: bool,
        ord_type: u8,
        tif: u8,
        stop_price: i64,
        spec: Option<Box<OrderSpec>>,
    },
}

impl OrderRequest {
    /// The order a request is addressed by, nought where it names none.
    pub open spec fn id(self) -> u64 {
        match self {
            OrderRequest::SubmitEx { order_id, .. } => order_id,
            OrderRequest::SubmitBracket { parent_id, .. } => parent_id,
            OrderRequest::Cancel { order_id, .. } => order_id,
            OrderRequest::Modify { order_id, .. } => order_id,
            OrderRequest::CancelAll { .. } => 0,
            OrderRequest::GlobalCancel { .. } => 0,
        }
    }

    /// Every order a request names.
    pub open spec fn ids(self) -> Seq<u64> {
        match self {
            OrderRequest::SubmitBracket { parent_id, tp_id, sl_id, .. } => seq![
                parent_id,
                tp_id,
                sl_id,
            ],
            OrderRequest::CancelAll { .. } => Seq::empty(),
            OrderRequest::GlobalCancel { .. } => Seq::empty(),
            _ => seq![self.id()],
        }
    }

    /// Whether a request would place an order, rather than act on one that is
    /// working.
    pub open spec fn places(self) -> bool {
        self is SubmitEx || self is SubmitBracket
    }

    pub fn order_id(&self) -> (id: u64)
        ensures
            id == self.id(),
    {
        match self {
            OrderRequest::SubmitEx { order_id, .. } => *order_id,
            OrderRequest::SubmitBracket { parent_id, .. } => *parent_id,
            OrderRequest::Cancel { order_id, .. } => *order_id,
            OrderRequest::Modify { order_id, .. } => *order_id,
            OrderRequest::CancelAll { .. } => 0,
            OrderRequest::GlobalCancel { .. } => 0,
        }
    }

    pub fn order_ids(&self) -> (ids: Vec<u64>)
        ensures
            ids@ == self.ids(),
    {
        let mut ids: Vec<u64> = Vec::new();
        match self {
            OrderRequest::SubmitBracket { parent_id, tp_id, sl_id, .. } => {
                ids.push(*parent_id);
                ids.push(*tp_id);
                ids.push(*sl_id);
            },
            OrderRequest::CancelAll { .. } => {},
            OrderRequest::GlobalCancel { .. } => {},
            _ => {
                ids.push(self.order_id());
            },
        }
        proof {
            assert(ids@ =~= self.ids());
        }
        ids
    }

    pub fn places_the_order(&self) -> (places: bool)
        ensures
            places == self.places(),
    {
        matches!(self, OrderRequest::SubmitEx { .. } | OrderRequest::SubmitBracket { .. })
    }
}

/// What an operation on an order was.
#[derive(Clone, Copy, Debug, PartialEq, Eq, Structural)]
pub enum OrderOp {
    Place,
    Modify,
    Cancel,
    Exercise,
}

/// Where an order stands, as it is announced.
#[derive(Clone, Copy, Debug, PartialEq, Eq, Structural)]
pub struct OrderUpdate {
    pub order_id: u64,
    pub instrument: InstrumentId,
    pub status: OrderStatus,
    pub filled_qty: i64,
    pub remaining_qty: i64,
    pub avg_price: i64,
    pub perm_id: i64,
    pub parent_id: i64,
    pub timestamp_ns: u64,
}

/// A change or a withdrawal that did not happen.
#[derive(Clone, Copy, Debug, PartialEq, Eq, Structural)]
pub struct CancelReject {
    pub order_id: u64,
    pub instrument: InstrumentId,
    /// Two for a change.
    pub reject_type: u8,
    /// The venue's reason, or -1 where the venue was never asked.
    pub reason_code: i32,
    pub still_working: Option<OrderStatus>,
    pub answers_a_live_change: bool,
    pub timestamp_ns: u64,
}

} // verus!
