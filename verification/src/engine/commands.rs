//! What a caller asks of the engine.

use crate::error_codes::Refusal;
use crate::types::attrs::OrderAttrs;
use crate::types::contract::{Contract, OrderTerms};
use crate::types::kinds::Side;
use crate::types::orders::{OrderCancel, OrderRequest};
use std::sync::Arc;
use vstd::prelude::*;

verus! {

/// An order to place, or to restate.
#[derive(Debug, PartialEq)]
pub struct Placement {
    pub order_id: u64,
    pub contract: Contract,
    pub order: OrderTerms,
    /// What a gateway says about an order it places anyway.
    pub warnings: Vec<Refusal>,
}

/// An option to exercise, or to let lapse.
#[derive(Debug, PartialEq)]
pub struct Exercise {
    /// The number its caller gave it, which every refusal of it is said under.
    pub req_id: i64,
    /// The number it goes out under.
    pub order_id: u64,
    /// Whether it is still to be given a number.
    pub unnumbered: bool,
    /// Whether its caller stated its number.
    pub stated: bool,
    pub contract: Contract,
    /// One to exercise, two to let lapse.
    pub action: u8,
    /// Whether it goes against the natural action.
    pub override_: bool,
    /// The quantity, scaled.
    pub qty: i64,
    /// The account it names, empty for the session's own.
    pub account: String,
    /// What else it states, as the instruction it goes out as carries it.
    pub states: Arc<OrderAttrs>,
}

/// An entry with its two exits.
#[derive(Debug, PartialEq)]
pub struct Bracket {
    pub parent_id: u64,
    pub contract: Contract,
    pub side: Side,
    /// The quantity and the prices, scaled.
    pub qty: i64,
    pub entry: i64,
    pub take_profit: i64,
    pub stop_loss: i64,
}

/// A contract as a market-data request names it.
#[derive(Debug, PartialEq)]
pub struct ContractRef {
    pub con_id: i64,
    pub symbol: String,
    pub exchange: String,
    pub sec_type: String,
    pub currency: String,
    pub last_trade_date: String,
    /// The strike as its shortest decimal.
    pub strike: String,
    pub right: String,
    pub multiplier: String,
}

/// What narrows the lookup of a contract, and says nothing of what it is.
#[derive(Debug, PartialEq)]
pub struct LookupFilters {
    pub primary_exchange: String,
    pub local_symbol: String,
    pub trading_class: String,
    pub sec_id_type: String,
    pub sec_id: String,
    pub issuer_id: String,
}

/// A question a model answers, kept until the venue states the model.
#[derive(Debug, PartialEq)]
pub struct Calculation {
    pub con_id: i64,
    pub wants_volatility: bool,
    /// The prices as the bits of their binary figures.
    pub option_price: u64,
    pub under_price: u64,
}

/// A request for a contract's market data.
#[derive(Debug, PartialEq)]
pub struct Subscription {
    pub req_id: i64,
    pub contract: ContractRef,
    pub filters: LookupFilters,
    /// What kind of data is asked for.
    pub mode: i32,
    pub delayed_mode: Option<i32>,
    pub frozen: bool,
    pub delayed_frozen: bool,
    /// Whether it is a snapshot the venue charges for.
    pub regulatory_snapshot: bool,
    pub snapshot: bool,
    /// The extra series it names.
    pub generic_ticks: Arc<Vec<u32>>,
    /// The providers it asks the contract's headlines of.
    pub news: Option<String>,
    /// The strategies it asks to be scanned for.
    pub spread_scan: Option<String>,
    pub calculation: Option<Calculation>,
}

/// What a caller asks of the engine.
#[derive(Debug, PartialEq)]
#[allow(inconsistent_fields)]
pub enum ControlCommand {
    Place(Box<Placement>),
    CancelOrder { order_id: u64, stated: OrderCancel },
    CancelOrderByPermId { perm_id: i64 },
    GlobalCancel { stated: OrderCancel },
    Exercise(Box<Exercise>),
    Bracket(Box<Bracket>),
    Subscribe(Box<Subscription>),
    Order(OrderRequest),
}

/// Whether a command is about orders as their callers place them.
pub open spec fn about_orders(cmd: ControlCommand) -> bool {
    !(cmd is Subscribe) && !(cmd is Order)
}

/// Take the order commands handled by intake, and give the others back as they
/// are.
pub fn order_command(cmd: ControlCommand) -> (taken: Result<ControlCommand, ControlCommand>)
    ensures
        taken == (if about_orders(cmd) {
            Ok::<ControlCommand, ControlCommand>(cmd)
        } else {
            Err::<ControlCommand, ControlCommand>(cmd)
        }),
{
    if matches!(cmd, ControlCommand::Subscribe(_) | ControlCommand::Order(_)) {
        Err(cmd)
    } else {
        Ok(cmd)
    }
}

/// A number where there is one.
pub open spec fn listed(number: Option<i64>) -> Seq<u64> {
    match number {
        Some(number) => seq![number as u64],
        None => Seq::empty(),
    }
}

impl ControlCommand {
    /// Whether the three numbers of a bracket are numbers an order has.
    pub open spec fn numbered(self) -> bool {
        self matches ControlCommand::Bracket(b) ==> b.parent_id <= i64::MAX - 2
    }

    /// The numbers the command acts on.
    pub open spec fn own_numbers(self) -> Seq<u64> {
        match self {
            ControlCommand::Place(p) => seq![p.order_id] + listed(p.order.pt_order_id) + listed(
                p.order.sl_order_id,
            ),
            ControlCommand::CancelOrder { order_id, .. } => seq![order_id],
            ControlCommand::Exercise(e) => if e.unnumbered {
                Seq::empty()
            } else {
                seq![e.order_id]
            },
            ControlCommand::Bracket(b) => seq![
                b.parent_id,
                (b.parent_id + 1) as u64,
                (b.parent_id + 2) as u64,
            ],
            _ => Seq::empty(),
        }
    }

    /// The order the command hangs from, where it hangs from one.
    pub open spec fn parent(self) -> Option<u64> {
        match self {
            ControlCommand::Place(p) => if p.order.parent_id > 0 {
                Some(p.order.parent_id as u64)
            } else {
                None
            },
            _ => None,
        }
    }

    /// The command's numbers and the parent it hangs from.
    pub open spec fn needs(self) -> Seq<u64> {
        match self.parent() {
            Some(parent) => self.own_numbers().push(parent),
            None => self.own_numbers(),
        }
    }

    /// The numbers the command acts on.
    pub fn own(&self) -> (ids: Vec<u64>)
        requires
            self.numbered(),
        ensures
            ids@ == self.own_numbers(),
    {
        let mut ids: Vec<u64> = Vec::new();
        match self {
            ControlCommand::Place(p) => {
                ids.push(p.order_id);
                match p.order.pt_order_id {
                    Some(id) => {
                        ids.push(id as u64);
                    },
                    None => {},
                }
                match p.order.sl_order_id {
                    Some(id) => {
                        ids.push(id as u64);
                    },
                    None => {},
                }
            },
            ControlCommand::CancelOrder { order_id, .. } => {
                ids.push(*order_id);
            },
            ControlCommand::Exercise(e) => {
                if !e.unnumbered {
                    ids.push(e.order_id);
                }
            },
            ControlCommand::Bracket(b) => {
                ids.push(b.parent_id);
                ids.push(b.parent_id + 1);
                ids.push(b.parent_id + 2);
            },
            _ => {},
        }
        proof {
            assert(ids@ =~= self.own_numbers());
        }
        ids
    }

    /// The command's numbers and the parent it hangs from.
    pub fn depends_on(&self) -> (ids: Vec<u64>)
        requires
            self.numbered(),
        ensures
            ids@ == self.needs(),
    {
        let mut ids: Vec<u64> = self.own();
        match self {
            ControlCommand::Place(p) => {
                if p.order.parent_id > 0 {
                    ids.push(p.order.parent_id as u64);
                }
            },
            _ => {},
        }
        ids
    }
}

/// An order command not yet taken, and what it waits for.
#[derive(Debug, PartialEq)]
pub struct Pending {
    pub cmd: ControlCommand,
    /// The lookup naming its contract, once one is out.
    pub lookup: Option<u32>,
    /// The watch an exercise opened on its option's standing in the money, by
    /// the engine's own number for it, while it waits for one.
    pub watch: Option<i64>,
    /// The number the order goes out under, once it has one.
    pub wire_id: Option<u64>,
    /// When it stops waiting for what is attached to it, in milliseconds.
    pub deadline: u64,
}

impl Pending {
    /// A command just admitted, which waits for nothing yet.
    pub fn new(cmd: ControlCommand, deadline: u64) -> (pending: Self)
        ensures
            pending == (Pending { cmd, lookup: None, watch: None, wire_id: None, deadline }),
    {
        Pending { cmd, lookup: None, watch: None, wire_id: None, deadline }
    }
}

} // verus!
