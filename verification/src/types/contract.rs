//! A contract as a caller names it, and an order as its caller states it.

use crate::text::{decimal, int_text, joined};
use crate::types::attrs::{
    shared_copy, ComboLegSpec, DeltaNeutralContractSpec, OrderCondition, Standing,
};
use std::sync::Arc;
use vstd::prelude::*;

verus! {

/// A contract as a caller names it.
#[derive(Debug, PartialEq)]
pub struct Contract {
    /// The venue's number for it, nought until it is named.
    pub con_id: i64,
    pub symbol: String,
    pub sec_type: String,
    pub exchange: String,
    pub currency: String,
    pub last_trade_date_or_contract_month: String,
    /// The strike as its shortest decimal.
    pub strike: String,
    pub right: String,
    pub multiplier: String,
    /// What a caller described it by, whole: two contracts described alike are
    /// named by one lookup.
    pub description: String,
    pub combo_legs: Arc<Vec<ComboLegSpec>>,
    pub delta_neutral_contract: Option<Arc<DeltaNeutralContractSpec>>,
}

impl Clone for Contract {
    fn clone(&self) -> (copy: Self)
        ensures
            copy == *self,
    {
        Contract {
            con_id: self.con_id,
            symbol: self.symbol.clone(),
            sec_type: self.sec_type.clone(),
            exchange: self.exchange.clone(),
            currency: self.currency.clone(),
            last_trade_date_or_contract_month: self.last_trade_date_or_contract_month.clone(),
            strike: self.strike.clone(),
            right: self.right.clone(),
            multiplier: self.multiplier.clone(),
            description: self.description.clone(),
            combo_legs: self.combo_legs.clone(),
            delta_neutral_contract: shared_copy(&self.delta_neutral_contract),
        }
    }
}

impl Default for Contract {
    fn default() -> (r: Self)
        ensures
            r.con_id == 0,
            r.symbol@.len() == 0,
            r.sec_type@.len() == 0,
            r.exchange@.len() == 0,
            r.currency@.len() == 0,
            r.last_trade_date_or_contract_month@.len() == 0,
            r.strike@.len() == 0,
            r.right@.len() == 0,
            r.multiplier@.len() == 0,
            r.description@.len() == 0,
            r.combo_legs@.len() == 0,
            r.delta_neutral_contract is None,
    {
        Contract {
            con_id: 0,
            symbol: String::new(),
            sec_type: String::new(),
            exchange: String::new(),
            currency: String::new(),
            last_trade_date_or_contract_month: String::new(),
            strike: String::new(),
            right: String::new(),
            multiplier: String::new(),
            description: String::new(),
            combo_legs: Arc::new(Vec::new()),
            delta_neutral_contract: None,
        }
    }
}

/// Whether a security type names a combination.
pub open spec fn names_a_combination(sec_type: Seq<char>) -> bool {
    sec_type == "BAG"@ || sec_type == "COMB"@ || sec_type == "COMBO"@
}

impl Contract {
    /// What a lookup of the contract is shared under: the venue's number for
    /// it, or what it was described by.
    pub open spec fn naming_key(self) -> Seq<char> {
        if self.con_id == 0 {
            self.description@
        } else {
            "conId:"@ + decimal(self.con_id as int)
        }
    }

    /// What a lookup of the contract is shared under.
    pub fn naming_key_text(&self) -> (key: String)
        ensures
            key@ == self.naming_key(),
    {
        if self.con_id == 0 {
            self.description.clone()
        } else {
            joined("conId:", int_text(self.con_id).as_str())
        }
    }

    /// Whether it is a combination.
    pub open spec fn combination(self) -> bool {
        names_a_combination(self.sec_type@)
    }

    /// Whether it is a combination.
    pub fn is_combination(&self) -> (r: bool)
        ensures
            r == self.combination(),
    {
        let sec_type: &str = self.sec_type.as_str();
        *sec_type == *"BAG" || *sec_type == *"COMB" || *sec_type == *"COMBO"
    }

    /// The contract as the venue named it, with the hedge and the legs its
    /// caller stated beside it.
    pub open spec fn with_what_was_stated(self, stated: Contract) -> Contract {
        Contract {
            delta_neutral_contract: stated.delta_neutral_contract,
            combo_legs: if stated.combo_legs@.len() > 0 {
                stated.combo_legs
            } else {
                self.combo_legs
            },
            ..self
        }
    }
}

/// An order as its caller states it: what the engine reads of it.
#[derive(Debug, PartialEq)]
pub struct OrderTerms {
    pub order_id: i64,
    pub client_id: i32,
    pub action: String,
    pub order_type: String,
    /// The quantity, scaled.
    pub qty: i64,
    /// The limit, scaled.
    pub lmt_price: i64,
    /// The trigger or the offset, scaled.
    pub aux_price: i64,
    pub tif: String,
    /// The order it hangs from, nought for none.
    pub parent_id: i64,
    /// The profit taker it asks to be attached, by number.
    pub pt_order_id: Option<i64>,
    /// The stop it asks to be attached, by number.
    pub sl_order_id: Option<i64>,
    /// Whether it asks for orders to be attached to it.
    pub attaches: bool,
    pub oca_group: String,
    pub oca_type: i32,
    /// Whether it goes now.
    pub transmit: bool,
    /// Whether it is a preview.
    pub what_if: bool,
    pub outside_rth: bool,
    pub conditions: Arc<Vec<OrderCondition>>,
    pub conditions_include_overnight: bool,
    /// Whether it is a ladder of components.
    pub is_scale: bool,
    pub scale_profit_offset: Standing,
    /// The type and the time in force it is tracked under.
    pub ord_type: u8,
    pub tif_byte: u8,
    /// The price and the trigger a replacement of it states, scaled.
    pub replace_price: i64,
    pub replace_trigger: i64,
}

impl Clone for OrderTerms {
    fn clone(&self) -> (copy: Self)
        ensures
            copy == *self,
    {
        OrderTerms {
            order_id: self.order_id,
            client_id: self.client_id,
            action: self.action.clone(),
            order_type: self.order_type.clone(),
            qty: self.qty,
            lmt_price: self.lmt_price,
            aux_price: self.aux_price,
            tif: self.tif.clone(),
            parent_id: self.parent_id,
            pt_order_id: self.pt_order_id,
            sl_order_id: self.sl_order_id,
            attaches: self.attaches,
            oca_group: self.oca_group.clone(),
            oca_type: self.oca_type,
            transmit: self.transmit,
            what_if: self.what_if,
            outside_rth: self.outside_rth,
            conditions: self.conditions.clone(),
            conditions_include_overnight: self.conditions_include_overnight,
            is_scale: self.is_scale,
            scale_profit_offset: self.scale_profit_offset,
            ord_type: self.ord_type,
            tif_byte: self.tif_byte,
            replace_price: self.replace_price,
            replace_trigger: self.replace_trigger,
        }
    }
}

impl Default for OrderTerms {
    /// An order that states nothing and goes now.
    fn default() -> (r: Self)
        ensures
            r.order_id == 0,
            r.client_id == 0,
            r.action@.len() == 0,
            r.order_type@.len() == 0,
            r.qty == 0,
            r.lmt_price == 0,
            r.aux_price == 0,
            r.tif@.len() == 0,
            r.parent_id == 0,
            r.pt_order_id is None,
            r.sl_order_id is None,
            !r.attaches,
            r.oca_group@.len() == 0,
            r.oca_type == 0,
            r.transmit,
            !r.what_if,
            !r.outside_rth,
            r.conditions@.len() == 0,
            !r.conditions_include_overnight,
            !r.is_scale,
            r.scale_profit_offset is Unset,
            r.ord_type == 0,
            r.tif_byte == 0,
            r.replace_price == 0,
            r.replace_trigger == 0,
    {
        OrderTerms {
            order_id: 0,
            client_id: 0,
            action: String::new(),
            order_type: String::new(),
            qty: 0,
            lmt_price: 0,
            aux_price: 0,
            tif: String::new(),
            parent_id: 0,
            pt_order_id: None,
            sl_order_id: None,
            attaches: false,
            oca_group: String::new(),
            oca_type: 0,
            transmit: true,
            what_if: false,
            outside_rth: false,
            conditions: Arc::new(Vec::new()),
            conditions_include_overnight: false,
            is_scale: false,
            scale_profit_offset: Standing::Unset,
            ord_type: 0,
            tif_byte: 0,
            replace_price: 0,
            replace_trigger: 0,
        }
    }
}

} // verus!
