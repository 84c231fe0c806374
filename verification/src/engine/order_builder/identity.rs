//! The contract an order is on, as its message names it.

use crate::engine::context::{Context, OrderIdentity, StrikeReads};
use crate::engine::known::Known;
use crate::engine::order_builder::fields::{
    also, also_named, put, put_named, put_str, stated, Stated,
};
use crate::text::{
    all_digits, decimal, int_text, joined3, small_letters, small_text,
};
use crate::types::orders::InstrumentId;
use vstd::prelude::*;

verus! {

/// Why an order is not sent where its slot holds another contract.
pub open spec fn slot_refusal(con_id: i64, holds: i64) -> Seq<char> {
    "this order names contract "@ + decimal(con_id as int)
        + " and the place it was given now holds "@ + decimal(holds as int)
        + ", so it was not sent: ask for the contract again and place it afresh"@
}

/// Why an order naming a contract cannot go out on a slot: the slot holds a
/// contract of another number. A caller that named none states nothing to
/// hold against it, and a slot with none registered is no disagreement.
pub open spec fn slot_disagrees(context: Context, instrument: InstrumentId, con_id: i64) -> Option<
    Seq<char>,
> {
    match context.con_id(instrument) {
        Some(holds) => if con_id != 0 && holds != con_id {
            Some(slot_refusal(con_id, holds))
        } else {
            None
        },
        None => None,
    }
}

/// Whether the slot a request names still holds the contract its caller meant,
/// and why not where it does not.
pub fn the_slot_is_not_that_contract(
    context: &Context,
    instrument: InstrumentId,
    con_id: i64,
) -> (refusal: Option<String>)
    ensures
        refusal is Some <==> slot_disagrees(*context, instrument, con_id) is Some,
        refusal matches Some(text) ==> slot_disagrees(*context, instrument, con_id) == Some(text@),
{
    if con_id == 0 {
        return None;
    }
    match context.con_id_of(instrument) {
        Some(holds) => {
            if holds == con_id {
                return None;
            }
            let named: String = joined3(
                "this order names contract ",
                int_text(con_id).as_str(),
                " and the place it was given now holds ",
            );
            Some(
                joined3(
                    named.as_str(),
                    int_text(holds).as_str(),
                    ", so it was not sent: ask for the contract again and place it afresh",
                ),
            )
        },
        None => None,
    }
}

/// The currency an order states for a contract: its caller's own, or the one
/// on the venue's definition of it, or none.
pub open spec fn currency_stated(
    context: Context,
    known: Known,
    instrument: InstrumentId,
) -> Seq<char> {
    match context.slot(instrument) {
        Some(slot) => match slot.currency {
            Some(currency) => currency@,
            None => match slot.con_id {
                Some(con_id) => if known.currencies@.dom().contains(con_id) {
                    known.currencies@[con_id]@
                } else {
                    Seq::empty()
                },
                None => Seq::empty(),
            },
        },
        None => Seq::empty(),
    }
}

/// The currency an order states for a contract.
pub fn currency_for(context: &Context, known: &Known, instrument: InstrumentId) -> (currency:
    String)
    ensures
        currency@ == currency_stated(*context, *known, instrument),
{
    match context.slot_of(instrument) {
        Some(slot) => match &slot.currency {
            Some(currency) => currency.clone(),
            None => match slot.con_id {
                Some(con_id) => match known.currencies.get(&con_id) {
                    Some(currency) => currency.clone(),
                    None => String::new(),
                },
                None => String::new(),
            },
        },
        None => String::new(),
    }
}

/// The tag an expiry goes on: the month of a contract as six digits on one, a
/// full date as eight on the other.
pub open spec fn expiry_tag(expiry: Seq<char>) -> Option<u32> {
    if !all_digits(expiry) {
        None
    } else if expiry.len() == 6 {
        Some(200)
    } else if expiry.len() == 8 {
        Some(541)
    } else {
        None
    }
}

fn only_digits(text: &str) -> (r: bool)
    ensures
        r == all_digits(text@),
{
    let length: usize = text.unicode_len();
    if length == 0 {
        return false;
    }
    let mut at: usize = 0;
    while at < length
        invariant
            length == text@.len(),
            at <= length,
            forall|i: int| 0 <= i < at ==> '0' <= #[trigger] text@[i] <= '9',
        decreases length - at,
    {
        let c: char = text.get_char(at);
        if !('0' <= c && c <= '9') {
            return false;
        }
        at = at + 1;
    }
    true
}

/// The tag an expiry goes on.
pub fn maturity_tag(expiry: &str) -> (tag: Option<u32>)
    ensures
        tag == expiry_tag(expiry@),
{
    if !only_digits(expiry) {
        return None;
    }
    let length: usize = expiry.unicode_len();
    if length == 6 {
        Some(200)
    } else if length == 8 {
        Some(541)
    } else {
        None
    }
}

/// The kinds of contract that an order names by their local symbol.
pub open spec fn named_by_local_symbol(sec_type: Seq<char>) -> bool {
    sec_type == "FUT"@ || sec_type == "FWD"@ || sec_type == "IND"@ || sec_type == "BOND"@
        || sec_type == "CFD"@ || sec_type == "CRYPTO"@ || sec_type == "WAR"@
}

/// The kinds of contract that state a contract month.
pub open spec fn states_contract_month(sec_type: Seq<char>) -> bool {
    sec_type == "FUT"@ || sec_type == "FWD"@ || sec_type == "WAR"@
}

/// The code of an option's right: one for a call and nought for a put.
pub open spec fn right_code(right: Seq<char>) -> Option<Seq<char>> {
    let name = small_letters(right);
    if name == "c"@ || name == "call"@ || name == "1"@ {
        Some("1"@)
    } else if name == "p"@ || name == "put"@ || name == "0"@ {
        Some("0"@)
    } else {
        None
    }
}

fn right_of(right: &str) -> (code: Option<&'static str>)
    ensures
        code is Some <==> right_code(right@) is Some,
        code matches Some(text) ==> right_code(right@) == Some(text@),
{
    let name: String = small_text(right);
    let name: &str = name.as_str();
    if *name == *"c" || *name == *"call" || *name == *"1" {
        Some("1")
    } else if *name == *"p" || *name == *"put" || *name == *"0" {
        Some("0")
    } else {
        None
    }
}

/// What tells the contract apart, as an order on a kind of contract states it.
pub open spec fn identity_terms(f: Stated, identity: OrderIdentity, sec_type: Seq<char>) -> Stated {
    let by_local_symbol = named_by_local_symbol(sec_type);
    let f = if states_contract_month(sec_type) || !by_local_symbol {
        match expiry_tag(identity.expiry@) {
            Some(tag) => f.push((tag, identity.expiry@)),
            None => f,
        }
    } else {
        f
    };
    let f = if by_local_symbol {
        if identity.local_symbol@.len() > 0 {
            f.push((48, identity.local_symbol@)).push((22, "101"@))
        } else {
            f
        }
    } else {
        also_named(also_named(f, 6058, identity.trading_class@), 6035, identity.local_symbol@)
    };
    let f = also(f, identity.strike_reads is Above, 202, identity.strike@);
    let f = match right_code(identity.right@) {
        Some(code) => f.push((201, code)),
        None => f,
    };
    also_named(f, 231, identity.multiplier@)
}

/// The contract an order is on: its number where one is known, the attached
/// family's own ahead of the slot's, and then what tells it apart.
pub open spec fn identity_fields(
    f: Stated,
    context: Context,
    instrument: InstrumentId,
    attached_contract_id: Option<i64>,
) -> Stated {
    let con_id = match attached_contract_id {
        Some(con_id) => Some(con_id),
        None => context.con_id(instrument),
    };
    let f = match con_id {
        Some(con_id) => also(f, con_id != 0, 6008, decimal(con_id as int)),
        None => f,
    };
    match context.slot(instrument) {
        Some(slot) => match slot.identity {
            Some(identity) => identity_terms(f, identity, slot.sec_type@),
            None => f,
        },
        None => f,
    }
}

fn push_identity_terms(
    fields: &mut Vec<(u32, String)>,
    identity: &OrderIdentity,
    sec_type: &str,
)
    ensures
        stated(final(fields)@) == identity_terms(stated(old(fields)@), *identity, sec_type@),
{
    let by_month: bool = *sec_type == *"FUT" || *sec_type == *"FWD" || *sec_type == *"WAR";
    let by_local_symbol: bool = by_month || *sec_type == *"IND" || *sec_type == *"BOND"
        || *sec_type == *"CFD" || *sec_type == *"CRYPTO";
    if by_month || !by_local_symbol {
        match maturity_tag(identity.expiry.as_str()) {
            Some(tag) => {
                put(fields, tag, identity.expiry.clone());
            },
            None => {},
        }
    }
    if by_local_symbol {
        if !identity.local_symbol.as_str().is_empty() {
            put(fields, 48, identity.local_symbol.clone());
            put_str(fields, 22, "101");
        }
    } else {
        put_named(fields, 6058, &identity.trading_class);
        put_named(fields, 6035, &identity.local_symbol);
    }
    if matches!(identity.strike_reads, StrikeReads::Above) {
        put(fields, 202, identity.strike.clone());
    }
    match right_of(identity.right.as_str()) {
        Some(code) => {
            put_str(fields, 201, code);
        },
        None => {},
    }
    put_named(fields, 231, &identity.multiplier);
}

/// State the contract an order is on, for anything a symbol does not name on
/// its own.
pub fn push_contract_identity(
    fields: &mut Vec<(u32, String)>,
    context: &Context,
    instrument: InstrumentId,
    attached_contract_id: Option<i64>,
)
    ensures
        stated(final(fields)@) == identity_fields(
            stated(old(fields)@),
            *context,
            instrument,
            attached_contract_id,
        ),
{
    let con_id: Option<i64> = match attached_contract_id {
        Some(con_id) => Some(con_id),
        None => context.con_id_of(instrument),
    };
    match con_id {
        Some(con_id) => {
            if con_id != 0 {
                put(fields, 6008, int_text(con_id));
            }
        },
        None => {},
    }
    match context.slot_of(instrument) {
        Some(slot) => {
            match &slot.identity {
                Some(identity) => push_identity_terms(fields, identity, slot.sec_type.as_str()),
                None => {},
            }
        },
        None => {},
    }
}

} // verus!
