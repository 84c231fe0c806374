//! The shape of an order: how its type is tracked, named and priced.

use crate::engine::order_builder::fields::{also, put, put_str, stated, Stated};
use crate::text::{
    decimal, format_price, hundredths, hundredths_text, int_text, price_text,
};
use crate::types::kinds::{AttachedPrice, OrderKind, Side};
use crate::types::orders::{
    named_ord_type, ord_type_from_fix, ord_type_name, ORD_LIMIT, ORD_LIT, ORD_LOC, ORD_MARKET, ORD_MIDPX,
    ORD_MIT, ORD_MKT_PRT, ORD_MOC, ORD_MTL, ORD_PASSV_REL, ORD_PEG_BENCH, ORD_PEG_BEST,
    ORD_PEG_MID, ORD_PEG_MKT, ORD_PEGGED, ORD_SNAP_MID, ORD_SNAP_MKT, ORD_SNAP_PRI, ORD_STOP,
    ORD_STOP_LIMIT, ORD_STP_PRT, ORD_TRAIL, ORD_TRAIL_LIMIT,
};
use vstd::prelude::*;

verus! {

/// The character a side goes out as.
pub open spec fn side_code(side: Side) -> Seq<char> {
    match side {
        Side::Buy => "1"@,
        Side::Sell => "2"@,
        Side::ShortSell => "5"@,
    }
}

/// The side that closes what a side opens.
pub open spec fn closing(side: Side) -> Side {
    if side is Buy {
        Side::Sell
    } else {
        Side::Buy
    }
}

pub fn fix_side(side: Side) -> (code: &'static str)
    ensures
        code@ == side_code(side),
{
    match side {
        Side::Buy => "1",
        Side::Sell => "2",
        Side::ShortSell => "5",
    }
}

/// How a group cancels, as the wire names it. Anything but one, two and four
/// is the third way.
pub open spec fn oca_type_name(oca_type: u8) -> Seq<char> {
    if oca_type == 1 {
        "CancelOnFillWBlock"@
    } else if oca_type == 2 {
        "ReduceOnFillWBlock"@
    } else if oca_type == 4 {
        "ReduceOnFillWBlockFromTotal"@
    } else {
        "ReduceOnFillNonBlock"@
    }
}

pub fn oca_type_str(oca_type: u8) -> (name: &'static str)
    ensures
        name@ == oca_type_name(oca_type),
{
    match oca_type {
        1 => "CancelOnFillWBlock",
        2 => "ReduceOnFillWBlock",
        4 => "ReduceOnFillWBlockFromTotal",
        _ => "ReduceOnFillNonBlock",
    }
}

/// The types whose price is the trigger: they have no limit leg.
pub open spec fn trigger_only(ord_type: u8) -> bool {
    ord_type == ORD_STOP || ord_type == ORD_MIT || ord_type == ORD_STP_PRT
}

pub fn is_trigger_only(ord_type: u8) -> (r: bool)
    ensures
        r == trigger_only(ord_type),
{
    ord_type == ORD_STOP || ord_type == ORD_MIT || ord_type == ORD_STP_PRT
}

/// The types whose own submission states a limit price on tag 44.
pub open spec fn limit_priced(ord_type: u8) -> bool {
    ord_type == ORD_LIMIT || ord_type == ORD_STOP_LIMIT || ord_type == ORD_LOC || ord_type
        == ORD_LIT || ord_type == ORD_PEG_BEST
}

pub fn states_a_limit_price(ord_type: u8) -> (r: bool)
    ensures
        r == limit_priced(ord_type),
{
    ord_type == ORD_LIMIT || ord_type == ORD_STOP_LIMIT || ord_type == ORD_LOC || ord_type
        == ORD_LIT || ord_type == ORD_PEG_BEST
}

/// Who originated an order, as the one character the wire carries it in.
pub open spec fn origin_name(origin: i32) -> Seq<char> {
    if origin == 0 {
        "c"@
    } else if origin == 1 {
        "f"@
    } else if origin == 2 {
        "b"@
    } else if origin == 3 {
        "m"@
    } else if origin == 4 {
        "n"@
    } else if origin == 5 {
        "y"@
    } else if origin == 8 {
        "v"@
    } else if origin == -1 {
        "p"@
    } else if origin == 9 {
        "j"@
    } else {
        "?"@
    }
}

pub fn origin_code(origin: i32) -> (code: &'static str)
    ensures
        code@ == origin_name(origin),
{
    if origin == -1 {
        "p"
    } else {
        match origin {
            0 => "c",
            1 => "f",
            2 => "b",
            3 => "m",
            4 => "n",
            5 => "y",
            8 => "v",
            9 => "j",
            _ => "?",
        }
    }
}

/// The character an order type contributes to its instructions, ahead of the
/// rest of them. A trailing stop the venue takes under a name of its own needs
/// none.
pub open spec fn instruction_of(kind: OrderKind, trail_as_t: bool) -> Seq<char> {
    match kind {
        OrderKind::Attached { exec_inst, .. } => exec_inst@,
        OrderKind::TrailingStop { .. } => if trail_as_t {
            Seq::empty()
        } else {
            "a"@
        },
        OrderKind::TrailPct { .. } => if trail_as_t {
            Seq::empty()
        } else {
            "a"@
        },
        OrderKind::PegMkt { .. } => "P"@,
        OrderKind::PegMid { .. } => "M"@,
        OrderKind::Rel { .. } => "R"@,
        _ => Seq::empty(),
    }
}

pub fn exec_inst_for(kind: &OrderKind, trail_as_t: bool) -> (instruction: String)
    ensures
        instruction@ == instruction_of(*kind, trail_as_t),
{
    match kind {
        OrderKind::Attached { exec_inst, .. } => exec_inst.clone(),
        OrderKind::TrailingStop { .. } => if trail_as_t {
            String::new()
        } else {
            "a".to_owned()
        },
        OrderKind::TrailPct { .. } => if trail_as_t {
            String::new()
        } else {
            "a".to_owned()
        },
        OrderKind::PegMkt { .. } => "P".to_owned(),
        OrderKind::PegMid { .. } => "M".to_owned(),
        OrderKind::Rel { .. } => "R".to_owned(),
        _ => String::new(),
    }
}

/// The types that state a companion beyond the type and the price: a trail, a
/// peg offset, a limit offset.
pub open spec fn needs_the_placed_record(ord_type: u8) -> bool {
    ord_type == ORD_PEGGED || ord_type == ORD_TRAIL || ord_type == ORD_TRAIL_LIMIT || ord_type
        == ORD_PEG_MKT || ord_type == ORD_PEG_MID || ord_type == ORD_PEG_BENCH || ord_type
        == ORD_SNAP_MKT || ord_type == ORD_SNAP_MID || ord_type == ORD_SNAP_PRI || ord_type
        == ORD_PASSV_REL || ord_type == ORD_PEG_BEST
}

/// Whether replacing this type needs the record of the order as it was placed.
pub fn replace_needs_the_placed_record(ord_type: u8) -> (r: bool)
    ensures
        r == needs_the_placed_record(ord_type),
{
    ord_type == ORD_PEGGED || ord_type == ORD_TRAIL || ord_type == ORD_TRAIL_LIMIT || ord_type
        == ORD_PEG_MKT || ord_type == ORD_PEG_MID || ord_type == ORD_PEG_BENCH || ord_type
        == ORD_SNAP_MKT || ord_type == ORD_SNAP_MID || ord_type == ORD_SNAP_PRI || ord_type
        == ORD_PASSV_REL || ord_type == ORD_PEG_BEST
}

/// What was asked for, or what was placed where nought states nothing.
pub open spec fn named(placed: i64, asked: i64) -> i64 {
    if asked != 0 {
        asked
    } else {
        placed
    }
}

fn named_or(placed: i64, asked: i64) -> (r: i64)
    ensures
        r == named(placed, asked),
{
    if asked != 0 {
        asked
    } else {
        placed
    }
}

/// The placed shape with what a replacement names written into it.
///
/// The trigger it names is the trail, the peg offset or the snap offset; the
/// price it names is the cap, or a trailing stop limit's limit offset. Nought
/// names nothing.
pub open spec fn restated(kind: OrderKind, price: i64, stop_price: i64) -> OrderKind {
    match kind {
        OrderKind::TrailingStop { trail_amt, trail_stop_price } => OrderKind::TrailingStop {
            trail_amt: named(trail_amt, stop_price),
            trail_stop_price,
        },
        OrderKind::TrailingStopLimit { lmt_offset, trail_amt, trail_stop_price } =>
            OrderKind::TrailingStopLimit {
            lmt_offset: named(lmt_offset, price),
            trail_amt: named(trail_amt, stop_price),
            trail_stop_price,
        },
        OrderKind::Rel { offset, price_cap } => OrderKind::Rel {
            offset: named(offset, stop_price),
            price_cap: named(price_cap, price),
        },
        OrderKind::SnapMkt { offset } => OrderKind::SnapMkt { offset: named(offset, stop_price) },
        OrderKind::SnapMid { offset } => OrderKind::SnapMid { offset: named(offset, stop_price) },
        OrderKind::SnapPri { offset } => OrderKind::SnapPri { offset: named(offset, stop_price) },
        OrderKind::PegMkt { offset, price_cap } => OrderKind::PegMkt {
            offset: named(offset, stop_price),
            price_cap: named(price_cap, price),
        },
        OrderKind::PegMid { offset, price_cap } => OrderKind::PegMid {
            offset: named(offset, stop_price),
            price_cap: named(price_cap, price),
        },
        OrderKind::PassiveRel { offset, price_cap } => OrderKind::PassiveRel {
            offset: named(offset, stop_price),
            price_cap: named(price_cap, price),
        },
        OrderKind::MidPrice { price_cap } => OrderKind::MidPrice {
            price_cap: named(price_cap, price),
        },
        _ => kind,
    }
}

/// The placed shape with what a replacement names written into it.
pub fn restate_with(kind: &OrderKind, price: i64, stop_price: i64) -> (r: OrderKind)
    ensures
        r == restated(*kind, price, stop_price),
{
    match kind {
        OrderKind::TrailingStop { trail_amt, trail_stop_price } => OrderKind::TrailingStop {
            trail_amt: named_or(*trail_amt, stop_price),
            trail_stop_price: *trail_stop_price,
        },
        OrderKind::TrailingStopLimit { lmt_offset, trail_amt, trail_stop_price } =>
            OrderKind::TrailingStopLimit {
            lmt_offset: named_or(*lmt_offset, price),
            trail_amt: named_or(*trail_amt, stop_price),
            trail_stop_price: *trail_stop_price,
        },
        OrderKind::Rel { offset, price_cap } => OrderKind::Rel {
            offset: named_or(*offset, stop_price),
            price_cap: named_or(*price_cap, price),
        },
        OrderKind::SnapMkt { offset } => OrderKind::SnapMkt {
            offset: named_or(*offset, stop_price),
        },
        OrderKind::SnapMid { offset } => OrderKind::SnapMid {
            offset: named_or(*offset, stop_price),
        },
        OrderKind::SnapPri { offset } => OrderKind::SnapPri {
            offset: named_or(*offset, stop_price),
        },
        OrderKind::PegMkt { offset, price_cap } => OrderKind::PegMkt {
            offset: named_or(*offset, stop_price),
            price_cap: named_or(*price_cap, price),
        },
        OrderKind::PegMid { offset, price_cap } => OrderKind::PegMid {
            offset: named_or(*offset, stop_price),
            price_cap: named_or(*price_cap, price),
        },
        OrderKind::PassiveRel { offset, price_cap } => OrderKind::PassiveRel {
            offset: named_or(*offset, stop_price),
            price_cap: named_or(*price_cap, price),
        },
        OrderKind::MidPrice { price_cap } => OrderKind::MidPrice {
            price_cap: named_or(*price_cap, price),
        },
        other => other.clone(),
    }
}

/// The price a child's own list states first under a tag, nought where none.
pub open spec fn price_under(prices: Seq<AttachedPrice>, tag: u32) -> i64
    decreases prices.len(),
{
    if prices.len() == 0 {
        0
    } else if prices[0].tag == tag {
        prices[0].scaled
    } else {
        price_under(prices.drop_first(), tag)
    }
}

fn find_price(prices: &Vec<AttachedPrice>, tag: u32) -> (price: i64)
    ensures
        price == price_under(prices@, tag),
{
    let mut at: usize = 0;
    proof {
        assert(prices@.skip(0) =~= prices@);
    }
    while at < prices.len()
        invariant
            at <= prices@.len(),
            price_under(prices@, tag) == price_under(prices@.skip(at as int), tag),
        decreases prices@.len() - at,
    {
        proof {
            assert(prices@.skip(at as int).drop_first() =~= prices@.skip(at + 1));
        }
        if prices[at].tag == tag {
            return prices[at].scaled;
        }
        at = at + 1;
    }
    0
}

/// The type, the price and the trigger an order of a shape is tracked under.
pub open spec fn shape_of(kind: OrderKind) -> (u8, i64, i64) {
    match kind {
        OrderKind::Attached { ord_type, exec_inst, prices } => (
            named_ord_type(ord_type@, exec_inst@),
            price_under(prices@, 44),
            price_under(prices@, 99),
        ),
        OrderKind::Market => (ORD_MARKET, 0, 0),
        OrderKind::Limit { price } => (ORD_LIMIT, price, 0),
        OrderKind::Stop { stop_price } => (ORD_STOP, stop_price, stop_price),
        OrderKind::StopLimit { price, stop_price } => (ORD_STOP_LIMIT, price, stop_price),
        OrderKind::TrailingStop { .. } => (ORD_PEGGED, 0, 0),
        OrderKind::TrailingStopLimit { lmt_offset, .. } => (ORD_TRAIL_LIMIT, lmt_offset, 0),
        OrderKind::TrailPct { .. } => (ORD_PEGGED, 0, 0),
        OrderKind::Moc => (ORD_MOC, 0, 0),
        OrderKind::Loc { price } => (ORD_LOC, price, 0),
        OrderKind::Mit { stop_price } => (ORD_MIT, stop_price, stop_price),
        OrderKind::Lit { price, stop_price } => (ORD_LIT, price, stop_price),
        OrderKind::PegBench { price, .. } => (ORD_PEG_BENCH, price, 0),
        OrderKind::Mtl => (ORD_MTL, 0, 0),
        OrderKind::MktPrt => (ORD_MKT_PRT, 0, 0),
        OrderKind::StpPrt { stop_price } => (ORD_STP_PRT, 0, stop_price),
        OrderKind::MidPrice { price_cap } => (ORD_MIDPX, price_cap, 0),
        OrderKind::SnapMkt { offset } => (ORD_SNAP_MKT, 0, offset),
        OrderKind::SnapMid { offset } => (ORD_SNAP_MID, 0, offset),
        OrderKind::SnapPri { offset } => (ORD_SNAP_PRI, 0, offset),
        OrderKind::PegMkt { offset, .. } => (ORD_PEG_MKT, 0, offset),
        OrderKind::PegMid { offset, .. } => (ORD_PEG_MID, 0, offset),
        OrderKind::Rel { offset, price_cap } => (ORD_PEGGED, price_cap, offset),
        OrderKind::PassiveRel { offset, .. } => (ORD_PASSV_REL, 0, offset),
        OrderKind::PegBest { price } => (ORD_PEG_BEST, price, 0),
        OrderKind::AdjustableStop { stop_price, .. } => (ORD_STOP, 0, stop_price),
        OrderKind::Adaptive { price, .. } => (ORD_LIMIT, price, 0),
        OrderKind::Algo { price, .. } => (ORD_LIMIT, price, 0),
    }
}

/// The type, the price and the trigger an order of a shape is tracked under.
pub fn tracked_shape(kind: &OrderKind) -> (shape: (u8, i64, i64))
    ensures
        shape == shape_of(*kind),
{
    match kind {
        OrderKind::Attached { ord_type, exec_inst, prices } => (
            ord_type_from_fix(ord_type.as_str(), exec_inst.as_str()),
            find_price(prices, 44),
            find_price(prices, 99),
        ),
        OrderKind::Market => (ORD_MARKET, 0, 0),
        OrderKind::Limit { price } => (ORD_LIMIT, *price, 0),
        OrderKind::Stop { stop_price } => (ORD_STOP, *stop_price, *stop_price),
        OrderKind::StopLimit { price, stop_price } => (ORD_STOP_LIMIT, *price, *stop_price),
        OrderKind::TrailingStop { .. } => (ORD_PEGGED, 0, 0),
        OrderKind::TrailingStopLimit { lmt_offset, .. } => (ORD_TRAIL_LIMIT, *lmt_offset, 0),
        OrderKind::TrailPct { .. } => (ORD_PEGGED, 0, 0),
        OrderKind::Moc => (ORD_MOC, 0, 0),
        OrderKind::Loc { price } => (ORD_LOC, *price, 0),
        OrderKind::Mit { stop_price } => (ORD_MIT, *stop_price, *stop_price),
        OrderKind::Lit { price, stop_price } => (ORD_LIT, *price, *stop_price),
        OrderKind::PegBench { price, .. } => (ORD_PEG_BENCH, *price, 0),
        OrderKind::Mtl => (ORD_MTL, 0, 0),
        OrderKind::MktPrt => (ORD_MKT_PRT, 0, 0),
        OrderKind::StpPrt { stop_price } => (ORD_STP_PRT, 0, *stop_price),
        OrderKind::MidPrice { price_cap } => (ORD_MIDPX, *price_cap, 0),
        OrderKind::SnapMkt { offset } => (ORD_SNAP_MKT, 0, *offset),
        OrderKind::SnapMid { offset } => (ORD_SNAP_MID, 0, *offset),
        OrderKind::SnapPri { offset } => (ORD_SNAP_PRI, 0, *offset),
        OrderKind::PegMkt { offset, .. } => (ORD_PEG_MKT, 0, *offset),
        OrderKind::PegMid { offset, .. } => (ORD_PEG_MID, 0, *offset),
        OrderKind::Rel { offset, price_cap } => (ORD_PEGGED, *price_cap, *offset),
        OrderKind::PassiveRel { offset, .. } => (ORD_PASSV_REL, 0, *offset),
        OrderKind::PegBest { price } => (ORD_PEG_BEST, *price, 0),
        OrderKind::AdjustableStop { stop_price, .. } => (ORD_STOP, 0, *stop_price),
        OrderKind::Adaptive { price, .. } => (ORD_LIMIT, *price, 0),
        OrderKind::Algo { price, .. } => (ORD_LIMIT, *price, 0),
    }
}

/// What a child's own prices state.
pub open spec fn stated_prices(prices: Seq<AttachedPrice>) -> Stated {
    prices.map_values(|price: AttachedPrice| (price.tag, price.text@))
}

fn push_attached_prices(fields: &mut Vec<(u32, String)>, prices: &Vec<AttachedPrice>)
    ensures
        stated(final(fields)@) == stated(old(fields)@) + stated_prices(prices@),
{
    let mut at: usize = 0;
    proof {
        assert(stated(fields@) =~= stated(old(fields)@) + stated_prices(prices@.take(0)));
    }
    while at < prices.len()
        invariant
            at <= prices@.len(),
            stated(fields@) == stated(old(fields)@) + stated_prices(prices@.take(at as int)),
        decreases prices@.len() - at,
    {
        put(fields, prices[at].tag, prices[at].text.clone());
        at = at + 1;
        proof {
            assert(stated(fields@) =~= stated(old(fields)@) + stated_prices(
                prices@.take(at as int),
            ));
        }
    }
    proof {
        assert(prices@.take(at as int) =~= prices@);
    }
}

/// A benchmark peg's change carries its own direction: a decrease is stated as
/// a negative one.
pub open spec fn peg_change(is_decrease: bool, amount: i64) -> i64 {
    if is_decrease {
        0i64.wrapping_sub(amount)
    } else {
        amount
    }
}

/// The order type on tag 40, its prices and the companions that type needs.
///
/// A trailing stop goes out as `T` where the venue takes it under that name,
/// and as `P` otherwise.
pub open spec fn shape_fields(f: Stated, kind: OrderKind, trail_as_t: bool) -> Stated {
    let trailing = if trail_as_t {
        "T"@
    } else {
        "P"@
    };
    match kind {
        OrderKind::Attached { ord_type, prices, .. } => f.push((40, ord_type@)) + stated_prices(
            prices@,
        ),
        OrderKind::Market => f.push((40, "1"@)),
        OrderKind::Limit { price } => f.push((40, "2"@)).push((44, price_text(price as int))),
        OrderKind::Stop { stop_price } => f.push((40, "3"@)).push((99, price_text(stop_price as int))),
        OrderKind::StopLimit { price, stop_price } => f.push((40, "4"@)).push((44, price_text(price as int))).push((99, price_text(stop_price as int))),
        OrderKind::AdjustableStop { stop_price, .. } => f.push((40, "3"@)).push((99, price_text(stop_price as int))),
        OrderKind::TrailingStop { trail_amt, .. } => f.push((40, trailing)).push((99, price_text(trail_amt as int))).push((211, price_text(trail_amt as int))).push((6268, "0"@)),
        OrderKind::TrailingStopLimit { lmt_offset, trail_amt, .. } => f.push((40, "TSL"@)).push((99, price_text(trail_amt as int))).push((6370, price_text(lmt_offset as int))).push((211, price_text(trail_amt as int))).push((6268, "0"@)),
        OrderKind::TrailPct { trail_pct, .. } => f.push((40, trailing)).push((99, hundredths(trail_pct as nat))).push((211, hundredths(trail_pct as nat))).push((6268, "100"@)),
        OrderKind::Moc => f.push((40, "5"@)),
        OrderKind::Loc { price } => f.push((40, "B"@)).push((44, price_text(price as int))),
        OrderKind::Mit { stop_price } => f.push((40, "J"@)).push((99, price_text(stop_price as int))),
        OrderKind::Lit { price, stop_price } => f.push((40, "LT"@)).push((44, price_text(price as int))).push((99, price_text(stop_price as int))),
        OrderKind::Mtl => f.push((40, "K"@)),
        OrderKind::MktPrt => f.push((40, "U"@)),
        OrderKind::StpPrt { stop_price } => f.push((40, "SP"@)).push((99, price_text(stop_price as int))),
        OrderKind::MidPrice { .. } => f.push((40, "MIDPX"@)),
        OrderKind::SnapMkt { offset } => f.push((40, "SMKT"@)).push((211, price_text(offset as int))),
        OrderKind::SnapMid { offset } => f.push((40, "SMID"@)).push((211, price_text(offset as int))),
        OrderKind::SnapPri { offset } => f.push((40, "SREL"@)).push((211, price_text(offset as int))),
        OrderKind::PegMkt { .. } => f.push((40, "P"@)),
        OrderKind::PegMid { .. } => f.push((40, "P"@)),
        OrderKind::PassiveRel { .. } => f.push((40, "PSVR"@)),
        OrderKind::PegBest { price } => f.push((40, "E2M"@)).push((44, price_text(price as int))),
        OrderKind::Adaptive { price, .. } => f.push((40, "2"@)).push((44, price_text(price as int))),
        OrderKind::Algo { price, .. } => f.push((40, "2"@)).push((44, price_text(price as int))),
        OrderKind::PegBench {
            ref_con_id,
            is_peg_decrease,
            pegged_change_amount,
            ref_change_amount,
            starting_price,
            stock_ref_price,
            ref_exchange,
            ..
        } => f.push((40, "PB"@)).push((6941, decimal(ref_con_id as int))).push(
            (6938, price_text(peg_change(is_peg_decrease, pegged_change_amount) as int)),
        ).push((6939, price_text(ref_change_amount as int))).push((6942, ref_exchange@)).push(
            (6580, price_text(stock_ref_price as int)),
        ).push((99, price_text(starting_price as int))),
        OrderKind::Rel { offset, price_cap } => also(
            f.push((40, "P"@)).push((211, price_text(offset as int))),
            price_cap != 0,
            44,
            price_text(price_cap as int),
        ),
    }
}

/// State the order type, its prices and the companions that type needs: the
/// shape the venue is asked for one.
pub fn push_type_and_prices(fields: &mut Vec<(u32, String)>, kind: &OrderKind, trail_as_t: bool)
    ensures
        stated(final(fields)@) == shape_fields(stated(old(fields)@), *kind, trail_as_t),
{
    let trailing: &str = if trail_as_t {
        "T"
    } else {
        "P"
    };
    match kind {
        OrderKind::Attached { ord_type, prices, .. } => {
            put(fields, 40, ord_type.clone());
            push_attached_prices(fields, prices);
        },
        OrderKind::Market => {
            put_str(fields, 40, "1");
        },
        OrderKind::Limit { price } => {
            put_str(fields, 40, "2");
            put(fields, 44, format_price(*price));
        },
        OrderKind::Stop { stop_price } => {
            put_str(fields, 40, "3");
            put(fields, 99, format_price(*stop_price));
        },
        OrderKind::StopLimit { price, stop_price } => {
            put_str(fields, 40, "4");
            put(fields, 44, format_price(*price));
            put(fields, 99, format_price(*stop_price));
        },
        OrderKind::AdjustableStop { stop_price, .. } => {
            put_str(fields, 40, "3");
            put(fields, 99, format_price(*stop_price));
        },
        OrderKind::TrailingStop { trail_amt, .. } => {
            put_str(fields, 40, trailing);
            put(fields, 99, format_price(*trail_amt));
            put(fields, 211, format_price(*trail_amt));
            put_str(fields, 6268, "0");
        },
        OrderKind::TrailingStopLimit { lmt_offset, trail_amt, .. } => {
            put_str(fields, 40, "TSL");
            put(fields, 99, format_price(*trail_amt));
            put(fields, 6370, format_price(*lmt_offset));
            put(fields, 211, format_price(*trail_amt));
            put_str(fields, 6268, "0");
        },
        OrderKind::TrailPct { trail_pct, .. } => {
            put_str(fields, 40, trailing);
            put(fields, 99, hundredths_text(*trail_pct));
            put(fields, 211, hundredths_text(*trail_pct));
            put_str(fields, 6268, "100");
        },
        OrderKind::Moc => {
            put_str(fields, 40, "5");
        },
        OrderKind::Loc { price } => {
            put_str(fields, 40, "B");
            put(fields, 44, format_price(*price));
        },
        OrderKind::Mit { stop_price } => {
            put_str(fields, 40, "J");
            put(fields, 99, format_price(*stop_price));
        },
        OrderKind::Lit { price, stop_price } => {
            put_str(fields, 40, "LT");
            put(fields, 44, format_price(*price));
            put(fields, 99, format_price(*stop_price));
        },
        OrderKind::Mtl => {
            put_str(fields, 40, "K");
        },
        OrderKind::MktPrt => {
            put_str(fields, 40, "U");
        },
        OrderKind::StpPrt { stop_price } => {
            put_str(fields, 40, "SP");
            put(fields, 99, format_price(*stop_price));
        },
        OrderKind::MidPrice { .. } => {
            put_str(fields, 40, "MIDPX");
        },
        OrderKind::SnapMkt { offset } => {
            put_str(fields, 40, "SMKT");
            put(fields, 211, format_price(*offset));
        },
        OrderKind::SnapMid { offset } => {
            put_str(fields, 40, "SMID");
            put(fields, 211, format_price(*offset));
        },
        OrderKind::SnapPri { offset } => {
            put_str(fields, 40, "SREL");
            put(fields, 211, format_price(*offset));
        },
        OrderKind::PegMkt { .. } => {
            put_str(fields, 40, "P");
        },
        OrderKind::PegMid { .. } => {
            put_str(fields, 40, "P");
        },
        OrderKind::PassiveRel { .. } => {
            put_str(fields, 40, "PSVR");
        },
        OrderKind::PegBest { price } => {
            put_str(fields, 40, "E2M");
            put(fields, 44, format_price(*price));
        },
        OrderKind::Adaptive { price, .. } => {
            put_str(fields, 40, "2");
            put(fields, 44, format_price(*price));
        },
        OrderKind::Algo { price, .. } => {
            put_str(fields, 40, "2");
            put(fields, 44, format_price(*price));
        },
        OrderKind::PegBench {
            ref_con_id,
            is_peg_decrease,
            pegged_change_amount,
            ref_change_amount,
            starting_price,
            stock_ref_price,
            ref_exchange,
            ..
        } => {
            put_str(fields, 40, "PB");
            put(fields, 6941, int_text(*ref_con_id));
            let signed: i64 = if *is_peg_decrease {
                0i64.wrapping_sub(*pegged_change_amount)
            } else {
                *pegged_change_amount
            };
            put(fields, 6938, format_price(signed));
            put(fields, 6939, format_price(*ref_change_amount));
            put(fields, 6942, ref_exchange.clone());
            put(fields, 6580, format_price(*stock_ref_price));
            put(fields, 99, format_price(*starting_price));
        },
        OrderKind::Rel { offset, price_cap } => {
            put_str(fields, 40, "P");
            put(fields, 211, format_price(*offset));
            if *price_cap != 0 {
                put(fields, 44, format_price(*price_cap));
            }
        },
    }
}

/// A replacement that names neither a price nor a trigger restates the shape
/// the order was placed with.
pub proof fn naming_nothing_restates_the_shape(kind: OrderKind)
    ensures
        restated(kind, 0, 0) == kind,
{
}

/// Restating a shape does not change the type it is tracked under, nor the
/// instruction it carries, nor the name it goes out under.
pub proof fn a_restated_shape_keeps_its_type(
    kind: OrderKind,
    price: i64,
    stop_price: i64,
    trail_as_t: bool,
)
    ensures
        shape_of(restated(kind, price, stop_price)).0 == shape_of(kind).0,
        instruction_of(restated(kind, price, stop_price), trail_as_t) == instruction_of(
            kind,
            trail_as_t,
        ),
        shape_fields(Seq::empty(), restated(kind, price, stop_price), trail_as_t)[0]
            == shape_fields(Seq::empty(), kind, trail_as_t)[0],
{
}

/// A shape other than a child's own statement is tracked under the type whose
/// name it goes out under, wherever the venue takes a trailing stop as `P`.
pub proof fn a_shape_is_tracked_under_the_name_it_goes_out_under(kind: OrderKind)
    requires
        !(kind is Attached),
    ensures
        shape_fields(Seq::empty(), kind, false)[0] == (40u32, ord_type_name(shape_of(kind).0)),
{
    reveal_strlit("1");
    reveal_strlit("2");
    reveal_strlit("3");
    reveal_strlit("4");
    reveal_strlit("5");
    reveal_strlit("B");
    reveal_strlit("J");
    reveal_strlit("K");
    reveal_strlit("P");
    reveal_strlit("U");
    assert("1"@ =~= seq!['1']);
    assert("2"@ =~= seq!['2']);
    assert("3"@ =~= seq!['3']);
    assert("4"@ =~= seq!['4']);
    assert("5"@ =~= seq!['5']);
    assert("B"@ =~= seq!['B']);
    assert("J"@ =~= seq!['J']);
    assert("K"@ =~= seq!['K']);
    assert("P"@ =~= seq!['P']);
    assert("U"@ =~= seq!['U']);
}

/// Restating a shape twice with the same numbers is restating it once.
pub proof fn restating_again_changes_nothing(kind: OrderKind, price: i64, stop_price: i64)
    ensures
        restated(restated(kind, price, stop_price), price, stop_price) == restated(
            kind,
            price,
            stop_price,
        ),
{
}

} // verus!
