//! The shapes an order can take: its type and the prices that type carries.

use std::sync::Arc;
use vstd::prelude::*;

verus! {

/// Which way an order trades.
#[derive(Clone, Copy, Debug, PartialEq, Eq, Structural)]
pub enum Side {
    Buy,
    Sell,
    ShortSell,
}

/// How urgently an adaptive order works.
#[derive(Clone, Copy, Debug, PartialEq, Eq, Structural)]
pub enum AdaptivePriority {
    Urgent,
    Normal,
    Patient,
}

impl AdaptivePriority {
    /// The priority as the wire spells it.
    pub open spec fn spelled(self) -> Seq<char> {
        match self {
            AdaptivePriority::Urgent => "Urgent"@,
            AdaptivePriority::Normal => "Normal"@,
            AdaptivePriority::Patient => "Patient"@,
        }
    }

    pub fn as_str(&self) -> (text: &'static str)
        ensures
            text@ == self.spelled(),
    {
        match self {
            AdaptivePriority::Urgent => "Urgent",
            AdaptivePriority::Normal => "Normal",
            AdaptivePriority::Patient => "Patient",
        }
    }
}

/// How much risk an algorithm takes to be done.
#[derive(Clone, Copy, Debug, PartialEq, Eq, Structural)]
pub enum RiskAversion {
    GetDone,
    Aggressive,
    Neutral,
    Passive,
}

impl RiskAversion {
    /// The choice as the wire spells it.
    pub open spec fn spelled(self) -> Seq<char> {
        match self {
            RiskAversion::GetDone => "Get Done"@,
            RiskAversion::Aggressive => "Aggressive"@,
            RiskAversion::Neutral => "Neutral"@,
            RiskAversion::Passive => "Passive"@,
        }
    }

    pub fn as_str(&self) -> (text: &'static str)
        ensures
            text@ == self.spelled(),
    {
        match self {
            RiskAversion::GetDone => "Get Done",
            RiskAversion::Aggressive => "Aggressive",
            RiskAversion::Neutral => "Neutral",
            RiskAversion::Passive => "Passive",
        }
    }
}

/// What an adjustable stop turns into once its trigger is reached.
#[derive(Clone, Copy, Debug, PartialEq, Eq, Structural)]
pub enum AdjustedOrderType {
    Stop,
    StopLimit,
    Trail,
    TrailLimit,
}

impl AdjustedOrderType {
    /// The type's name on the wire.
    pub open spec fn code(self) -> Seq<char> {
        match self {
            AdjustedOrderType::Stop => "3"@,
            AdjustedOrderType::StopLimit => "4"@,
            AdjustedOrderType::Trail => "T"@,
            AdjustedOrderType::TrailLimit => "TSL"@,
        }
    }

    pub fn fix_code(&self) -> (text: &'static str)
        ensures
            text@ == self.code(),
    {
        match self {
            AdjustedOrderType::Stop => "3",
            AdjustedOrderType::StopLimit => "4",
            AdjustedOrderType::Trail => "T",
            AdjustedOrderType::TrailLimit => "TSL",
        }
    }
}

/// The algorithm an order is worked by, and what its caller stated for it.
#[derive(Debug, PartialEq)]
pub enum AlgoParams {
    /// A strategy and its parameters as the caller wrote them: a name, then
    /// its value, for each.
    Named { strategy: String, params: Arc<Vec<String>> },
    Vwap {
        max_pct_vol: Option<String>,
        no_take_liq: Option<bool>,
        allow_past_end_time: Option<bool>,
        start_time: Option<String>,
        end_time: Option<String>,
    },
    Twap {
        allow_past_end_time: Option<bool>,
        start_time: Option<String>,
        end_time: Option<String>,
    },
    ArrivalPx {
        max_pct_vol: Option<String>,
        risk_aversion: Option<RiskAversion>,
        allow_past_end_time: Option<bool>,
        force_completion: Option<bool>,
        start_time: Option<String>,
        end_time: Option<String>,
    },
    ClosePx {
        max_pct_vol: Option<String>,
        risk_aversion: Option<RiskAversion>,
        force_completion: Option<bool>,
        start_time: Option<String>,
    },
    DarkIce {
        allow_past_end_time: Option<bool>,
        display_size: String,
        start_time: Option<String>,
        end_time: Option<String>,
    },
    PctVol {
        pct_vol: Option<String>,
        no_take_liq: Option<bool>,
        start_time: Option<String>,
        end_time: Option<String>,
    },
}

/// One price an attached child states: its tag, the text that goes on it, and
/// the price that text reads as, nought where it reads as none.
#[derive(Debug, PartialEq)]
pub struct AttachedPrice {
    pub tag: u32,
    pub text: String,
    pub scaled: i64,
}

/// The shape of an order.
#[derive(Debug, PartialEq)]
pub enum OrderKind {
    /// A child stated as the venue names it, with the prices it carries.
    Attached { ord_type: String, exec_inst: String, prices: Arc<Vec<AttachedPrice>> },
    Market,
    Limit { price: i64 },
    Stop { stop_price: i64 },
    StopLimit { price: i64, stop_price: i64 },
    TrailingStop { trail_amt: i64, trail_stop_price: Option<i64> },
    TrailingStopLimit { lmt_offset: i64, trail_amt: i64, trail_stop_price: Option<i64> },
    /// A trail stated in hundredths of a percent.
    TrailPct { trail_pct: u32, trail_stop_price: Option<i64> },
    Moc,
    Loc { price: i64 },
    Mit { stop_price: i64 },
    Lit { price: i64, stop_price: i64 },
    PegBench {
        price: i64,
        ref_con_id: i64,
        is_peg_decrease: bool,
        pegged_change_amount: i64,
        ref_change_amount: i64,
        starting_price: i64,
        stock_ref_price: i64,
        ref_exchange: String,
    },
    Mtl,
    MktPrt,
    StpPrt { stop_price: i64 },
    MidPrice { price_cap: i64 },
    SnapMkt { offset: i64 },
    SnapMid { offset: i64 },
    SnapPri { offset: i64 },
    PegMkt { offset: i64, price_cap: i64 },
    PegMid { offset: i64, price_cap: i64 },
    Rel { offset: i64, price_cap: i64 },
    PassiveRel { offset: i64, price_cap: i64 },
    PegBest { price: i64 },
    AdjustableStop {
        stop_price: i64,
        trigger_price: i64,
        adjusted_order_type: AdjustedOrderType,
        adjusted_stop_price: i64,
        adjusted_stop_limit_price: i64,
        adjusted_trailing_amount: i64,
        adjustable_trailing_unit: i32,
    },
    Adaptive { price: i64, priority: AdaptivePriority },
    Algo { price: i64, algo: Arc<AlgoParams> },
}

impl Clone for OrderKind {
    fn clone(&self) -> (copy: Self)
        ensures
            copy == *self,
    {
        match self {
            OrderKind::Attached { ord_type, exec_inst, prices } => OrderKind::Attached {
                ord_type: ord_type.clone(),
                exec_inst: exec_inst.clone(),
                prices: prices.clone(),
            },
            OrderKind::Market => OrderKind::Market,
            OrderKind::Limit { price } => OrderKind::Limit { price: *price },
            OrderKind::Stop { stop_price } => OrderKind::Stop { stop_price: *stop_price },
            OrderKind::StopLimit { price, stop_price } => OrderKind::StopLimit {
                price: *price,
                stop_price: *stop_price,
            },
            OrderKind::TrailingStop { trail_amt, trail_stop_price } => OrderKind::TrailingStop {
                trail_amt: *trail_amt,
                trail_stop_price: *trail_stop_price,
            },
            OrderKind::TrailingStopLimit { lmt_offset, trail_amt, trail_stop_price } =>
                OrderKind::TrailingStopLimit {
                lmt_offset: *lmt_offset,
                trail_amt: *trail_amt,
                trail_stop_price: *trail_stop_price,
            },
            OrderKind::TrailPct { trail_pct, trail_stop_price } => OrderKind::TrailPct {
                trail_pct: *trail_pct,
                trail_stop_price: *trail_stop_price,
            },
            OrderKind::Moc => OrderKind::Moc,
            OrderKind::Loc { price } => OrderKind::Loc { price: *price },
            OrderKind::Mit { stop_price } => OrderKind::Mit { stop_price: *stop_price },
            OrderKind::Lit { price, stop_price } => OrderKind::Lit {
                price: *price,
                stop_price: *stop_price,
            },
            OrderKind::PegBench {
                price,
                ref_con_id,
                is_peg_decrease,
                pegged_change_amount,
                ref_change_amount,
                starting_price,
                stock_ref_price,
                ref_exchange,
            } => OrderKind::PegBench {
                price: *price,
                ref_con_id: *ref_con_id,
                is_peg_decrease: *is_peg_decrease,
                pegged_change_amount: *pegged_change_amount,
                ref_change_amount: *ref_change_amount,
                starting_price: *starting_price,
                stock_ref_price: *stock_ref_price,
                ref_exchange: ref_exchange.clone(),
            },
            OrderKind::Mtl => OrderKind::Mtl,
            OrderKind::MktPrt => OrderKind::MktPrt,
            OrderKind::StpPrt { stop_price } => OrderKind::StpPrt { stop_price: *stop_price },
            OrderKind::MidPrice { price_cap } => OrderKind::MidPrice { price_cap: *price_cap },
            OrderKind::SnapMkt { offset } => OrderKind::SnapMkt { offset: *offset },
            OrderKind::SnapMid { offset } => OrderKind::SnapMid { offset: *offset },
            OrderKind::SnapPri { offset } => OrderKind::SnapPri { offset: *offset },
            OrderKind::PegMkt { offset, price_cap } => OrderKind::PegMkt {
                offset: *offset,
                price_cap: *price_cap,
            },
            OrderKind::PegMid { offset, price_cap } => OrderKind::PegMid {
                offset: *offset,
                price_cap: *price_cap,
            },
            OrderKind::Rel { offset, price_cap } => OrderKind::Rel {
                offset: *offset,
                price_cap: *price_cap,
            },
            OrderKind::PassiveRel { offset, price_cap } => OrderKind::PassiveRel {
                offset: *offset,
                price_cap: *price_cap,
            },
            OrderKind::PegBest { price } => OrderKind::PegBest { price: *price },
            OrderKind::AdjustableStop {
                stop_price,
                trigger_price,
                adjusted_order_type,
                adjusted_stop_price,
                adjusted_stop_limit_price,
                adjusted_trailing_amount,
                adjustable_trailing_unit,
            } => OrderKind::AdjustableStop {
                stop_price: *stop_price,
                trigger_price: *trigger_price,
                adjusted_order_type: *adjusted_order_type,
                adjusted_stop_price: *adjusted_stop_price,
                adjusted_stop_limit_price: *adjusted_stop_limit_price,
                adjusted_trailing_amount: *adjusted_trailing_amount,
                adjustable_trailing_unit: *adjustable_trailing_unit,
            },
            OrderKind::Adaptive { price, priority } => OrderKind::Adaptive {
                price: *price,
                priority: *priority,
            },
            OrderKind::Algo { price, algo } => OrderKind::Algo {
                price: *price,
                algo: algo.clone(),
            },
        }
    }
}

} // verus!
