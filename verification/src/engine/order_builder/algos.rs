//! The algorithm an order is worked by, as its message states it.

use crate::engine::order_builder::fields::{put, stated, Stated};
use crate::text::{digits, small_letters, small_text, texts, uint_text};
use crate::types::kinds::{AlgoParams, RiskAversion};
use vstd::prelude::*;

verus! {

/// The parameters with one more after them, its name and then its value,
/// where its caller stated it.
pub open spec fn with_param(
    params: Seq<Seq<char>>,
    key: Seq<char>,
    value: Option<Seq<char>>,
) -> Seq<Seq<char>> {
    match value {
        Some(value) => params.push(key).push(value),
        None => params,
    }
}

/// A flag as a parameter's value.
pub open spec fn flag_value(flag: Option<bool>) -> Option<Seq<char>> {
    match flag {
        Some(true) => Some("1"@),
        Some(false) => Some("0"@),
        None => None,
    }
}

/// A text as a parameter's value.
pub open spec fn text_value(text: Option<String>) -> Option<Seq<char>> {
    match text {
        Some(text) => Some(text@),
        None => None,
    }
}

/// A choice of risk as a parameter's value.
pub open spec fn risk_value(risk: Option<RiskAversion>) -> Option<Seq<char>> {
    match risk {
        Some(risk) => Some(risk.spelled()),
        None => None,
    }
}

/// The name of the strategy.
pub open spec fn algo_name(algo: AlgoParams) -> Seq<char> {
    match algo {
        AlgoParams::Named { strategy, .. } => strategy@,
        AlgoParams::Vwap { .. } => "Vwap"@,
        AlgoParams::Twap { .. } => "Twap"@,
        AlgoParams::ArrivalPx { .. } => "ArrivalPx"@,
        AlgoParams::ClosePx { .. } => "ClosePx"@,
        AlgoParams::DarkIce { .. } => "DarkIce"@,
        AlgoParams::PctVol { .. } => "PctVol"@,
    }
}

/// The parameters of the strategy: a name and a value for each one its caller
/// stated, in the order the strategy lists them.
pub open spec fn algo_params(algo: AlgoParams) -> Seq<Seq<char>> {
    let none = Seq::<Seq<char>>::empty();
    match algo {
        AlgoParams::Named { params, .. } => texts(params@),
        AlgoParams::Vwap { no_take_liq, allow_past_end_time, start_time, end_time, .. } => {
            let p = with_param(none, "noTakeLiq"@, flag_value(no_take_liq));
            let p = with_param(p, "allowPastEndTime"@, flag_value(allow_past_end_time));
            let p = with_param(p, "startTime"@, text_value(start_time));
            with_param(p, "endTime"@, text_value(end_time))
        },
        AlgoParams::Twap { allow_past_end_time, start_time, end_time } => {
            let p = with_param(none, "allowPastEndTime"@, flag_value(allow_past_end_time));
            let p = with_param(p, "startTime"@, text_value(start_time));
            with_param(p, "endTime"@, text_value(end_time))
        },
        AlgoParams::ArrivalPx {
            risk_aversion,
            allow_past_end_time,
            force_completion,
            start_time,
            end_time,
            ..
        } => {
            let p = with_param(none, "riskAversion"@, risk_value(risk_aversion));
            let p = with_param(p, "allowPastEndTime"@, flag_value(allow_past_end_time));
            let p = with_param(p, "forceCompletion"@, flag_value(force_completion));
            let p = with_param(p, "startTime"@, text_value(start_time));
            with_param(p, "endTime"@, text_value(end_time))
        },
        AlgoParams::ClosePx { risk_aversion, force_completion, start_time, .. } => {
            let p = with_param(none, "riskAversion"@, risk_value(risk_aversion));
            let p = with_param(p, "forceCompletion"@, flag_value(force_completion));
            with_param(p, "startTime"@, text_value(start_time))
        },
        AlgoParams::DarkIce { allow_past_end_time, display_size, start_time, end_time } => {
            let p = with_param(none, "allowPastEndTime"@, flag_value(allow_past_end_time));
            let p = with_param(p, "displaySize"@, Some(display_size@));
            let p = with_param(p, "startTime"@, text_value(start_time));
            with_param(p, "endTime"@, text_value(end_time))
        },
        AlgoParams::PctVol { pct_vol, no_take_liq, start_time, end_time } => {
            let p = with_param(none, "noTakeLiq"@, flag_value(no_take_liq));
            let p = with_param(p, "pctVol"@, text_value(pct_vol));
            let p = with_param(p, "startTime"@, text_value(start_time));
            with_param(p, "endTime"@, text_value(end_time))
        },
    }
}

fn add_text(params: &mut Vec<String>, key: &str, value: &Option<String>)
    ensures
        texts(final(params)@) == with_param(texts(old(params)@), key@, text_value(*value)),
{
    match value {
        Some(value) => {
            params.push(key.to_owned());
            params.push(value.clone());
            proof {
                assert(texts(params@) =~= texts(old(params)@).push(key@).push(value@));
            }
        },
        None => {},
    }
}

fn add_flag(params: &mut Vec<String>, key: &str, flag: &Option<bool>)
    ensures
        texts(final(params)@) == with_param(texts(old(params)@), key@, flag_value(*flag)),
{
    let value: Option<String> = match flag {
        Some(true) => Some("1".to_owned()),
        Some(false) => Some("0".to_owned()),
        None => None,
    };
    add_text(params, key, &value);
}

fn add_risk(params: &mut Vec<String>, key: &str, risk: &Option<RiskAversion>)
    ensures
        texts(final(params)@) == with_param(texts(old(params)@), key@, risk_value(*risk)),
{
    let value: Option<String> = match risk {
        Some(risk) => Some(risk.as_str().to_owned()),
        None => None,
    };
    add_text(params, key, &value);
}

fn copied(list: &Vec<String>) -> (copy: Vec<String>)
    ensures
        texts(copy@) == texts(list@),
{
    let copy: Vec<String> = list.clone();
    proof {
        assert(texts(copy@) =~= texts(list@));
    }
    copy
}

/// The name of the strategy and its parameters: a name and a value for each
/// one its caller stated. One that was not stated is not sent.
pub fn build_algo_tags(algo: &AlgoParams) -> (tags: (String, Vec<String>))
    ensures
        tags.0@ == algo_name(*algo),
        texts(tags.1@) == algo_params(*algo),
{
    let mut p: Vec<String> = Vec::new();
    proof {
        assert(texts(p@) =~= Seq::<Seq<char>>::empty());
    }
    match algo {
        AlgoParams::Named { strategy, params } => (strategy.clone(), copied(params)),
        AlgoParams::Vwap { no_take_liq, allow_past_end_time, start_time, end_time, .. } => {
            add_flag(&mut p, "noTakeLiq", no_take_liq);
            add_flag(&mut p, "allowPastEndTime", allow_past_end_time);
            add_text(&mut p, "startTime", start_time);
            add_text(&mut p, "endTime", end_time);
            ("Vwap".to_owned(), p)
        },
        AlgoParams::Twap { allow_past_end_time, start_time, end_time } => {
            add_flag(&mut p, "allowPastEndTime", allow_past_end_time);
            add_text(&mut p, "startTime", start_time);
            add_text(&mut p, "endTime", end_time);
            ("Twap".to_owned(), p)
        },
        AlgoParams::ArrivalPx {
            risk_aversion,
            allow_past_end_time,
            force_completion,
            start_time,
            end_time,
            ..
        } => {
            add_risk(&mut p, "riskAversion", risk_aversion);
            add_flag(&mut p, "allowPastEndTime", allow_past_end_time);
            add_flag(&mut p, "forceCompletion", force_completion);
            add_text(&mut p, "startTime", start_time);
            add_text(&mut p, "endTime", end_time);
            ("ArrivalPx".to_owned(), p)
        },
        AlgoParams::ClosePx { risk_aversion, force_completion, start_time, .. } => {
            add_risk(&mut p, "riskAversion", risk_aversion);
            add_flag(&mut p, "forceCompletion", force_completion);
            add_text(&mut p, "startTime", start_time);
            ("ClosePx".to_owned(), p)
        },
        AlgoParams::DarkIce { allow_past_end_time, display_size, start_time, end_time } => {
            add_flag(&mut p, "allowPastEndTime", allow_past_end_time);
            add_text(&mut p, "displaySize", &Some(display_size.clone()));
            add_text(&mut p, "startTime", start_time);
            add_text(&mut p, "endTime", end_time);
            ("DarkIce".to_owned(), p)
        },
        AlgoParams::PctVol { pct_vol, no_take_liq, start_time, end_time } => {
            add_flag(&mut p, "noTakeLiq", no_take_liq);
            add_text(&mut p, "pctVol", pct_vol);
            add_text(&mut p, "startTime", start_time);
            add_text(&mut p, "endTime", end_time);
            ("PctVol".to_owned(), p)
        },
    }
}

/// Which pair of a list first has a name, counted in pairs from one of them.
pub open spec fn pair_named(params: Seq<Seq<char>>, key: Seq<char>, from: nat) -> Option<nat>
    decreases params.len() - 2 * from,
{
    if 2 * from + 1 >= params.len() {
        None
    } else if params[2 * from as int] == key {
        Some(from)
    } else {
        pair_named(params, key, from + 1)
    }
}

/// A list without one of its pairs.
pub open spec fn without_pair(params: Seq<Seq<char>>, at: nat) -> Seq<Seq<char>> {
    params.take(2 * at as int) + params.skip(2 * at as int + 2)
}

fn find_pair(params: &Vec<String>, key: &str) -> (at: Option<usize>)
    ensures
        at is Some <==> pair_named(texts(params@), key@, 0) is Some,
        at matches Some(at) ==> pair_named(texts(params@), key@, 0) == Some(at as nat) && 2 * at + 1
            < params.len(),
{
    let mut at: usize = 0;
    while at < params.len() / 2
        invariant
            at <= params@.len() / 2,
            pair_named(texts(params@), key@, 0) == pair_named(texts(params@), key@, at as nat),
        decreases params@.len() - at,
    {
        proof {
            assert(texts(params@)[2 * at as int] == params@[2 * at as int]@);
        }
        if *params[2 * at].as_str() == *key {
            return Some(at);
        }
        at = at + 1;
    }
    None
}

fn drop_pair(params: Vec<String>, at: usize) -> (rest: Vec<String>)
    requires
        2 * at + 1 < params.len(),
    ensures
        texts(rest@) == without_pair(texts(params@), at as nat),
{
    let mut rest: Vec<String> = params;
    rest.remove(2 * at);
    rest.remove(2 * at);
    proof {
        assert(texts(rest@) =~= without_pair(texts(params@), at as nat));
    }
    rest
}

/// Whether a strategy its caller names is one with a share of the volume on a
/// tag of its own.
pub open spec fn has_max_pct_vol(strategy: Seq<char>) -> bool {
    let name = small_letters(strategy);
    name == "vwap"@ || name == "arrivalpx"@ || name == "arrival_price"@ || name == "closepx"@
        || name == "close_price"@
}

/// The most of the volume the order may be, in the caller's own spelling.
pub open spec fn max_pct_vol_of(algo: AlgoParams) -> Option<Seq<char>> {
    match algo {
        AlgoParams::Vwap { max_pct_vol, .. } => text_value(max_pct_vol),
        AlgoParams::ArrivalPx { max_pct_vol, .. } => text_value(max_pct_vol),
        AlgoParams::ClosePx { max_pct_vol, .. } => text_value(max_pct_vol),
        AlgoParams::Named { strategy, params } => if has_max_pct_vol(strategy@) {
            match pair_named(texts(params@), "maxPctVol"@, 0) {
                Some(at) => Some(texts(params@)[2 * at as int + 1]),
                None => None,
            }
        } else {
            None
        },
        _ => None,
    }
}

fn find_max_pct_vol(algo: &AlgoParams) -> (value: Option<String>)
    ensures
        text_value(value) == max_pct_vol_of(*algo),
{
    match algo {
        AlgoParams::Vwap { max_pct_vol, .. } => max_pct_vol.clone(),
        AlgoParams::ArrivalPx { max_pct_vol, .. } => max_pct_vol.clone(),
        AlgoParams::ClosePx { max_pct_vol, .. } => max_pct_vol.clone(),
        AlgoParams::Named { strategy, params } => {
            let name: String = small_text(strategy.as_str());
            let name: &str = name.as_str();
            if *name == *"vwap" || *name == *"arrivalpx" || *name == *"arrival_price" || *name
                == *"closepx" || *name == *"close_price" {
                match find_pair(params, "maxPctVol") {
                    Some(at) => {
                        proof {
                            assert(texts(params@)[2 * at as int + 1] == params@[2 * at as int
                                + 1]@);
                        }
                        Some(params[2 * at + 1].clone())
                    },
                    None => None,
                }
            } else {
                None
            }
        },
        _ => None,
    }
}

/// The parameters a message lists: those of the strategy but the one that has
/// a tag of its own.
pub open spec fn listed_params(algo: AlgoParams) -> Seq<Seq<char>> {
    let params = algo_params(algo);
    match pair_named(params, "maxPctVol"@, 0) {
        Some(at) => if max_pct_vol_of(algo) is Some {
            without_pair(params, at)
        } else {
            params
        },
        None => params,
    }
}

/// The pairs of a list, from one of them on: each name on tag 5958 and its
/// value on tag 5960.
pub open spec fn pair_fields(f: Stated, params: Seq<Seq<char>>, pairs: nat) -> Stated
    decreases pairs,
{
    if pairs == 0 {
        f
    } else {
        pair_fields(f, params, (pairs - 1) as nat).push((5958, params[2 * pairs - 2])).push(
            (5960, params[2 * pairs - 1]),
        )
    }
}

/// The strategy, the share of the volume, how many parameters follow, and each
/// of them.
pub open spec fn algo_fields(f: Stated, algo: AlgoParams) -> Stated {
    let named = f.push((847, algo_name(algo)));
    let shared = match max_pct_vol_of(algo) {
        Some(value) => named.push((849, value)),
        None => named,
    };
    let params = listed_params(algo);
    pair_fields(shared.push((5957, digits(params.len() / 2))), params, params.len() / 2)
}

/// State the strategy and its parameters.
pub fn push_algo(fields: &mut Vec<(u32, String)>, algo: &AlgoParams)
    ensures
        stated(final(fields)@) == algo_fields(stated(old(fields)@), *algo),
{
    let (name, params) = build_algo_tags(algo);
    let mut params: Vec<String> = params;
    put(fields, 847, name);
    match find_max_pct_vol(algo) {
        Some(value) => {
            put(fields, 849, value);
            match find_pair(&params, "maxPctVol") {
                Some(at) => {
                    params = drop_pair(params, at);
                },
                None => {},
            }
        },
        None => {},
    }
    proof {
        assert(texts(params@) == listed_params(*algo));
        assert(texts(params@).len() == params@.len());
    }
    put(fields, 5957, uint_text((params.len() / 2) as u64));
    let ghost start = stated(fields@);
    let mut pair: usize = 0;
    while pair < params.len() / 2
        invariant
            pair <= params@.len() / 2,
            stated(fields@) == pair_fields(start, texts(params@), pair as nat),
        decreases params@.len() - pair,
    {
        proof {
            assert(texts(params@)[2 * pair as int] == params@[2 * pair as int]@);
            assert(texts(params@)[2 * pair as int + 1] == params@[2 * pair as int + 1]@);
        }
        put(fields, 5958, params[2 * pair].clone());
        put(fields, 5960, params[2 * pair + 1].clone());
        pair = pair + 1;
    }
}

} // verus!
