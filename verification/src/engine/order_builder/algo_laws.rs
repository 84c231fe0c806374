//! What the strategy an order is worked by is stated as.

use crate::engine::order_builder::algos::{
    algo_fields, algo_name, algo_params, listed_params, max_pct_vol_of, pair_fields, text_value,
    with_param,
};
use crate::engine::order_builder::attrs::strategy_fields;
use crate::engine::order_builder::fields::Stated;
use crate::engine::order_builder::wire::{
    group_said, more, one_is_said_where_stated, one_more_is_said, says, silent, texts_under,
};
use crate::text::{digits, texts};
use crate::types::attrs::OrderAttrs;
use crate::types::kinds::{AlgoParams, OrderKind};
use vstd::prelude::*;

verus! {

proof fn each_pair_is_said(f: Stated, params: Seq<Seq<char>>, pairs: nat)
    requires
        2 * pairs <= params.len(),
    ensures
        ({
            let m = pair_fields(f, params, pairs);
            &&& texts_under(m, 5958).len() == texts_under(f, 5958).len() + pairs
            &&& texts_under(m, 5960).len() == texts_under(f, 5960).len() + pairs
            &&& forall|i: int|
                0 <= i < pairs ==> #[trigger] texts_under(m, 5958)[texts_under(f, 5958).len() + i]
                    == params[2 * i]
            &&& forall|i: int|
                0 <= i < pairs ==> #[trigger] texts_under(m, 5960)[texts_under(f, 5960).len() + i]
                    == params[2 * i + 1]
            &&& forall|tag: u32|
                tag != 5958 && tag != 5960 ==> #[trigger] texts_under(m, tag) == texts_under(f, tag)
        }),
    decreases pairs,
{
    broadcast use {one_is_said_where_stated, one_more_is_said};

    if pairs > 0 {
        each_pair_is_said(f, params, (pairs - 1) as nat);
    }
}

/// A strategy states its name, the share of the volume it keeps within where
/// it has one, how many parameters it has, and the name and the value of each,
/// in order.
#[verifier::spinoff_prover]
pub proof fn a_strategy_states_each_parameter(f: Stated, algo: AlgoParams)
    requires
        silent(f, 847) && silent(f, 849) && silent(f, 5957) && silent(f, 5958) && silent(f, 5960),
    ensures
        ({
            let m = algo_fields(f, algo);
            let params = listed_params(algo);
            &&& says(m, 847, algo_name(algo))
            &&& match max_pct_vol_of(algo) {
                Some(share) => says(m, 849, share),
                None => silent(m, 849),
            }
            &&& says(m, 5957, digits(params.len() / 2))
            &&& texts_under(m, 5958).len() == params.len() / 2
            &&& texts_under(m, 5960).len() == params.len() / 2
            &&& forall|i: int|
                0 <= i < params.len() / 2 ==> #[trigger] texts_under(m, 5958)[i] == params[2 * i]
            &&& forall|i: int|
                0 <= i < params.len() / 2 ==> #[trigger] texts_under(m, 5960)[i] == params[2 * i
                    + 1]
        }),
{
    broadcast use group_said;

    let params = listed_params(algo);
    let named = f.push((847, algo_name(algo)));
    let shared = match max_pct_vol_of(algo) {
        Some(value) => named.push((849, value)),
        None => named,
    };
    let counted = shared.push((5957, digits(params.len() / 2)));
    each_pair_is_said(counted, params, params.len() / 2);
    let m = algo_fields(f, algo);
    assert(texts_under(m, 847) =~= seq![algo_name(algo)]);
    assert(texts_under(m, 5957) =~= seq![digits(params.len() / 2)]);
    match max_pct_vol_of(algo) {
        Some(share) => {
            assert(texts_under(m, 849) =~= seq![share]);
        },
        None => {},
    }
    assert(texts_under(counted, 5958).len() == 0 && texts_under(counted, 5960).len() == 0);
    assert forall|i: int| 0 <= i < params.len() / 2 implies #[trigger] texts_under(m, 5958)[i]
        == params[2 * i] by {
        assert(texts_under(m, 5958)[texts_under(counted, 5958).len() + i] == params[2 * i]);
    }
    assert forall|i: int| 0 <= i < params.len() / 2 implies #[trigger] texts_under(m, 5960)[i]
        == params[2 * i + 1] by {
        assert(texts_under(m, 5960)[texts_under(counted, 5960).len() + i] == params[2 * i + 1]);
    }
}

/// Whether a list of names and values holds a value under a name.
pub open spec fn carries(params: Seq<Seq<char>>, key: Seq<char>, value: Seq<char>) -> bool {
    exists|i: int|
        0 <= i && 2 * i + 1 < params.len() && #[trigger] pair_at(params, i) == (key, value)
}

/// A name and its value.
pub open spec fn pair_at(params: Seq<Seq<char>>, i: int) -> (Seq<char>, Seq<char>) {
    (params[2 * i], params[2 * i + 1])
}

proof fn one_pair_more(params: Seq<Seq<char>>, key: Seq<char>, value: Option<Seq<char>>)
    requires
        params.len() % 2 == 0,
    ensures
        with_param(params, key, value).len() % 2 == 0,
        forall|k: Seq<char>, v: Seq<char>| #[trigger]
            carries(with_param(params, key, value), k, v) <==> carries(params, k, v) || (value
                == Some(v) && k == key),
{
    let after = with_param(params, key, value);
    assert forall|k: Seq<char>, v: Seq<char>| #[trigger] carries(after, k, v) <==> carries(
        params,
        k,
        v,
    ) || (value == Some(v) && k == key) by {
        if carries(params, k, v) {
            let i = choose|i: int|
                0 <= i && 2 * i + 1 < params.len() && #[trigger] pair_at(params, i) == (k, v);
            assert(pair_at(after, i) == (k, v));
        }
        if value == Some(v) && k == key {
            assert(pair_at(after, params.len() as int / 2) == (k, v));
        }
        if carries(after, k, v) {
            let i = choose|i: int|
                0 <= i && 2 * i + 1 < after.len() && #[trigger] pair_at(after, i) == (k, v);
            if 2 * i + 1 < params.len() {
                assert(pair_at(params, i) == (k, v));
            }
        }
    }
}

/// How a flag is written: a one where it is set, and a nought where it is not.
pub open spec fn flag_text(flag: bool) -> Seq<char> {
    if flag {
        seq!['1']
    } else {
        seq!['0']
    }
}

/// The name of a strategy, and every parameter it is given, each under its own
/// name; the share of the volume stands apart.
pub open spec fn strategy_stated(algo: AlgoParams) -> bool {
    let p = algo_params(algo);
    match algo {
        AlgoParams::Named { strategy, params } => algo_name(algo) == strategy@ && p == texts(
            params@,
        ),
        AlgoParams::Vwap { max_pct_vol, no_take_liq, allow_past_end_time, start_time, end_time } => {
            &&& algo_name(algo) == "Vwap"@
            &&& max_pct_vol_of(algo) == text_value(max_pct_vol)
            &&& no_take_liq matches Some(flag) ==> carries(p, "noTakeLiq"@, flag_text(flag))
            &&& allow_past_end_time matches Some(flag) ==> carries(
                p,
                "allowPastEndTime"@,
                flag_text(flag),
            )
            &&& start_time matches Some(time) ==> carries(p, "startTime"@, time@)
            &&& end_time matches Some(time) ==> carries(p, "endTime"@, time@)
        },
        AlgoParams::Twap { allow_past_end_time, start_time, end_time } => {
            &&& algo_name(algo) == "Twap"@
            &&& max_pct_vol_of(algo) is None
            &&& allow_past_end_time matches Some(flag) ==> carries(
                p,
                "allowPastEndTime"@,
                flag_text(flag),
            )
            &&& start_time matches Some(time) ==> carries(p, "startTime"@, time@)
            &&& end_time matches Some(time) ==> carries(p, "endTime"@, time@)
        },
        AlgoParams::ArrivalPx {
            max_pct_vol,
            risk_aversion,
            allow_past_end_time,
            force_completion,
            start_time,
            end_time,
        } => {
            &&& algo_name(algo) == "ArrivalPx"@
            &&& max_pct_vol_of(algo) == text_value(max_pct_vol)
            &&& risk_aversion matches Some(risk) ==> carries(p, "riskAversion"@, risk.spelled())
            &&& allow_past_end_time matches Some(flag) ==> carries(
                p,
                "allowPastEndTime"@,
                flag_text(flag),
            )
            &&& force_completion matches Some(flag) ==> carries(
                p,
                "forceCompletion"@,
                flag_text(flag),
            )
            &&& start_time matches Some(time) ==> carries(p, "startTime"@, time@)
            &&& end_time matches Some(time) ==> carries(p, "endTime"@, time@)
        },
        AlgoParams::ClosePx { max_pct_vol, risk_aversion, force_completion, start_time } => {
            &&& algo_name(algo) == "ClosePx"@
            &&& max_pct_vol_of(algo) == text_value(max_pct_vol)
            &&& risk_aversion matches Some(risk) ==> carries(p, "riskAversion"@, risk.spelled())
            &&& force_completion matches Some(flag) ==> carries(
                p,
                "forceCompletion"@,
                flag_text(flag),
            )
            &&& start_time matches Some(time) ==> carries(p, "startTime"@, time@)
        },
        AlgoParams::DarkIce { allow_past_end_time, display_size, start_time, end_time } => {
            &&& algo_name(algo) == "DarkIce"@
            &&& max_pct_vol_of(algo) is None
            &&& allow_past_end_time matches Some(flag) ==> carries(
                p,
                "allowPastEndTime"@,
                flag_text(flag),
            )
            &&& carries(p, "displaySize"@, display_size@)
            &&& start_time matches Some(time) ==> carries(p, "startTime"@, time@)
            &&& end_time matches Some(time) ==> carries(p, "endTime"@, time@)
        },
        AlgoParams::PctVol { pct_vol, no_take_liq, start_time, end_time } => {
            &&& algo_name(algo) == "PctVol"@
            &&& max_pct_vol_of(algo) is None
            &&& no_take_liq matches Some(flag) ==> carries(p, "noTakeLiq"@, flag_text(flag))
            &&& pct_vol matches Some(share) ==> carries(p, "pctVol"@, share@)
            &&& start_time matches Some(time) ==> carries(p, "startTime"@, time@)
            &&& end_time matches Some(time) ==> carries(p, "endTime"@, time@)
        },
    }
}

/// A strategy carries every parameter it is given, under that parameter's own
/// name.
#[verifier::spinoff_prover]
#[verifier::rlimit(60)]
pub proof fn a_strategy_carries_what_it_is_given(algo: AlgoParams)
    ensures
        strategy_stated(algo),
{
    reveal_strlit("1");
    reveal_strlit("0");
    assert("1"@ =~= seq!['1']);
    assert("0"@ =~= seq!['0']);
    assert forall|params: Seq<Seq<char>>, key: Seq<char>, value: Option<Seq<char>>|
        params.len() % 2 == 0 implies (#[trigger] with_param(params, key, value)).len() % 2 == 0
        && forall|k: Seq<char>, v: Seq<char>| #[trigger]
        carries(with_param(params, key, value), k, v) <==> carries(params, k, v) || (value == Some(
            v,
        ) && k == key) by {
        one_pair_more(params, key, value);
    }
}

/// An order worked adaptively names that strategy and how urgent it is; one
/// worked by another strategy states that one; any other states none. A
/// preview says so.
pub open spec fn what_works_an_order(
    before: Stated,
    after: Stated,
    attrs: OrderAttrs,
    kind: OrderKind,
) -> bool {
    &&& kind matches OrderKind::Adaptive { priority, .. } ==> {
        &&& texts_under(after, 847) == texts_under(before, 847).push("Adaptive"@)
        &&& texts_under(after, 5957) == texts_under(before, 5957).push(seq!['1'])
        &&& texts_under(after, 5958) == texts_under(before, 5958).push("adaptivePriority"@)
        &&& texts_under(after, 5960) == texts_under(before, 5960).push(priority.spelled())
    }
    &&& kind matches OrderKind::Algo { algo, .. } ==> forall|tag: u32|
        tag != 6091 ==> #[trigger] texts_under(after, tag) == texts_under(
            algo_fields(before, *algo),
            tag,
        )
    &&& !(kind is Adaptive) && !(kind is Algo) ==> forall|tag: u32|
        tag != 6091 ==> #[trigger] texts_under(after, tag) == texts_under(before, tag)
    &&& texts_under(after, 6091) == more(texts_under(before, 6091), attrs.what_if, seq!['1'])
}

/// What a strategy states of an order that is worked by it.
#[verifier::spinoff_prover]
pub proof fn an_order_states_what_works_it(f: Stated, attrs: OrderAttrs, kind: OrderKind)
    ensures
        what_works_an_order(f, strategy_fields(f, attrs, kind), attrs, kind),
{
    broadcast use {one_is_said_where_stated, one_more_is_said};

    reveal_strlit("1");
    assert("1"@ =~= seq!['1']);
    assert forall|algo: AlgoParams| #[trigger] texts_under(algo_fields(f, algo), 6091)
        == texts_under(f, 6091) by {
        let params = listed_params(algo);
        let named = f.push((847, algo_name(algo)));
        let shared = match max_pct_vol_of(algo) {
            Some(value) => named.push((849, value)),
            None => named,
        };
        let counted = shared.push((5957, digits(params.len() / 2)));
        each_pair_is_said(counted, params, params.len() / 2);
    }
}

} // verus!
