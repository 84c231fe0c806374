//! Market-data requests: taken, served and withdrawn.

use ibkr_dx::engine::commands::{Calculation, ContractRef, LookupFilters, Subscription};
use ibkr_dx::engine::intake::exercise::OWN_WATCHES;
use ibkr_dx::engine::known::Notice;
use ibkr_dx::engine::market::state::{Market, MdAction};
use ibkr_dx::engine::market::take::{
    admit_subscription, narrowing_text, series_not_asked, serve_subscription, Admission,
};
use ibkr_dx::engine::market::withdraw::{withdraw_calculation, withdraw_mkt_data};
use std::sync::Arc;

fn nothing_narrows() -> LookupFilters {
    LookupFilters {
        primary_exchange: String::new(),
        local_symbol: String::new(),
        trading_class: String::new(),
        sec_id_type: String::new(),
        sec_id: String::new(),
        issuer_id: String::new(),
    }
}

fn request(req_id: i64, con_id: i64, series: &[u32]) -> Subscription {
    Subscription {
        req_id,
        contract: ContractRef {
            con_id,
            symbol: "SPY".to_string(),
            exchange: "SMART".to_string(),
            sec_type: "STK".to_string(),
            currency: "USD".to_string(),
            last_trade_date: String::new(),
            strike: String::new(),
            right: String::new(),
            multiplier: String::new(),
        },
        filters: nothing_narrows(),
        mode: 0,
        delayed_mode: None,
        frozen: false,
        delayed_frozen: false,
        regulatory_snapshot: false,
        snapshot: false,
        generic_ticks: Arc::new(series.to_vec()),
        news: None,
        spread_scan: None,
        calculation: None,
    }
}

/// A feed: what is held of its requests, and the slots that stream.
struct Feed {
    market: Market,
    notices: Vec<Notice>,
    actions: Vec<MdAction>,
    streams: Vec<u32>,
    allowance: usize,
}

impl Feed {
    fn new() -> Self {
        Feed {
            market: Market::new(),
            notices: Vec::new(),
            actions: Vec::new(),
            streams: Vec::new(),
            allowance: 40,
        }
    }

    /// Take a request, its contract on a slot: whether it was taken.
    fn take(&mut self, asked: Subscription, slot: u32) -> bool {
        match admit_subscription(
            &mut self.market, &mut self.notices, &mut self.actions, asked, None,
        ) {
            Admission::Register { request, issued, .. } => {
                let taken = serve_subscription(
                    &mut self.market, &mut self.notices, &mut self.actions, &request, issued, slot,
                    &self.streams, self.allowance, false,
                );
                if taken && !request.regulatory_snapshot && !self.streams.contains(&slot) {
                    self.streams.push(slot);
                }
                taken
            }
            _ => false,
        }
    }

    fn withdraw(&mut self, req_id: i64) -> Vec<u32> {
        self.actions.clear();
        withdraw_mkt_data(&mut self.market, &mut self.notices, &mut self.actions, req_id)
    }

    fn codes(&mut self) -> Vec<(i64, i32)> {
        let said: Vec<Notice> = self.notices.drain(..).collect();
        said.iter()
            .map(|n| match n {
                Notice::RequestRefused { req_id, code, .. } => (*req_id, *code),
                other => panic!("{other:?}"),
            })
            .collect()
    }
}

#[test]
fn one_number_watches_one_contract() {
    let mut feed = Feed::new();
    assert!(feed.take(request(1, 756733, &[]), 0));
    assert!(feed.actions.contains(&MdAction::Subscribe { slot: 0 }));
    assert!(!feed.take(request(1, 265598, &[]), 1));
    assert_eq!(feed.codes(), [(1, 102)]);
    feed.market.naming.push(request(2, 0, &[]));
    assert!(!feed.take(request(2, 0, &[]), 1), "a number that waits is in use too");
    assert_eq!(feed.codes(), [(2, 102)]);
}

#[test]
fn a_halted_feed_refuses_every_request() {
    let mut feed = Feed::new();
    let admission = admit_subscription(
        &mut feed.market, &mut feed.notices, &mut feed.actions, request(1, 756733, &[]),
        Some("the feed ended"),
    );
    assert_eq!(admission, Admission::Refused);
    assert!(matches!(
        &feed.notices[..],
        [Notice::RequestRefused { req_id: 1, code: 200, text }]
            if text == "market data is unavailable for the rest of this session: the feed ended"
    ));
}

#[test]
fn a_second_request_joins_the_stream_and_asks_for_its_own_series() {
    let mut feed = Feed::new();
    assert!(feed.take(request(1, 756733, &[233]), 0));
    feed.actions.clear();
    assert!(feed.take(request(2, 756733, &[236]), 0));
    assert!(!feed.actions.contains(&MdAction::Subscribe { slot: 0 }), "nothing is sent again");
    assert!(feed.actions.contains(&MdAction::AlsoSeries { slot: 0 }));
    assert!(feed.actions.contains(&MdAction::Follow { req_id: 2, slot: 0 }));
}

#[test]
fn a_chargeable_snapshot_joins_no_stream() {
    let mut feed = Feed::new();
    assert!(feed.take(request(1, 756733, &[]), 0));
    feed.actions.clear();
    let mut snapshot = request(2, 756733, &[233]);
    snapshot.regulatory_snapshot = true;
    assert!(feed.take(snapshot, 0));
    assert!(feed.actions.contains(&MdAction::Subscribe { slot: 0 }));
    assert!(feed.market.asked.get(&0).is_none(), "and it names no series of the stream");
}

#[test]
fn a_line_past_the_allowance_is_refused() {
    let mut feed = Feed::new();
    feed.allowance = 1;
    assert!(feed.take(request(1, 756733, &[]), 0));
    assert!(!feed.take(request(2, 265598, &[]), 1));
    assert_eq!(feed.codes(), [(2, 101)]);
    assert_eq!(feed.actions.last(), Some(&MdAction::Reclaim { slot: 1 }));
    assert!(feed.take(request(3, 756733, &[]), 0), "a stream there is takes no line");
}

#[test]
fn the_last_withdrawal_takes_the_subscription_down() {
    let mut feed = Feed::new();
    feed.take(request(1, 756733, &[233, 236]), 0);
    feed.take(request(2, 756733, &[236]), 0);
    assert_eq!(feed.withdraw(1), [233], "only the series nobody else named");
    assert!(feed.actions.iter().any(|a| matches!(a, MdAction::StopSeries { slot: 0, .. })));
    assert!(!feed.actions.iter().any(|a| matches!(a, MdAction::Unsubscribe { .. })));
    assert_eq!(feed.withdraw(2), [236], "and the last takes its own with it");
    assert!(feed.actions.iter().any(|a| matches!(a, MdAction::Unsubscribe { slot: 0, .. })));
    assert!(feed.withdraw(2).is_empty());
    assert_eq!(feed.codes(), [(2, 300)]);
    assert!(feed.take(request(2, 756733, &[]), 0), "and its number is free");
}

#[test]
fn what_nobody_names_is_not_asked_for_again() {
    let mut feed = Feed::new();
    feed.take(request(1, 756733, &[233, 236]), 0);
    assert_eq!(series_not_asked(&feed.market, 0, &vec![236, 258, 258, 318]), [258, 318]);
    feed.take(request(2, 756733, &[236, 258]), 0);
    feed.take(request(3, 265598, &[233]), 1);
    assert_eq!(feed.market.asked.get(&0), Some(&vec![233, 236, 258]), "the joiner's with it");
    assert_eq!(feed.withdraw(1), [233]);
    assert_eq!(feed.market.asked.get(&0), Some(&vec![236, 258]));
    assert_eq!(feed.withdraw(2), [236, 258]);
    assert_eq!(feed.market.asked.get(&0), None);
    assert_eq!(feed.market.asked.get(&1), Some(&vec![233]), "another contract's stay");
    assert_eq!(series_not_asked(&feed.market, 0, &vec![236]), [236]);
}

#[test]
fn a_series_another_names_is_not_stopped() {
    let mut feed = Feed::new();
    feed.take(request(1, 756733, &[233]), 0);
    feed.take(request(2, 756733, &[233]), 0);
    assert!(feed.withdraw(1).is_empty());
    assert!(!feed.actions.iter().any(|a| matches!(a, MdAction::StopSeries { .. })));
    assert_eq!(feed.market.asked.get(&0), Some(&vec![233]));
}

#[test]
fn one_scan_of_a_contract_runs_and_the_next_is_released_behind_it() {
    let mut feed = Feed::new();
    let scan = |req_id: i64| {
        let mut asked = request(req_id, 756733, &[]);
        asked.spread_scan = Some("strategies".to_string());
        asked
    };
    assert!(feed.take(scan(1), 0));
    assert!(feed.actions.contains(&MdAction::NoteScan { con_id: 756733 }));
    assert!(!feed.take(scan(2), 0) && !feed.take(scan(3), 0));
    assert_eq!(feed.market.held_scans.len(), 2, "held, not refused");
    assert!(feed.notices.is_empty());
    feed.withdraw(1);
    assert!(feed.actions.contains(&MdAction::ForgetScan { slot: 0, con_id: 756733 }));
    assert_eq!(feed.market.resolved.iter().map(|r| r.req_id).collect::<Vec<_>>(), [2]);
    assert_eq!(feed.market.held_scans.iter().map(|r| r.req_id).collect::<Vec<_>>(), [3]);
    feed.withdraw(3);
    assert!(feed.market.held_scans.is_empty() && feed.actions.is_empty());
}

#[test]
fn headlines_are_asked_for_once_and_stop_with_the_last_that_asked() {
    let mut feed = Feed::new();
    let news = |req_id: i64| {
        let mut asked = request(req_id, 756733, &[]);
        asked.news = Some("BRFG".to_string());
        asked
    };
    let asked = |feed: &Feed| {
        feed.actions.iter().filter(|a| matches!(a, MdAction::Headlines { .. })).count()
    };
    feed.take(news(1), 0);
    assert_eq!(asked(&feed), 1);
    feed.take(news(2), 0);
    assert_eq!(asked(&feed), 1, "by contract, once");
    feed.withdraw(1);
    assert!(!feed.actions.contains(&MdAction::StopHeadlines { slot: 0 }));
    feed.withdraw(2);
    assert!(feed.actions.contains(&MdAction::StopHeadlines { slot: 0 }));
}

#[test]
fn a_calculation_is_kept_on_its_watch_and_its_withdrawal_takes_only_its_own() {
    let mut feed = Feed::new();
    let calculation = || Calculation {
        con_id: 756733,
        wants_volatility: true,
        option_price: 1.5f64.to_bits(),
        under_price: 100f64.to_bits(),
    };
    feed.take(request(1, 756733, &[]), 0);
    let mut asked = request(1, 756733, &[]);
    asked.calculation = Some(calculation());
    let admission = admit_subscription(
        &mut feed.market, &mut feed.notices, &mut feed.actions, asked, None,
    );
    assert_eq!(admission, Admission::Calculation { slot: 0, asked: calculation() });
    feed.actions.clear();
    withdraw_calculation(&mut feed.market, &mut feed.notices, &mut feed.actions, 1);
    assert_eq!(feed.actions, [MdAction::ForgetCalculation { req_id: 1 }], "the watch stays");

    let mut opened = request(2, 265598, &[106]);
    opened.calculation = Some(calculation());
    feed.take(opened, 1);
    feed.actions.clear();
    let stopped = withdraw_calculation(&mut feed.market, &mut feed.notices, &mut feed.actions, 2);
    assert_eq!(stopped, [106]);
    assert!(feed.actions.iter().any(|a| matches!(a, MdAction::Unsubscribe { slot: 1, .. })));
}

#[test]
fn nothing_is_said_of_a_watch_the_engine_opened() {
    let mut feed = Feed::new();
    let own = OWN_WATCHES + 1;
    feed.take(request(own, 756733, &[493]), 0);
    assert!(!feed.actions.iter().any(|a| matches!(a, MdAction::Taken { .. })));
    assert!(!feed.take(request(own, 756733, &[493]), 0));
    feed.withdraw(own);
    feed.withdraw(own);
    assert!(feed.notices.is_empty());
}

#[test]
fn what_narrows_a_lookup_is_nothing_where_nothing_is_stated() {
    assert_eq!(narrowing_text(&nothing_narrows()), "");
    let mut filters = nothing_narrows();
    filters.trading_class = "SPXW".to_string();
    assert_eq!(narrowing_text(&filters), "||SPXW|||");
    let mut bars = nothing_narrows();
    bars.local_symbol = "|".to_string();
    assert_eq!(narrowing_text(&bars), "", "separators alone narrow nothing");
}
