//! The data service: query names, replies, refusals and tick streams.

use ibkr_dx::engine::hmds::names::{answers, hist_exchange, hist_sec_type, states};
use ibkr_dx::engine::hmds::queries::{
    Asked, BarStream, HeldSeries, HmdsState, Waiting, NO_REQUEST,
};
use ibkr_dx::engine::hmds::replies::Routed;
use ibkr_dx::engine::hmds::streams::{Running, TbtSubscription, Ticks, Unnumbered, Withdrawal};
use ibkr_dx::engine::hmds::ticks::{
    build_tbt_query, frame_kind, parse_tick_subscription_ack, tbt_wire_kind, TbtKind, TbtType,
    TickAck,
};
use ibkr_dx::engine::known::Notice;
use ibkr_dx::error_codes::{Refusal, NO_SUCH_SUBSCRIPTION};

fn waiting(asked: Asked, query: &str, req_id: u32) -> Waiting {
    Waiting { asked, query: query.to_string(), req_id }
}

fn held(req_id: u32) -> HeldSeries {
    HeldSeries {
        req_id,
        bars: Vec::new(),
        timezone: String::new(),
        actions_query: None,
        complete: false,
    }
}

/// What was told: the request, the number and the words.
fn told(notices: &[Notice]) -> Vec<(i64, i32, String)> {
    notices
        .iter()
        .map(|notice| match notice {
            Notice::RequestRefused { req_id, code, text } => (*req_id, *code, text.clone()),
            other => panic!("told something else: {other:?}"),
        })
        .collect()
}

fn query_error(query_id: &str, error: &str) -> String {
    format!(
        "<?xml version=\"1.0\" encoding=\"UTF-8\"?>\n<QueryError>\n\t<id>{query_id}</id>\n\t<error>{error}</error>\n</QueryError>\n",
    )
}

fn bar_page(query_id: &str, eoq: bool) -> String {
    format!(
        "<ResultSetBar><id>{}</id><eoq>{}</eoq><tz>UTC</tz><Events>\
         <Bar><time>20260714-13:30:00</time><open>100.0</open><close>100.5</close>\
         <high>100.7</high><low>99.9</low><weightedAvg>100.2</weightedAvg>\
         <volume>1000</volume><count>10</count></Bar></Events></ResultSetBar>",
        query_id,
        if eoq { "true" } else { "false" },
    )
}

#[test]
fn a_stated_security_type_reaches_the_wire_in_its_own_spelling() {
    assert_eq!(hist_sec_type("FUT"), "FUT");
    assert_eq!(hist_sec_type("OPT"), "OPT");
    assert_eq!(hist_sec_type("CASH"), "CASH");
    assert_eq!(hist_sec_type("STK"), "CS");
    assert_eq!(hist_sec_type("CS"), "CS");
    assert_eq!(hist_sec_type(""), "CS");
    assert_eq!(hist_sec_type("FOP"), "FOP");
    assert_eq!(hist_sec_type("CFD"), "CFD");
    assert_eq!(hist_sec_type("NOPE"), "NOPE");
    assert_eq!(hist_sec_type("FOP&"), "");
    assert_eq!(hist_sec_type("<x>"), "");
    assert_eq!(hist_sec_type("A B"), "");
    assert_eq!(hist_sec_type("VERYLONGTYPE"), "");
}

#[test]
fn a_stated_venue_reaches_the_wire_and_an_absent_one_defaults() {
    assert_eq!(hist_exchange("CME"), "CME");
    assert_eq!(hist_exchange("IDEALPRO"), "IDEALPRO");
    assert_eq!(hist_exchange(""), "SMART");
}

#[test]
fn a_query_name_that_prefixes_another_is_not_answered_by_it() {
    let answer_for = |id: &str| format!("<ResultSetTick><id>{id}</id><eoq>true</eoq></ResultSetTick>");

    assert!(answers(&answer_for("tk_1"), "tk_1"), "its own answer");
    assert!(!answers(&answer_for("tk_12"), "tk_1"), "tk_1 took the answer meant for tk_12");
    assert!(answers(&answer_for("tk_12"), "tk_12"), "which tk_12 needs itself");
    assert!(!answers(&answer_for("tk_2"), "tk_1"), "a different query entirely");

    let news = "<NewsResponse><id>news_2-headlines;;NewsQuery;;0;;true;;0;;U</id></NewsResponse>";
    assert!(answers(news, "news_2"), "the reply names the query it answers");
    assert!(!answers(news, "news_2x"), "and not one whose name merely resembles it");
}

#[test]
fn a_query_id_that_prefixes_another_does_not_take_its_bars() {
    assert!(states("hist_1000", "hist_1000"), "its own answer");
    assert!(!states("hist_10001", "hist_1000"), "the longer id is another query");
    assert!(!states("hist_1000_x", "hist_1000"), "and so is one continued by a word");
    assert!(states("news_2-headlines;;x", "news_2"));
}

#[test]
fn each_scan_gets_its_own_answer() {
    let mut hmds = HmdsState::new();
    hmds.pending.push(waiting(Asked::Scan, "APISCAN1:10001", 10001));
    hmds.pending.push(waiting(Asked::Scan, "APISCAN2:10002", 10002));
    hmds.pending.push(waiting(Asked::Scan, "APISCAN3:10003", 10003));

    for (named, expected) in [
        ("APISCAN1:10001", 10001),
        ("APISCAN2:10002", 10002),
        ("APISCAN3:10003", 10003),
    ] {
        let xml = format!("<ScanResponse>\n\t<id>{named}</id>\n</ScanResponse>");
        assert_eq!(
            hmds.scanner_answered(&xml),
            Some(expected),
            "{named} answered, so its rows belong to the request that asked for it",
        );
    }
}

#[test]
fn an_answer_naming_no_running_scan_is_not_handed_to_another() {
    let mut hmds = HmdsState::new();
    hmds.pending.push(waiting(Asked::Scan, "APISCAN1:10001", 10001));
    assert_eq!(hmds.scanner_answered("<ScanResponse></ScanResponse>"), None);
    assert_eq!(hmds.scanner_answered("<ScanResponse><id>APISCAN9:99</id></ScanResponse>"), None);
    assert_eq!(
        hmds.scanner_answered("<ScanResponse><id>APISCAN1:10001</id></ScanResponse>"),
        Some(10001),
    );
}

#[test]
fn a_trade_stream_is_asked_for_by_the_name_the_caller_used() {
    assert_eq!(tbt_wire_kind(TbtType::Last), "Last");
    assert_eq!(tbt_wire_kind(TbtType::AllLast), "AllLast");
    assert_eq!(tbt_wire_kind(TbtType::BidAsk), "BidAsk");
    assert_eq!(tbt_wire_kind(TbtType::MidPoint), "MidPoint");
}

#[test]
fn a_stream_is_read_in_the_shape_it_was_asked_for() {
    assert_eq!(frame_kind(TbtType::MidPoint), TbtKind::MidPoint);
    assert_eq!(frame_kind(TbtType::BidAsk), TbtKind::BidAsk);
    assert_eq!(frame_kind(TbtType::Last), TbtKind::AllLast);
    assert_eq!(frame_kind(TbtType::AllLast), TbtKind::AllLast);
}

#[test]
fn a_tick_stream_states_the_contract_and_the_kind() {
    let q = build_tbt_query(7, 265598, "BEST", "CS", "AllLast", 0, false);
    assert!(q.contains("<id>tbt_7</id>"));
    assert!(q.contains("<contractID>265598</contractID>"));
    assert!(q.contains("<data>AllLast</data>"));
    assert!(q.contains("<source>API</source>"));
    assert!(!q.contains("timeLength"), "{q}");
    assert!(!q.contains("filter"), "{q}");
}

#[test]
fn a_tick_stream_states_the_prelude_and_the_filter_it_was_asked_for() {
    let asked = build_tbt_query(7, 265598, "BEST", "CS", "AllLast", 100, true);
    assert!(asked.contains("<timeLength>100 t</timeLength>"), "{asked}");
    assert!(asked.contains("<filter><ignoreSize>true</ignoreSize></filter>"), "{asked}");
}

/// A figure an acknowledgement states.
fn figure(text: &str) -> f64 {
    text.parse().unwrap()
}

#[test]
fn the_acknowledgement_states_the_number_and_both_increments() {
    let xml = "<?xml version=\"1.0\" encoding=\"UTF-8\"?>\n\t<ResultSetTickerId>\n\
               \t\t<id>tbt_1</id>\n\t\t<rtTickerId>1</rtTickerId>\n\
               \t\t<minTick>0.00005</minTick>\n\t\t<sizeMinTick>1</sizeMinTick>\n\
               \t\t<eoq>false</eoq>\n\t</ResultSetTickerId>";
    let ack = parse_tick_subscription_ack(xml).expect("the acknowledgement reads");
    assert_eq!(ack.query_id, "tbt_1");
    assert_eq!(ack.venue_id, 1);
    assert_eq!(figure(&ack.min_tick), 0.00005);
    assert_eq!(figure(&ack.size_min_tick), 1.0);
}

#[test]
fn a_contract_dealt_in_fractions_states_a_fractional_size_increment() {
    let xml = "<ResultSetTickerId><id>tbt_2</id><rtTickerId>2</rtTickerId>\
               <minTick>0.25</minTick><sizeMinTick>0.00000001</sizeMinTick></ResultSetTickerId>";
    let ack = parse_tick_subscription_ack(xml).expect("the acknowledgement reads");
    assert_eq!(ack.venue_id, 2, "and its number is its own, not the one asked under");
    assert_eq!(figure(&ack.size_min_tick), 0.00000001);
}

#[test]
fn another_reply_is_not_read_as_an_acknowledgement() {
    assert!(parse_tick_subscription_ack("<QueryError><id>tbt_1</id></QueryError>").is_none());
    assert!(parse_tick_subscription_ack("<ResultSetBar><id>h_1</id></ResultSetBar>").is_none());
    assert!(
        parse_tick_subscription_ack(
            "<ResultSetTickerId><id>tbt_1</id><rtTickerId>x</rtTickerId></ResultSetTickerId>"
        )
        .is_none(),
        "nor is one whose number cannot be read",
    );
}

fn stream(caller_req_id: i64, instrument: u32, kind: TbtType) -> TbtSubscription {
    TbtSubscription {
        instrument,
        query_id: format!("tbt_{caller_req_id}"),
        kind,
        caller_req_id,
        venue_id: caller_req_id as u64,
        min_tick: "1".to_string(),
        size_tick: "1".to_string(),
        running: Running { last: 0, bid: 0, ask: 0 },
    }
}

fn ack(query_id: &str, venue_id: u64) -> TickAck {
    let xml = format!(
        "<ResultSetTickerId><id>{query_id}</id><rtTickerId>{venue_id}</rtTickerId>\
         <minTick>0.01</minTick><sizeMinTick>1</sizeMinTick></ResultSetTickerId>"
    );
    parse_tick_subscription_ack(&xml).expect("the acknowledgement reads")
}

#[test]
fn withdrawing_one_stream_leaves_the_other() {
    let mut ticks = Ticks::new();
    ticks.subscriptions.push(stream(1, 7, TbtType::Last));
    ticks.subscriptions.push(stream(2, 7, TbtType::BidAsk));

    ticks.send_tbt_unsubscribe(2, 7);

    assert_eq!(ticks.subscriptions.len(), 1, "one stream was withdrawn");
    assert_eq!(ticks.subscriptions[0].caller_req_id, 1, "the wrong stream was withdrawn");
}

#[test]
fn a_withdrawal_naming_nothing_leaves_the_other_stream_on_the_contract() {
    let mut ticks = Ticks::new();
    ticks.subscriptions.push(stream(2, 7, TbtType::BidAsk));
    assert_eq!(ticks.send_tbt_unsubscribe(1, 7), None);
    assert_eq!(ticks.subscriptions.len(), 1, "the other caller's stream stands");
}

fn withdrawal_while_a_sibling_is_unnumbered(deferred: bool) {
    for (gone_kind, kept_kind, kept_instrument, shares) in [
        (TbtType::Last, TbtType::Last, 7, true),
        (TbtType::BidAsk, TbtType::BidAsk, 7, true),
        (TbtType::Last, TbtType::AllLast, 7, false),
        (TbtType::AllLast, TbtType::Last, 7, false),
        (TbtType::Last, TbtType::BidAsk, 7, false),
        (TbtType::Last, TbtType::Last, 8, false),
    ] {
        let mut ticks = Ticks::new();
        let mut gone = stream(1, 7, gone_kind);
        gone.venue_id = if deferred { 0 } else { 41 };
        ticks.subscriptions.push(gone);
        let mut kept = stream(2, kept_instrument, kept_kind);
        kept.venue_id = 0;
        ticks.subscriptions.push(kept);

        let mut withdrawal = ticks.send_tbt_unsubscribe(1, 7);
        if deferred {
            assert_eq!(withdrawal.map(|w| w.id()).as_deref(), Some("tbt_1"));
            withdrawal = ticks.take_ack(ack("tbt_1", 41));
            assert!(ticks.withdrawn_unnumbered.is_empty());
        }
        if shares {
            assert!(withdrawal.is_none(), "the sibling is still waiting for the shared number");
            assert!(!ticks.withdrawn.contains(&41));
        } else {
            assert_eq!(
                withdrawal.map(|w| w.id()).as_deref(),
                Some("rtTicker:41"),
                "another contract or wire kind does not hold this stream",
            );
            assert!(ticks.withdrawn.contains(&41));
        }

        let number = if shares { 41 } else { 42 };
        assert_eq!(ticks.take_ack(ack("tbt_2", number)), None);
        assert_eq!(ticks.subscriptions[0].venue_id, number);
        let last = ticks.send_tbt_unsubscribe(2, kept_instrument);
        assert_eq!(
            last.map(|w| w.id()),
            Some(format!("rtTicker:{number}")),
            "the last caller's withdrawal reaches the venue",
        );
        assert!(ticks.subscriptions.is_empty());
    }
}

#[test]
fn a_numbered_withdrawal_keeps_an_unnumbered_siblings_stream() {
    withdrawal_while_a_sibling_is_unnumbered(false);
}

#[test]
fn a_deferred_withdrawal_keeps_an_unnumbered_siblings_stream() {
    withdrawal_while_a_sibling_is_unnumbered(true);
}

#[test]
fn a_stream_withdrawn_before_its_acknowledgement_is_withdrawn_at_it() {
    let mut ticks = Ticks::new();
    let mut unnumbered = stream(1, 7, TbtType::Last);
    unnumbered.venue_id = 0;
    ticks.subscriptions.push(unnumbered);

    let by_name = ticks.send_tbt_unsubscribe(1, 7);
    assert_eq!(by_name, Some(Withdrawal::ByName("tbt_1".to_string())), "withdrawn by name for now");

    let by_number = ticks.take_ack(ack("tbt_1", 41));
    assert_eq!(by_number, Some(Withdrawal::ByNumber(41)), "withdrawn by the venue's number");
    assert!(ticks.withdrawn.contains(&41), "and its ticks are known as withdrawn");
    assert!(ticks.subscriptions.is_empty(), "nothing is reopened by the acknowledgement");
}

#[test]
fn a_withdrawal_waiting_for_its_number_leaves_a_shared_stream_running() {
    let mut ticks = Ticks::new();
    let mut kept = stream(7, 0, TbtType::Last);
    kept.query_id = "tbt_keep".to_string();
    kept.venue_id = 55;
    ticks.subscriptions.push(kept);
    ticks.withdrawn_unnumbered.push(Unnumbered {
        query_id: "tbt_gone".to_string(),
        instrument: 0,
        kind: TbtType::Last,
    });

    assert_eq!(ticks.take_ack(ack("tbt_gone", 55)), None, "no cancel goes out for it");
    assert!(
        !ticks.withdrawn.contains(&55),
        "the number is not marked withdrawn while another caller reads it",
    );
}

#[test]
fn a_joining_caller_is_given_where_the_stream_stands() {
    let mut ticks = Ticks::new();
    let mut first = stream(1, 7, TbtType::BidAsk);
    first.venue_id = 9;
    first.running = Running { last: 0, bid: 100, ask: 102 };
    ticks.subscriptions.push(first);
    let mut second = stream(2, 7, TbtType::BidAsk);
    second.venue_id = 0;
    ticks.subscriptions.push(second);

    ticks.take_ack(ack("tbt_2", 9));
    assert_eq!(ticks.subscriptions[1].venue_id, 9);
    assert_eq!(ticks.subscriptions[1].running, Running { last: 0, bid: 100, ask: 102 });
    assert_eq!(ticks.subscriptions[1].min_tick, "0.01");
}

#[test]
fn a_historical_query_waits_rather_than_being_failed_on_a_clock() {
    let mut hmds = HmdsState::new();
    hmds.pending.push(waiting(Asked::Bars, "hist_1010", 21));

    assert_eq!(hmds.pending_historical_count(), 1, "still waiting on the venue");
}

#[test]
fn a_refused_bar_request_is_told_the_error_alone() {
    let mut hmds = HmdsState::new();
    let mut notices = Vec::new();
    hmds.pending.push(waiting(Asked::Bars, "hist_1003", 11));
    hmds.keep_up_to_date_reqs.push(11);
    hmds.held.push(held(11));
    hmds.route(&bar_page("hist_1003", false));

    let ended = hmds
        .take_refusal(&mut notices, &query_error("hist_1003", "Invalid time length"))
        .expect("a query is refused");

    assert!(hmds.pending.is_empty(), "pending entry should be drained");
    assert!(hmds.held.is_empty(), "the held pages go with the refused query");
    assert!(!hmds.keep_up_to_date_reqs.contains(&11), "kut flag should be cleared");
    assert_eq!(told(&notices), [(11, 162, "Invalid time length".to_string())]);
    assert_eq!(ended.over, Some(11), "the request is over");
}

#[test]
fn query_error_releases_head_timestamp_without_sentinel() {
    let mut hmds = HmdsState::new();
    let mut notices = Vec::new();
    hmds.pending.push(waiting(Asked::HeadTimestamp, "hts_1004", 42));

    let ended = hmds
        .take_refusal(&mut notices, &query_error("hts_1004", "No head timestamp"))
        .expect("a query is refused");

    assert!(hmds.pending.is_empty());
    assert_eq!(told(&notices), vec![(42, 162, "No head timestamp".to_string())]);
    assert_eq!(ended.over, None, "a head timestamp is no request for bars");
}

#[test]
fn query_error_for_unknown_query_id_drops_nothing_and_emits_no_error() {
    let mut hmds = HmdsState::new();
    let mut notices = Vec::new();
    hmds.pending.push(waiting(Asked::Bars, "hist_1003", 11));

    hmds.take_refusal(&mut notices, &query_error("hist_9999", "Boom"));

    assert_eq!(hmds.pending.len(), 1, "unrelated entry must stay");
    assert!(notices.is_empty());
}

#[test]
fn a_refusal_naming_a_continued_query_name_still_reaches_it() {
    let mut hmds = HmdsState::new();
    let mut notices = Vec::new();
    hmds.pending.push(waiting(Asked::Ticks, "tk_4", 77));

    hmds.take_refusal(&mut notices, &query_error("tk_4-headlines;;more", "no permission"));

    assert!(
        hmds.pending.is_empty(),
        "the refusal reached nothing, so the request waits for a reply that has already arrived",
    );
    let told = told(&notices);
    assert!(told.iter().any(|(r, ..)| *r == 77), "and the caller is told why: {told:?}");
}

#[test]
fn a_refused_tick_stream_is_matched_the_way_every_other_refusal_is() {
    let mut hmds = HmdsState::new();
    let mut notices = Vec::new();
    let mut sub = stream(41, 0, TbtType::Last);
    sub.query_id = "tbt_7".to_string();
    sub.venue_id = 0;
    hmds.ticks.subscriptions.push(sub);

    hmds.take_refusal(&mut notices, &query_error("tbt_7.1", "no such stream"));

    assert!(
        hmds.ticks.subscriptions.is_empty(),
        "the refusal named this stream and was read as naming none",
    );
    assert_eq!(told(&notices), [(41, 162, "no such stream".to_string())]);
}

#[test]
fn a_refused_batch_takes_the_kept_up_to_date_stream_with_it() {
    let mut hmds = HmdsState::new();
    let mut notices = Vec::new();
    hmds.pending.push(waiting(Asked::Bars, "hist_3001", 7));
    hmds.keep_up_to_date_reqs.push(7);
    hmds.rtbar_subs.push(BarStream { query: "rt_3002".to_string(), req_id: 7, ticker: Some(5) });
    hmds.rtbar_resub.push(7);
    hmds.forming_bars.push(7);

    let ended = hmds
        .take_refusal(&mut notices, &query_error("hist_3001", "Invalid time length"))
        .expect("a query is refused");

    assert!(hmds.rtbar_subs.is_empty(), "the stream goes with the request that failed");
    assert!(hmds.rtbar_resub.is_empty(), "and no reconnect asks for it again");
    assert!(hmds.forming_bars.is_empty(), "nor does the bar it was folding stay behind");
    assert!(!hmds.keep_up_to_date_reqs.contains(&7));
    assert_eq!(ended.withdrawn, [5], "the stream is cancelled by the venue's number");
    assert_eq!(told(&notices).len(), 1);
    assert_eq!(told(&notices)[0].0, 7);
}

#[test]
fn a_refusal_of_a_standalone_actions_query_leaves_the_fold_alone() {
    let mut hmds = HmdsState::new();
    let mut notices = Vec::new();
    hmds.held.push(HeldSeries { actions_query: Some("adj_1".to_string()), ..held(7) });
    hmds.pending.push(waiting(Asked::Adjustments, "adj_1", 7));
    hmds.pending.push(waiting(Asked::Adjustments, "adj_9999", 7));

    hmds.take_refusal(&mut notices, &query_error("adj_9999", "no permission"));
    assert_eq!(hmds.held.len(), 1, "the fold's series was not what was refused");
    assert_eq!(told(&notices).len(), 1, "the refused question is still reported");
    assert_eq!(told(&notices)[0].0, 7);

    // Refused its own actions, the series is let go and the request is over.
    let ended = hmds.take_refusal(&mut notices, &query_error("adj_1", "no permission")).unwrap();
    assert!(hmds.held.is_empty());
    assert_eq!(ended.over, Some(7));
}

#[test]
fn a_refused_stream_half_is_told_nothing_and_leaves_the_request_kept() {
    for history_in in [true, false] {
        let mut hmds = HmdsState::new();
        let mut notices = Vec::new();
        if !history_in {
            hmds.held.push(held(9));
        }
        hmds.pending.push(waiting(Asked::Bars, "hist_4001", 9));
        hmds.keep_up_to_date_reqs.push(9);
        hmds.rtbar_subs.push(BarStream { query: "rt_4002".to_string(), req_id: 9, ticker: None });
        hmds.rtbar_resub.push(9);
        hmds.forming_bars.push(9);
        if !history_in {
            assert_eq!(
                hmds.route(&bar_page("hist_4001", false)),
                Some(Routed { asked: Asked::Bars, req_id: 9, done: false }),
            );
        }

        let ended = hmds.take_refusal(&mut notices, &query_error("rt_4002", "no")).unwrap();

        assert!(hmds.rtbar_subs.iter().all(|s| s.req_id != 9), "the stream is gone");
        assert!(!hmds.rtbar_resub.contains(&9), "and is not asked for again");
        assert!(hmds.keep_up_to_date_reqs.contains(&9), "the request is still kept: {history_in}");
        assert_eq!(ended.over, None);
        if !history_in {
            assert_eq!(hmds.held.len(), 1, "the pages held before the refusal are held yet");
            assert_eq!(
                hmds.route(&bar_page("hist_4001", true)),
                Some(Routed { asked: Asked::Bars, req_id: 9, done: true }),
                "a history still arriving ends as it would have",
            );
        }
        assert!(notices.is_empty(), "nothing is told: {notices:?}");
    }
}

#[test]
fn withdrawing_a_kept_up_to_date_request_leaves_no_record_under_its_number() {
    let mut hmds = HmdsState::new();
    hmds.keep_up_to_date_reqs.push(9);
    hmds.rtbar_subs.push(BarStream { query: "rt_9".to_string(), req_id: 9, ticker: Some(4002) });
    hmds.rtbar_subs.push(BarStream { query: "rt_8".to_string(), req_id: 8, ticker: Some(4001) });
    hmds.rtbar_subs.push(BarStream { query: "hist_9".to_string(), req_id: 9, ticker: Some(4003) });

    let withdrawn = hmds.withdraw_the_stream_half(9);

    assert!(hmds.rtbar_subs.iter().all(|s| s.req_id != 9), "no record stands under the number");
    assert_eq!(hmds.rtbar_subs.len(), 1, "and the other request's stands");
    assert_eq!(withdrawn, [4002, 4003], "and the stream is withdrawn");
}

#[test]
fn a_head_timestamp_with_no_connection_is_refused_not_left_pending() {
    let mut hmds = HmdsState::new();
    let mut notices = Vec::new();
    assert!(hmds.may_ask(&mut notices, Asked::HeadTimestamp, 3));
    hmds.record(&mut notices, waiting(Asked::HeadTimestamp, "hts_1", 3), false);

    assert!(hmds.pending.is_empty(), "a request that could not be sent is not left pending");
    let told = told(&notices);
    assert!(
        told.iter().any(|(id, code, _)| *id == 3 && *code == 504),
        "the caller is told the request could not be sent: {told:?}",
    );
}

#[test]
fn scanner_parameters_on_a_dead_connection_is_reported_not_dropped() {
    let mut hmds = HmdsState::new();
    let mut notices = Vec::new();

    hmds.record_scanner_params(&mut notices, false);

    assert!(!hmds.pending_scanner_params, "nothing was sent, so nothing is awaited");
    let told = told(&notices);
    assert_eq!(told.len(), 1, "the caller is told it was not sent");
    assert_eq!(told[0].0, i64::from(NO_REQUEST));
    assert_eq!(
        told[0].1, 504,
        "the request never left, so the service reported no difficulty with it",
    );

    hmds.record_scanner_params(&mut notices, true);
    assert!(hmds.pending_scanner_params);
}

#[test]
fn a_news_query_that_did_not_go_out_is_refused_not_registered() {
    let mut hmds = HmdsState::new();
    let mut notices = Vec::new();
    hmds.record(&mut notices, waiting(Asked::News, "news_1", 7), false);
    hmds.record(&mut notices, waiting(Asked::Article, "art_1", 8), false);
    assert!(hmds.pending.is_empty(), "nothing waits on a request that never left");
    let told = told(&notices);
    let codes: Vec<_> = told.iter().map(|(id, code, _)| (*id, *code)).collect();
    assert_eq!(codes, [(7, 504), (8, 504)], "{told:?}");
}

#[test]
fn a_scan_that_did_not_go_out_is_refused_and_not_recorded() {
    let mut hmds = HmdsState::new();
    let mut notices = Vec::new();
    assert!(hmds.may_ask(&mut notices, Asked::Scan, 9));
    hmds.record(&mut notices, waiting(Asked::Scan, "APISCAN1:9", 9), false);
    assert!(hmds.pending.is_empty(), "nothing is running");
    let told = told(&notices);
    assert!(told.iter().any(|e| e.0 == 9 && e.1 == Refusal::NOT_CONNECTED), "{told:?}");
}

#[test]
fn a_number_already_running_a_scan_is_not_given_another() {
    let mut hmds = HmdsState::new();
    let mut notices = Vec::new();

    assert!(hmds.may_ask(&mut notices, Asked::Scan, 9));
    hmds.record(&mut notices, waiting(Asked::Scan, "APISCAN1:9", 9), true);
    assert_eq!(hmds.waiting_on(Asked::Scan), 1, "the first scan is running");

    assert!(!hmds.may_ask(&mut notices, Asked::Scan, 9));

    assert_eq!(hmds.waiting_on(Asked::Scan), 1, "the second scan does not join it");
    assert_eq!(hmds.pending[0].query, "APISCAN1:9", "and the running scan is the one asked for");
    let told = told(&notices);
    assert_eq!(told.len(), 1, "the caller is told: {told:?}");
    assert_eq!(told[0].1, 385, "under the number that names it");
}

#[test]
fn a_number_already_answering_a_historical_query_is_not_given_another() {
    let mut hmds = HmdsState::new();
    let mut notices = Vec::new();

    assert!(hmds.may_ask(&mut notices, Asked::Bars, 9));
    hmds.held.push(held(9));
    hmds.record(&mut notices, waiting(Asked::Bars, "hist_1", 9), true);
    assert_eq!(hmds.held.len(), 1, "the first request is held for its pages");
    assert!(notices.is_empty());

    assert!(!hmds.may_ask(&mut notices, Asked::Bars, 9));
    assert!(!hmds.may_ask(&mut notices, Asked::HeadTimestamp, 9));
    assert!(!hmds.may_ask(&mut notices, Asked::Histogram, 9));
    assert_eq!(hmds.held.len(), 1, "the second contract does not join the first's series");
    assert_eq!(hmds.waiting_on(Asked::Bars), 1, "only one query is in flight under the number");
    assert!(
        hmds.waiting_on(Asked::HeadTimestamp) == 0 && hmds.waiting_on(Asked::Histogram) == 0,
        "neither goes out under the number",
    );
    let told = told(&notices);
    assert_eq!(told.len(), 3, "the caller is told each time: {told:?}");
    assert!(
        told.iter().all(|(id, code, text)| {
            (*id, *code, text.as_str()) == (9, 386, "Duplicate ticker ID for API historical data query")
        }),
        "under the number that names it, in a gateway's words: {told:?}",
    );
}

#[test]
fn a_series_whose_actions_could_not_be_asked_for_is_let_go() {
    let mut hmds = HmdsState::new();
    let mut notices = Vec::new();
    hmds.held.push(held(21));

    let ended = hmds.record(&mut notices, waiting(Asked::Adjustments, "adj_1", 21), false);

    assert!(hmds.held.is_empty(), "nothing is waiting on a request that never left");
    let told = told(&notices);
    assert_eq!(told.len(), 1, "told once, here, rather than again at teardown");
    assert_eq!(told[0].0, 21);
    assert_eq!(ended.over, Some(21), "and the request is over");
}

#[test]
fn a_lost_connection_answers_the_requests_it_took_with_it() {
    let mut hmds = HmdsState::new();
    let mut notices = Vec::new();
    hmds.pending.push(waiting(Asked::HeadTimestamp, "hts", 61));
    hmds.pending.push(waiting(Asked::Fundamental, "fund", 62));
    hmds.pending.push(waiting(Asked::Ticks, "tk", 63));

    hmds.fail_pending("the connection went", &mut notices);

    let told = told(&notices);
    for req_id in [61, 62, 63] {
        assert!(
            told.iter().any(|(rid, ..)| *rid == req_id),
            "request {req_id} was told the connection went: {told:?}",
        );
    }
    assert!(hmds.pending.is_empty(), "and nothing is left waiting");
}

#[test]
fn a_disconnect_does_not_resurrect_a_failed_request_s_stream() {
    let mut hmds = HmdsState::new();
    let mut notices = Vec::new();
    hmds.pending.push(waiting(Asked::Bars, "hist_4001", 9));
    hmds.keep_up_to_date_reqs.push(9);
    hmds.rtbar_subs.push(BarStream { query: "rt_4002".to_string(), req_id: 9, ticker: None });
    hmds.rtbar_resub.push(9);
    hmds.forming_bars.push(9);
    hmds.rtbar_subs.push(BarStream { query: "rt_4003".to_string(), req_id: 10, ticker: None });
    hmds.rtbar_resub.push(10);

    let over = hmds.fail_pending("the connection went", &mut notices);

    assert!(told(&notices).iter().any(|(rid, ..)| *rid == 9), "the caller was told the request failed");
    assert_eq!(over, [9]);
    assert!(!hmds.rtbar_resub.contains(&9), "and nothing asks for its stream again");
    assert!(hmds.rtbar_subs.iter().all(|s| s.req_id != 9));
    assert!(!hmds.forming_bars.contains(&9));
    assert!(hmds.rtbar_resub.contains(&10), "a stream that is still wanted survives the disconnect");
}

#[test]
fn a_lost_connection_answers_the_scanner_parameters_too() {
    let mut hmds = HmdsState::new();
    let mut notices = Vec::new();
    hmds.record_scanner_params(&mut notices, true);
    hmds.fail_pending("gone", &mut notices);
    assert!(!hmds.pending_scanner_params);
    assert_eq!(told(&notices), [(i64::from(NO_REQUEST), 504, "gone".to_string())]);
}

fn tick_segment(query_id: &str, done: bool) -> String {
    format!(
        "<ResultSetTick><id>{}</id><eoq>{}</eoq><tz>UTC</tz><Events>\
         <Tick><time>20260714-13:30:00</time><price>100.0</price><size>1</size></Tick>\
         </Events></ResultSetTick>",
        query_id,
        if done { "true" } else { "false" },
    )
}

#[test]
fn a_segmented_tick_reply_keeps_its_route_until_the_venue_is_done() {
    let mut hmds = HmdsState::new();
    hmds.pending.push(waiting(Asked::Ticks, "tk_1", 31));

    let first = hmds.route(&tick_segment("tk_1", false)).expect("it reaches the caller");
    assert_eq!(hmds.pending.len(), 1, "more is coming, so the route stays");
    assert_eq!((first.req_id, first.done), (31, false));

    let last = hmds.route(&tick_segment("tk_1", true)).expect("it reaches the caller");
    assert!(hmds.pending.is_empty(), "the last segment releases it");
    assert_eq!((last.req_id, last.done), (31, true), "both segments reached the caller");
}

#[test]
fn a_news_reply_answers_the_request_it_names() {
    let mut hmds = HmdsState::new();
    hmds.pending.push(waiting(Asked::News, "news_1", 51));
    hmds.pending.push(waiting(Asked::News, "news_2", 52));

    let xml = "<NewsResponse><id>news_2-headlines;;NewsQuery;;0;;true;;0;;U</id></NewsResponse>";
    let answered = hmds.route(xml).expect("one answer reached a caller");
    assert_eq!(answered.req_id, 52, "and it is the caller the reply names");
    assert_eq!(
        hmds.pending.iter().map(|w| w.query.as_str()).collect::<Vec<_>>(),
        vec!["news_1"],
        "the other request is still outstanding",
    );
}

#[test]
fn a_query_its_answer_ended_is_not_withdrawn_again() {
    for news in [true, false] {
        let mut hmds = HmdsState::new();
        let mut notices = Vec::new();
        let asked = if news { Asked::News } else { Asked::Fundamental };
        let query = if news { "news_1" } else { "fund_1" };
        hmds.pending.push(waiting(asked, query, 51));
        let reply = if news {
            "<NewsResponse><id>news_1-headlines;;NewsQuery;;0;;true;;0;;U</id></NewsResponse>"
        } else {
            "<FundamentalsResponse><id>fund_1</id></FundamentalsResponse>"
        };
        assert!(hmds.route(reply).is_some_and(|to| to.done));
        assert_eq!(
            hmds.withdraw(&mut notices, asked, 51),
            None,
            "news {news}: nothing goes to the venue",
        );
        let codes: Vec<i32> = told(&notices).iter().map(|e| e.1).collect();
        assert_eq!(codes, if news { vec![NO_SUCH_SUBSCRIPTION] } else { vec![] }, "news {news}");
    }
}

#[test]
fn a_waiting_query_is_withdrawn_under_the_name_it_went_out_under() {
    let mut hmds = HmdsState::new();
    let mut notices = Vec::new();
    hmds.pending.push(waiting(Asked::News, "news_1", 51));
    assert_eq!(hmds.withdraw(&mut notices, Asked::News, 51).as_deref(), Some("news_1"));
    assert!(hmds.pending.is_empty() && notices.is_empty());
}

#[test]
fn a_head_timestamp_answers_the_request_the_reply_names() {
    let mut hmds = HmdsState::new();
    hmds.pending.push(waiting(Asked::HeadTimestamp, "tk_1;;1@SMART Last", 41));
    hmds.pending.push(waiting(Asked::HeadTimestamp, "tk_2;;2@SMART Last", 42));

    let answered = hmds
        .route(
            "<ResultSetHeadTimeStamp><id>tk_2;;2@SMART Last</id><eoq>true</eoq>\
             <headTS>19930129-09:00:00</headTS><tz>US/Eastern</tz></ResultSetHeadTimeStamp>",
        )
        .expect("it is answered");
    assert_eq!(answered.req_id, 42, "the reply named the second request");
}

#[test]
fn an_answer_naming_no_pending_query_is_not_handed_to_another() {
    let mut hmds = HmdsState::new();
    hmds.pending.push(waiting(Asked::HeadTimestamp, "hts_of_another_query", 71));
    hmds.pending.push(waiting(Asked::Histogram, "hg_of_another_query", 72));

    for xml in [
        "<ResultSetHeadTimeStamp><id>nobody</id><eoq>true</eoq>\
         <headTS>19930129-09:00:00</headTS><tz>US/Eastern</tz></ResultSetHeadTimeStamp>",
        "<ResultSetHistogram><id>nobody</id><eoq>true</eoq>\
         <Events><Tick><price>100.0</price><size>5</size></Tick></Events></ResultSetHistogram>",
    ] {
        assert_eq!(hmds.route(xml), None);
    }
    assert_eq!(hmds.waiting_on(Asked::HeadTimestamp), 1, "and both are still waiting");
    assert_eq!(hmds.waiting_on(Asked::Histogram), 1);
}

#[test]
fn a_reply_with_no_closed_name_answers_nothing() {
    assert!(!answers("<ResultSetTick><id>tk_1", "tk_1"));
    assert!(!answers("", "tk_1"));
    assert!(!answers("tk_1", "tk_1"));
}
