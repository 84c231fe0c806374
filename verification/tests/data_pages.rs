//! The data service's answers: pages of a series, segments of ticks, and
//! replies that cannot be read.

use ibkr_dx::engine::hmds::answers::{Answer, Filed};
use ibkr_dx::engine::hmds::pages::{read_page, rows_of};
use ibkr_dx::engine::hmds::queries::{Asked, BarStream, Ended, HeldSeries, HmdsState, Waiting};
use ibkr_dx::engine::hmds::replies::Routed;
use ibkr_dx::engine::hmds::series::{put_bar, put_page, Bar};
use ibkr_dx::engine::known::Notice;

fn waiting(asked: Asked, query: &str, req_id: u32) -> Waiting {
    Waiting { asked, query: query.to_string(), req_id }
}

fn held(req_id: u32) -> HeldSeries {
    HeldSeries {
        req_id,
        bars: Vec::new(),
        timezone: String::new(),
        actions_query: None,
        complete: false,
    }
}

/// The requests something was told under.
fn told(notices: &[Notice]) -> Vec<i64> {
    notices
        .iter()
        .map(|notice| match notice {
            Notice::RequestRefused { req_id, .. } => *req_id,
            other => panic!("told something else: {other:?}"),
        })
        .collect()
}

fn filed(answer: Answer) -> Filed {
    match answer {
        Answer::Series(filed) => filed,
        other => panic!("no series: {other:?}"),
    }
}

fn make_bar_msg(query_id: &str, eoq: bool) -> String {
    format!(
        "<ResultSetBar><id>{}</id><eoq>{}</eoq><tz>UTC</tz><Events>\
         <Bar><time>20260714-13:30:00</time><open>100.0</open><close>100.5</close>\
         <high>100.7</high><low>99.9</low><weightedAvg>100.2</weightedAvg>\
         <volume>1000</volume><count>10</count></Bar></Events></ResultSetBar>",
        query_id,
        if eoq { "true" } else { "false" },
    )
}

fn bar_page_msg(query_id: &str, eoq: bool, tz: &str) -> String {
    let tz_tag = if tz.is_empty() { String::new() } else { format!("<tz>{tz}</tz>") };
    format!(
        "<ResultSetBar><id>{query_id}</id><eoq>{eoq}</eoq>{tz_tag}<Events>\
         <Bar><time>20260714-13:30:00</time><open>1</open><close>1</close>\
         <high>1</high><low>1</low><weightedAvg>1</weightedAvg>\
         <volume>1</volume><count>1</count></Bar></Events></ResultSetBar>",
    )
}

fn page_of(query_id: &str, days: &[&str], eoq: bool) -> String {
    let bars: String = days
        .iter()
        .map(|d| {
            format!(
                "<Bar><time>{d}-13:30:00</time><open>1</open><close>1</close><high>1</high>\
                 <low>1</low><weightedAvg>1</weightedAvg><volume>1</volume><count>1</count></Bar>",
            )
        })
        .collect();
    format!(
        "<ResultSetBar><id>{query_id}</id><eoq>{eoq}</eoq><tz>US/Eastern</tz>\
         <Events>{bars}</Events></ResultSetBar>",
    )
}

#[test]
fn segmented_bar_reply_completes_on_eoq_true() {
    let mut hmds = HmdsState::new();
    let mut notices = Vec::new();
    hmds.pending.push(waiting(Asked::Bars, "q7", 21));
    hmds.held.push(held(21));

    let early = hmds.take_reply(&mut notices, &make_bar_msg("q7", false));
    assert_eq!(hmds.pending_historical_count(), 1, "entry must persist through eoq=false");
    assert_eq!(early, Answer::Kept { req_id: 21 }, "nothing is filed before the last page");

    let last = hmds.take_reply(&mut notices, &make_bar_msg("q7", true));
    assert_eq!(hmds.pending_historical_count(), 0, "eoq=true must release the pending entry");

    let hist = filed(last);
    assert_eq!(hist.req_id, 21, "the series is filed once its last page is in");
    assert_eq!(hist.bars.len(), 2, "with every page's bars in it");
}

#[test]
fn conadj_response_frame_is_skipped_without_disturbing_pending() {
    let mut hmds = HmdsState::new();
    let mut notices = Vec::new();
    hmds.pending.push(waiting(Asked::Bars, "q8", 22));

    let answer = hmds.take_reply(
        &mut notices,
        "<ConAdjResponse><id>ContractAdjustment1</id></ConAdjResponse>",
    );

    assert_eq!(
        hmds.pending_historical_count(),
        1,
        "ConAdjResponse must not touch pending historical",
    );
    assert_eq!(answer, Answer::Nowhere);
    assert!(notices.is_empty());
}

#[test]
fn a_page_that_states_no_zone_takes_the_one_the_series_stated() {
    let mut hmds = HmdsState::new();
    let mut notices = Vec::new();
    hmds.pending.push(waiting(Asked::Bars, "hist_1", 7));
    hmds.held.push(held(7));

    hmds.take_reply(&mut notices, &bar_page_msg("hist_1", false, "US/Eastern"));
    hmds.take_reply(&mut notices, &bar_page_msg("hist_1", false, ""));
    let last = hmds.take_reply(&mut notices, &bar_page_msg("hist_1", true, ""));

    let filed = filed(last);
    assert_eq!(filed.timezone, "US/Eastern", "on the zone the series stated");
    assert_eq!(filed.bars.len(), 3, "every page's bars in it");
    assert!(hmds.held.is_empty(), "and nothing is held once it has answered");
}

#[test]
fn a_paged_series_is_delivered_oldest_first_whatever_order_the_pages_arrive_in() {
    let mut hmds = HmdsState::new();
    let mut notices = Vec::new();
    hmds.pending.push(waiting(Asked::Bars, "hist_1", 7));
    hmds.held.push(held(7));

    hmds.take_reply(&mut notices, &page_of("hist_1", &["20260901", "20260902"], false));
    hmds.take_reply(&mut notices, &page_of("hist_1", &["20250327", "20250328"], false));
    let last = hmds.take_reply(&mut notices, &page_of("hist_1", &["20230905", "20230906"], true));

    let days: Vec<String> = filed(last).bars.iter().map(|b| b.time[..8].to_string()).collect();
    assert_eq!(days.len(), 6, "every bar is present");
    assert!(
        days.windows(2).all(|w| w[0] < w[1]),
        "the series must ascend across page boundaries, oldest first: {days:?}",
    );
}

#[test]
fn an_unreadable_page_ends_a_kept_up_to_date_request_still_assembling() {
    let mut hmds = HmdsState::new();
    let mut notices = Vec::new();
    hmds.pending.push(waiting(Asked::Bars, "q9", 9));
    hmds.keep_up_to_date_reqs.push(9);
    hmds.held.push(held(9));
    hmds.rtbar_subs.push(BarStream { query: "rt_1".to_string(), req_id: 9, ticker: Some(4) });
    let xml = "<ResultSetBar><id>q9</id><eoq>true</eoq><tz>UTC</tz><Events><Bar><time>20260714-13:30:00</time><open>100.0</open></Bar></Events></ResultSetBar>";
    let answer = hmds.take_reply(&mut notices, xml);
    assert!(hmds.pending.iter().all(|w| w.req_id != 9), "the number is released");
    assert!(hmds.held.iter().all(|a| a.req_id != 9), "and the series with it");
    assert!(!hmds.keep_up_to_date_reqs.contains(&9), "and the stream half");
    assert_eq!(told(&notices), vec![9], "the caller is told");
    assert_eq!(
        answer,
        Answer::Ended(Ended { over: Some(9), withdrawn: vec![4] }),
        "and no end follows it",
    );
}

#[test]
fn a_tick_segment_cut_mid_row_ends_the_request() {
    let mut hmds = HmdsState::new();
    let mut notices = Vec::new();
    hmds.pending.push(waiting(Asked::Ticks, "tk_9", 31));

    let answer = hmds.take_reply(
        &mut notices,
        "<ResultSetTick><id>tk_9</id><eoq>true</eoq><tz>UTC</tz><Events>\
         <Tick><time>20260714-13:30:00</time><price>100.0</price>",
    );

    assert_eq!(
        hmds.waiting_on(Asked::Ticks),
        0,
        "the request waits on a reply the venue has already sent",
    );
    assert!(told(&notices).contains(&31), "the caller is told: {notices:?}");
    assert_eq!(
        answer,
        Answer::Ticks { req_id: 31, rows: Vec::new(), done: true },
        "and released, or a caller reading these off the callback waits on a last segment that is \
         not coming",
    );
}

#[test]
fn an_unreadable_article_is_reported_rather_than_swallowed() {
    let mut hmds = HmdsState::new();
    let mut notices = Vec::new();
    hmds.pending.push(waiting(Asked::Article, "art_1", 61));

    let xml = "<NewsResponse><id>art_1-article_file;;NewsQuery;;0;;true;;0;;U</id></NewsResponse>";
    let article = hmds.take_payload(&mut notices, xml, None);

    assert_eq!(hmds.waiting_on(Asked::Article), 0, "the request is spent either way");
    assert_eq!(article, None, "there was no article to deliver");
    assert!(told(&notices).contains(&61), "and the caller is told, rather than left waiting");
}

#[test]
fn a_news_reply_naming_nothing_pending_is_noted() {
    let mut hmds = HmdsState::new();
    let mut notices = Vec::new();
    let xml = "<NewsResponse><id>news_9-history;;NewsQuery;;0;;true;;0;;U</id></NewsResponse>";
    match hmds.take_reply(&mut notices, xml) {
        Answer::Unread { what } => assert!(what.contains("news reply"), "{what}"),
        other => panic!("it is noted: {other:?}"),
    }
    assert!(notices.is_empty());
}

/// A histogram's entries, where every price reads as a number.
fn histogram(reply: &str) -> Option<String> {
    let rows = rows_of(reply, "Tick")?;
    let prices = rows_of(reply, "price")?;
    let reads = prices.len() == rows.len() && prices.iter().all(|p| p.parse::<f64>().is_ok());
    reads.then_some(rows.join(";"))
}

#[test]
fn an_unreadable_histogram_reply_fails_the_query_it_names() {
    let mut hmds = HmdsState::new();
    let mut notices = Vec::new();
    let qid = "hg_1;;265598";
    hmds.pending.push(waiting(Asked::Histogram, qid, 71));

    let xml = format!(
        "<ResultSetHistogram><id>{qid}</id><Events>\
         <Tick><price>not-a-number</price><size>1500</size></Tick>\
         </Events></ResultSetHistogram>",
    );
    let entries = hmds.take_payload(&mut notices, &xml, histogram(&xml));

    assert_eq!(hmds.waiting_on(Asked::Histogram), 0, "the request is spent either way");
    assert_eq!(entries, None, "there were no entries to deliver");
    assert!(told(&notices).contains(&71), "and the caller is told, rather than left waiting");

    hmds.pending.push(waiting(Asked::Histogram, qid, 72));
    let readable = xml.replace("not-a-number", "10.5");
    let entries = hmds.take_payload(&mut notices, &readable, histogram(&readable));
    assert_eq!(
        entries,
        Some((72, "<price>10.5</price><size>1500</size>".to_string())),
        "and one that reads is handed over",
    );
}

#[test]
fn a_series_that_waits_on_its_actions_is_held_whole() {
    let mut hmds = HmdsState::new();
    let mut notices = Vec::new();
    hmds.pending.push(waiting(Asked::Bars, "hist_1", 7));
    hmds.held.push(HeldSeries { actions_query: Some("adj_1".to_string()), ..held(7) });
    let answer = hmds.take_reply(&mut notices, &bar_page_msg("hist_1", true, "UTC"));
    assert_eq!(answer, Answer::Kept { req_id: 7 });
    assert!(hmds.held[0].complete, "its last page is in");
    assert_eq!(hmds.held[0].bars.len(), 1);
    assert_eq!(hmds.pending_historical_count(), 0);
}

#[test]
fn a_page_of_a_series_nothing_is_held_for_is_a_series_by_itself() {
    let mut hmds = HmdsState::new();
    let mut notices = Vec::new();
    hmds.pending.push(waiting(Asked::Bars, "hist_1", 7));
    let answer = hmds.take_reply(&mut notices, &page_of("hist_1", &["20260902", "20260901"], true));
    let times: Vec<String> = filed(answer).bars.into_iter().map(|b| b.time).collect();
    assert_eq!(times, vec!["20260901-13:30:00", "20260902-13:30:00"]);
}

#[test]
fn an_answer_of_another_kind_is_routed() {
    let mut hmds = HmdsState::new();
    let mut notices = Vec::new();
    hmds.pending.push(waiting(Asked::HeadTimestamp, "tk_1", 41));
    let answer = hmds.take_reply(&mut notices, "<ResultSetHeadTimeStamp><id>tk_1</id></ResultSetHeadTimeStamp>");
    assert_eq!(
        answer,
        Answer::Other(Routed { asked: Asked::HeadTimestamp, req_id: 41, done: true }),
    );
    assert!(hmds.pending.is_empty());
}

#[test]
fn a_segment_of_ticks_hands_over_its_rows() {
    let mut hmds = HmdsState::new();
    let mut notices = Vec::new();
    hmds.pending.push(waiting(Asked::Ticks, "tk_1", 31));
    let xml = "<ResultSetTick><id>tk_1</id><eoq>false</eoq><Events><Tick>a</Tick><Tick>b</Tick></Events></ResultSetTick>";
    assert_eq!(
        hmds.take_reply(&mut notices, xml),
        Answer::Ticks { req_id: 31, rows: vec!["a".to_string(), "b".to_string()], done: false },
    );
    assert_eq!(hmds.waiting_on(Asked::Ticks), 1);
}

#[test]
fn rows_are_read_only_where_each_is_closed() {
    assert_eq!(rows_of("<r>1</r>x<r>2</r>", "r"), Some(vec!["1".to_string(), "2".to_string()]));
    assert_eq!(rows_of("nothing", "r"), Some(Vec::new()));
    assert_eq!(rows_of("<r>1</r><r>2", "r"), None);
    let dated = "<Bar><date>20260309</date><open>1</open><close>2</close><high>3</high><low>4</low>\
                 <weightedAvg>5</weightedAvg><volume>6</volume><count>7</count></Bar>";
    let page = read_page(dated).unwrap();
    assert_eq!(page.timezone, "");
    assert_eq!(
        page.bars,
        vec![Bar {
            time: "20260309".to_string(),
            open: "1".to_string(),
            high: "3".to_string(),
            low: "4".to_string(),
            close: "2".to_string(),
            weighted: "5".to_string(),
            volume: "6".to_string(),
            count: "7".to_string(),
        }],
    );
}

#[test]
fn bars_of_one_moment_stay_in_the_order_they_came() {
    let bar = |time: &str, open: &str| Bar {
        time: time.to_string(),
        open: open.to_string(),
        high: String::new(),
        low: String::new(),
        close: String::new(),
        weighted: String::new(),
        volume: String::new(),
        count: String::new(),
    };
    let mut bars = Vec::new();
    put_page(&mut bars, vec![bar("2", "a"), bar("1", "b"), bar("2", "c")]);
    put_bar(&mut bars, bar("1", "d"));
    put_bar(&mut bars, bar("10", "e"));
    let opens: Vec<&str> = bars.iter().map(|b| b.open.as_str()).collect();
    assert_eq!(opens, vec!["b", "d", "e", "a", "c"]);
}
