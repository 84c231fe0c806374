//! Texts, numbers, dates, tables, figures by their bits, logging, and what an
//! option calculation decides before any figure is worked out.

use ibkr_dx::bits::{above, magnitude_of, nought, stated, whole_part_of};
use ibkr_dx::listing::Listing;
use ibkr_dx::logging::{apply, redacted, Asked, LogConfig, LogSettings, QUEUE_CAPACITY};
use ibkr_dx::options::method::{method_of, takes_side_path, Method, Terms};
use ibkr_dx::options::nodes::strike_position;
use ibkr_dx::options::schedule::{dividends_counting, index_figures, Dividend};
use ibkr_dx::protocol::datetime::{days_to_ymd, nano_timestamp_text, unix_to_ib_utc_dash};
use ibkr_dx::reading::{characters, read_number, split_from, text_of};
use ibkr_dx::table::Table;
use ibkr_dx::text::{
    format_price, format_qty, format_uint, hundredths_text, int_text, joined, joined3, padded_text,
    small_text, uint_text, PRICE_SCALE,
};

#[test]
fn numbers_are_written_in_decimal() {
    for n in [0, 9, 10, 101, u64::MAX] {
        assert_eq!(uint_text(n), n.to_string());
        assert_eq!(format_uint(n), n.to_string());
    }
    for n in [0, -1, 42, i64::MIN, i64::MAX] {
        assert_eq!(int_text(n), n.to_string());
    }
    assert_eq!(padded_text(7, 2), "07");
    assert_eq!(padded_text(1234, 2), "1234");
    assert_eq!(hundredths_text(7), "0.07");
    assert_eq!(hundredths_text(1250), "12.50");
}

#[test]
fn a_price_carries_no_nought_it_does_not_need() {
    assert_eq!(format_price(0), "0");
    assert_eq!(format_price(101 * PRICE_SCALE), "101");
    assert_eq!(format_price(PRICE_SCALE / 4), "0.25");
    assert_eq!(format_price(-PRICE_SCALE / 4), "-0.25");
    assert_eq!(format_price(1), "0.00000001");
    assert_eq!(format_price(PRICE_SCALE + 1), "1.00000001");
    assert_eq!(format_price(i64::MIN), "-92233720368.54775808");
    assert_eq!(format_qty(PRICE_SCALE / 2), "0.5");
}

#[test]
fn texts_are_joined_and_made_small() {
    assert_eq!(joined("ab", "c"), "abc");
    assert_eq!(joined3("a", "", "c"), "ac");
    assert_eq!(small_text("AbC_9 Z"), "abc_9 z");
    assert_eq!(small_text("\u{c4}"), "\u{c4}", "only the capitals of ASCII");
}

#[test]
fn texts_are_read() {
    assert_eq!(text_of(&characters("a\u{e9}z")), "a\u{e9}z");
    assert_eq!(split_from(&characters("a;;b"), 0, ';'), vec!["a", "", "b"]);
    assert_eq!(split_from(&characters(""), 0, ';'), vec![""]);
    assert_eq!(split_from(&characters("a;b"), 2, ';'), vec!["b"]);
    assert_eq!(read_number("0042", 100), Some(42));
    assert_eq!(read_number("101", 100), None);
    assert_eq!(read_number("100", 100), Some(100));
    assert_eq!(read_number("", 100), None);
    assert_eq!(read_number("4x", 100), None);
    assert_eq!(read_number("99999999999999999999999", u64::MAX), None);
    assert_eq!(read_number(&u64::MAX.to_string(), u64::MAX), Some(u64::MAX));
}

#[test]
fn days_fall_on_their_dates() {
    assert_eq!(days_to_ymd(0), (1970, 1, 1));
    assert_eq!(days_to_ymd(58), (1970, 2, 28));
    assert_eq!(days_to_ymd(59), (1970, 3, 1));
    assert_eq!(days_to_ymd(11_016), (2000, 2, 29));
    assert_eq!(days_to_ymd(20_722), (2026, 9, 26));
    assert_eq!(days_to_ymd(47_540), (2100, 2, 28));
    assert_eq!(days_to_ymd(47_541), (2100, 3, 1), "a century that is no leap year");
    assert_eq!(unix_to_ib_utc_dash(0), "19700101-00:00:00");
    assert_eq!(unix_to_ib_utc_dash(951_868_799), "20000229-23:59:59");
    assert_eq!(nano_timestamp_text(951_868_799, 7), "2000-02-29T23:59:59.000000007Z");
}

#[test]
fn a_table_keeps_its_keys_in_the_order_they_came() {
    let mut table: Table<u64, String> = Table::new();
    assert!(table.get(&3).is_none() && !table.contains_key(&3));
    table.insert(3, "c".to_string());
    table.insert(1, "a".to_string());
    table.insert(3, "C".to_string());
    assert_eq!(table.key_list(), vec![3, 1]);
    assert_eq!(table.get(&3).map(String::as_str), Some("C"));
    assert_eq!(table.remove(&3).as_deref(), Some("C"));
    assert_eq!(table.remove(&3), None);
    assert_eq!(table.key_list(), vec![1]);
}

#[test]
fn a_list_holds_one_value_under_a_key() {
    let mut list: Listing<(u64, u32), i32> = Listing::new();
    list.insert((7, 1), 10);
    list.insert((7, 2), 20);
    list.insert((7, 1), 11);
    assert_eq!((list.get(&(7, 1)), list.get(&(7, 2)), list.get(&(1, 7))), (Some(&11), Some(&20), None));
    assert_eq!((list.remove(&(7, 1)), list.remove(&(7, 1))), (Some(11), None));
    assert_eq!(list.get(&(7, 2)), Some(&20));
    let mut texts: Listing<String, u32> = Listing::new();
    texts.insert("SPY".to_string(), 3);
    assert_eq!(texts.get(&"SPY".to_string()), Some(&3));
    assert_eq!(texts.get(&"SPX".to_string()), None);
}

#[test]
fn a_figure_is_read_off_its_bits() {
    for (value, whole) in [(0.5, 0), (1.0, 1), (3.99, 3), (100.0, 100), (1e9, 1_000_000_000), (1e12, i32::MAX)] {
        assert_eq!(whole_part_of(f64::to_bits(value)), whole);
    }
    assert_eq!(whole_part_of(f64::INFINITY.to_bits()), i32::MAX);
    assert!(nought((0.0f64).to_bits()) && nought((-0.0f64).to_bits()));
    assert!(above(f64::MIN_POSITIVE.to_bits()) && above(f64::INFINITY.to_bits()));
    assert!(!above((-1.0f64).to_bits()) && !above(f64::NAN.to_bits()) && !above(0));
    assert!(stated((-1.0f64).to_bits()) && stated(0));
    assert!(!stated(f64::MAX.to_bits()) && !stated(f64::NAN.to_bits()));
    assert!(!stated(f64::NEG_INFINITY.to_bits()));
    assert_eq!(magnitude_of((-2.5f64).to_bits()), (2.5f64).to_bits());
}

#[test]
fn a_log_tells_two_logins_apart_and_no_more() {
    assert_eq!(redacted(""), "");
    assert_eq!(redacted("abcd"), "****");
    assert_eq!(redacted("abcde"), "ab***");
    assert_eq!(redacted("DU1234567"), "DU*******");
}

#[test]
fn what_a_caller_states_of_logging_wins_over_the_environment() {
    let environment = || LogConfig::from_env(Some("/var/log".to_string()), None, Some("12"));
    assert_eq!(
        environment(),
        LogConfig { log_dir: Some("/var/log".to_string()), level: None, queue_capacity: 12 },
    );
    assert_eq!(LogConfig::from_env(None, None, Some("many")).queue_capacity, QUEUE_CAPACITY);
    assert_eq!(LogConfig::from_env(None, None, None), LogConfig::default());
    let silent = LogSettings { log_dir: None, log_level: None, log_queue: None };
    assert_eq!(LogConfig::stated(&silent, environment()), environment());
    let settings = LogSettings {
        log_dir: Some(String::new()),
        log_level: Some("debug".to_string()),
        log_queue: Some(3),
    };
    assert_eq!(
        LogConfig::stated(&settings, environment()),
        LogConfig {
            log_dir: Some("/var/log".to_string()),
            level: Some("debug".to_string()),
            queue_capacity: 3,
        },
    );
}

#[test]
fn a_session_that_states_nothing_of_logging_asks_for_nothing() {
    let silent = LogSettings { log_dir: None, log_level: None, log_queue: None };
    assert_eq!(apply(&silent, LogConfig::default()), Asked::Nothing);
    let settings = LogSettings {
        log_dir: None,
        log_level: Some("debug".to_string()),
        log_queue: Some(3),
    };
    let Asked::Install { config, otherwise } = apply(&settings, LogConfig::default()) else {
        panic!("it asks for something");
    };
    assert_eq!(config.level.as_deref(), Some("debug"));
    assert_eq!(config.queue_capacity, 3);
    assert!(otherwise.starts_with("log_level, log_queue stated after this process installed"));
}

fn dividend(ex_day: i32, millis_from_today: i64) -> Dividend {
    Dividend {
        ex_day,
        millis_to_ex_date: 0,
        millis_from_today,
        days_to_end_of_ex_date: 0,
        amount: (ex_day as f64).to_bits(),
    }
}

#[test]
fn a_dividend_counts_after_today_through_the_expirys_day() {
    let schedule = vec![dividend(-3, -30), dividend(0, 0), dividend(5, 50), dividend(9, 90), dividend(10, 100)];
    assert_eq!(dividends_counting(&schedule, 9), vec![2, 3]);
    assert!(dividends_counting(&schedule, 4).is_empty());
    let figures = index_figures(&schedule, 9).unwrap();
    assert_eq!(figures.last, dividend(9, 90));
    assert_eq!(figures.before, Some((dividend(0, 0), 90)));
    assert_eq!(index_figures(&schedule, 4), None);
    let later = vec![dividend(5, 50)];
    assert_eq!(index_figures(&later, 9).unwrap().before, None);
}

#[test]
fn each_option_has_the_method_of_its_terms() {
    let terms = |american, price_based, futures_style, degenerate| Terms {
        american,
        price_based,
        futures_style,
        degenerate,
    };
    assert_eq!(method_of(terms(true, true, false, true), false), Method::ArithmeticTree);
    assert_eq!(method_of(terms(false, true, true, true), true), Method::Arithmetic);
    assert_eq!(method_of(terms(true, false, false, false), false), Method::LognormalTree);
    assert_eq!(method_of(terms(true, false, true, false), false), Method::Lognormal);
    assert_eq!(method_of(terms(false, false, false, false), false), Method::Lognormal);
    assert_eq!(method_of(terms(true, false, false, true), false), Method::Deterministic);
    assert_eq!(method_of(terms(true, false, false, true), true), Method::LognormalTree);
    assert_eq!(method_of(terms(false, false, false, true), true), Method::Deterministic);
    assert!(takes_side_path(terms(true, false, false, true), true));
    assert!(!takes_side_path(terms(true, false, false, true), false));
    assert!(!takes_side_path(terms(true, false, true, true), true));
}

#[test]
fn a_strike_falls_between_the_nodes_around_it() {
    let nodes: Vec<u64> = [-1.0f64, 0.0, 1.0, 2.0, 2.0, 4.0].iter().map(|n| n.to_bits()).collect();
    let at = |strike: f64| strike_position(&nodes, strike.to_bits());
    assert_eq!(at(-2.0), 0);
    assert_eq!(at(0.5), 2);
    assert_eq!(at(1.0), 2);
    assert_eq!(at(3.0), 5);
    assert_eq!(at(9.0), 6);
    assert_eq!(at(f64::NAN), 6, "what is no number stands after every number");
    assert_eq!(strike_position(&Vec::new(), (1.0f64).to_bits()), 0);
}
