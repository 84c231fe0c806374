//! The records a chain's option model is worked from.

use ibkr_dx::protocol::chain_model::{
    self, settle, split_list, ChainModelTerm as Term, StatedSet,
};
use std::io::Write;

/// One expiry, its figures as numbers.
#[derive(Debug, PartialEq)]
struct ChainModelTerm {
    last_trade_date: String,
    model_yield: f64,
    interest_rate: f64,
    forward: f64,
    call_atm_vol: f64,
    put_atm_vol: f64,
    attributes: i32,
}

/// One set, its figures as numbers.
#[derive(Debug, PartialEq)]
struct ChainModelParameters {
    product_id: i32,
    classes: Vec<(String, Vec<f64>)>,
    underlying_price: Option<f64>,
    dividends: Vec<(String, f64)>,
    index_style_dividends: bool,
    terms: Vec<ChainModelTerm>,
    timestamp_millis: i64,
    attributes: i32,
}

fn term(term: Term) -> ChainModelTerm {
    ChainModelTerm {
        last_trade_date: term.last_trade_date,
        model_yield: f64::from_bits(term.model_yield),
        interest_rate: f64::from_bits(term.interest_rate),
        forward: f64::from_bits(term.forward),
        call_atm_vol: f64::from_bits(term.call_atm_vol),
        put_atm_vol: f64::from_bits(term.put_atm_vol),
        attributes: term.attributes,
    }
}

/// A set settled, each multiplier the quotient of the two figures stated for
/// it.
fn settled(set: StatedSet) -> Option<ChainModelParameters> {
    let divided: Vec<u64> = set
        .multipliers
        .iter()
        .map(|m| (f64::from_bits(m.numerator) / f64::from_bits(m.denominator)).to_bits())
        .collect();
    let set = settle(set, &divided)?;
    Some(ChainModelParameters {
        product_id: set.product_id,
        classes: set
            .classes
            .into_iter()
            .map(|(name, of)| (name, of.into_iter().map(f64::from_bits).collect()))
            .collect(),
        underlying_price: set.underlying_price.map(f64::from_bits),
        dividends: set.dividends.into_iter().map(|(day, of)| (day, f64::from_bits(of))).collect(),
        index_style_dividends: set.index_style_dividends,
        terms: set.terms.into_iter().map(term).collect(),
        timestamp_millis: set.timestamp_millis,
        attributes: set.attributes,
    })
}

/// A record read, and each of its sets settled.
fn parse(payload: &[u8]) -> Option<Vec<ChainModelParameters>> {
    chain_model::parse(payload)?.into_iter().map(settled).collect()
}

/// A record's fields, written the way the venue writes them.
#[derive(Default)]
struct Body(Vec<u8>);

impl Body {
    fn i32(mut self, v: i32) -> Self {
        self.0.extend_from_slice(&v.to_be_bytes());
        self
    }
    fn f64(mut self, v: f64) -> Self {
        self.0.extend_from_slice(&v.to_be_bytes());
        self
    }
    fn ascii(mut self, text: &str) -> Self {
        self = self.i32(text.len() as i32);
        self.0.extend_from_slice(text.as_bytes());
        self.0.resize(self.0.len() + (4 - text.len() % 4) % 4, 0);
        self
    }
    /// Compressed, behind one byte of the venue's own that is not part of
    /// the stream.
    fn record(self) -> Vec<u8> {
        let mut out = vec![0x01];
        let mut z = flate2::write::ZlibEncoder::new(Vec::new(), flate2::Compression::default());
        z.write_all(&self.0).unwrap();
        out.extend(z.finish().unwrap());
        out
    }
}

/// One set as the fourth version states it, ending with `attributes`.
fn one_set(version: i32, attributes: i32) -> Body {
    let body = Body::default().i32(version).i32(1).i32(1);
    let body = if version > 1 {
        body.i32(1).f64(100.0).f64(1.0).ascii("SPY")
    } else {
        body.ascii("SPY").f64(100.0).f64(1.0)
    };
    let body = body.f64(450.0).i32(1).i32(20500).f64(1.57).i32(1).i32(20560);
    let body = body.f64(0.0131).f64(0.0433).f64(451.2).f64(0.011).f64(0.0115);
    let body = if version > 3 { body.i32(5) } else { body };
    let body = body.i32(1_790_000_000);
    let body = if version > 2 { body.i32(0) } else { body };
    if version > 3 { body.i32(attributes) } else { body }
}

#[test]
fn a_set_is_read_whole() {
    let sets = parse(&one_set(4, 5).record()).expect("a record the venue could send");
    assert_eq!(
        sets,
        [ChainModelParameters {
            product_id: 1,
            classes: vec![("SPY".into(), vec![100.0])],
            underlying_price: Some(450.0),
            dividends: vec![("20260216".into(), 1.57)],
            index_style_dividends: false,
            terms: vec![ChainModelTerm {
                last_trade_date: "20260417".into(),
                model_yield: 0.0131,
                interest_rate: 0.0433,
                forward: 451.2,
                call_atm_vol: 0.011,
                put_atm_vol: 0.0115,
                attributes: 5,
            }],
            timestamp_millis: 1_790_000_000_000,
            attributes: 5,
        }],
    );
}

/// The underlying's price is stated either way, and stands only where the
/// flags say it does.
#[test]
fn a_price_the_flags_do_not_stand_behind_is_not_one() {
    let sets = parse(&one_set(4, 1).record()).unwrap();
    assert_eq!(sets[0].underlying_price, None);
}

/// The earlier versions state less, and what they leave out takes the
/// value the venue's own reader gives it.
#[test]
fn each_version_reads_only_what_it_states() {
    for version in [1, 2, 3] {
        let sets = parse(&one_set(version, 0).record())
            .unwrap_or_else(|| panic!("version {version} is read"));
        assert_eq!(sets[0].classes, [("SPY".to_string(), vec![100.0])], "v{version}");
        assert_eq!(sets[0].attributes, 1, "v{version} states no flags, so the set stands");
        assert_eq!(sets[0].underlying_price, None, "and says nothing for the price");
        assert_eq!(sets[0].terms[0].attributes, 1, "v{version}");
        assert_eq!(sets[0].timestamp_millis, 1_790_000_000_000, "v{version}");
    }
}

/// Classes named against more than one multiplier are one class with each
/// of them, and a list stated as nothing names none.
#[test]
fn a_class_carries_every_multiplier_named_for_it() {
    let body = Body::default().i32(4).i32(1).i32(9).i32(3);
    let body = body.f64(100.0).f64(1.0).ascii("SPY,SPXW,");
    let body = body.f64(10.0).f64(1.0).ascii("SPY");
    let body = body.f64(1.0).f64(0.0).i32(-1);
    let body = body.f64(0.0).i32(0).i32(0).i32(0).i32(1).i32(0);
    let sets = parse(&body.record()).unwrap();
    assert_eq!(
        sets[0].classes,
        [("SPY".to_string(), vec![100.0, 10.0]), ("SPXW".to_string(), vec![100.0])],
    );
    assert!(sets[0].index_style_dividends);
}

/// The first version states one multiplier for the whole list, so a class
/// the list names twice is a record that cannot be read.
#[test]
fn a_class_named_twice_under_one_multiplier_states_nothing() {
    let body = Body::default().i32(1).i32(1).i32(9).ascii("SPY,SPY").f64(100.0).f64(1.0);
    let body = body.f64(450.0).i32(0).i32(0).i32(1_790_000_000);
    assert_eq!(parse(&body.record()), None);
    let twice = Body::default().i32(1).i32(1).i32(9).ascii("SPY,SPY").f64(100.0).f64(1.0);
    let twice = twice.f64(450.0).i32(0).i32(0).i32(1_790_000_000);
    assert_eq!(chain_model::parse(&twice.record()), None, "before anything is divided");
}

/// Over nothing, a multiplier is no number, whatever stands above.
#[test]
fn a_multiplier_over_nought_is_no_number() {
    for (above, below) in [(100.0, 0.0), (-100.0, 0.0), (0.0, 0.0), (100.0, -0.0)] {
        let body = Body::default().i32(4).i32(1).i32(9).i32(2);
        let body = body.f64(above).f64(below).ascii("SPY");
        let body = body.f64(above).f64(below).ascii("SPY");
        let body = body.f64(0.0).i32(0).i32(0).i32(0).i32(1).i32(0);
        let sets = parse(&body.record()).unwrap();
        assert_eq!(sets[0].classes.len(), 1);
        assert_eq!(sets[0].classes[0].1.len(), 1, "and named once");
        assert_eq!(sets[0].classes[0].1[0].to_bits(), f64::NAN.to_bits());
    }
}

/// What follows a whole record is not read.
#[test]
fn bytes_behind_a_record_change_nothing() {
    let whole = parse(&one_set(4, 5).record());
    assert!(whole.is_some());
    assert_eq!(parse(&one_set(4, 5).i32(7).ascii("SPY").record()), whole);
}

/// A day is written as the date it is.
#[test]
fn a_day_is_counted_from_the_epoch() {
    for (days, date) in [
        (0, Some("19700101")),
        (59, Some("19700301")),
        (11_016, Some("20000229")),
        (2_932_896, Some("99991231")),
        (-1, Some("19691231")),
        (i32::MAX, None),
    ] {
        let body = Body::default().i32(4).i32(1).i32(9).i32(0).f64(450.0);
        let body = body.i32(1).i32(days).f64(0.25).i32(0).i32(0).i32(0).i32(1);
        let read = parse(&body.record()).map(|sets| sets[0].dividends[0].0.clone());
        assert_eq!(read.as_deref(), date, "{days}");
    }
}

/// A list's empty members at its end are not members; a list of nothing
/// at all is one empty member, and one of commas alone is none.
#[test]
fn a_list_is_split_the_way_its_writer_splits_it() {
    fn split(named: &str) -> Vec<String> {
        split_list(named)
    }
    assert_eq!(split("SPY,SPXW,,"), ["SPY", "SPXW"]);
    assert_eq!(split(",SPY"), ["", "SPY"]);
    assert_eq!(split(""), [""]);
    assert!(split(",,,").is_empty());
}

/// Nothing is kept from a record that cannot be read to its end.
#[test]
fn a_record_that_cannot_be_read_states_nothing() {
    let whole = one_set(4, 5);
    let mut short = Body(whole.0.clone());
    short.0.truncate(whole.0.len() - 1);
    assert_eq!(parse(&short.record()), None, "a stream that stops short");
    let compressed = one_set(4, 5).record();
    assert_eq!(parse(&compressed[..compressed.len() - 6]), None, "a stream cut off");
    assert_eq!(parse(&[0x01, 0x02, 0x03]), None, "no compressed stream at all");
    assert_eq!(parse(&[]), None);
    assert_eq!(parse(&Body::default().i32(4).i32(-1).record()), None, "a count below nought");
    assert_eq!(parse(&Body::default().i32(4).i32(0).record()), Some(Vec::new()));
}
