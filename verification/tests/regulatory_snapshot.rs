//! The answer to a regulatory snapshot.

use ibkr_dx::protocol::regulatory_snapshot::{self, Decimal, Price, Size};

/// What an answer states, as numbers.
#[derive(Debug, Default, PartialEq)]
struct SnapshotAnswer {
    bid: Option<(f64, f64)>,
    ask: Option<(f64, f64)>,
    last: Option<(f64, f64)>,
    bid_exchanges: i64,
    ask_exchanges: i64,
    last_exchange: Option<u32>,
    high: Option<f64>,
    low: Option<f64>,
    close: Option<f64>,
    volume: Option<f64>,
    odd_bid: Option<(f64, f64)>,
    odd_ask: Option<(f64, f64)>,
    odd_bid_exchanges: i64,
    odd_ask_exchanges: i64,
}

fn price(price: Price) -> f64 {
    match price {
        Price::Single(bits) => f64::from(f32::from_bits(bits)),
        Price::Double(bits) => f64::from_bits(bits),
    }
}

fn decimal(size: Decimal) -> f64 {
    match size {
        Decimal::Infinite => i64::MIN as f64,
        Decimal::Finite { negative, coefficient, scale } => {
            let magnitude = coefficient as f64;
            let value = if scale >= 0 {
                magnitude * 10f64.powi(scale)
            } else {
                magnitude / 10f64.powi(-scale)
            };
            if negative { -value } else { value }
        }
    }
}

fn size(size: Size) -> f64 {
    match size {
        Size::Whole(whole) => f64::from(whole),
        Size::Decimal(stated) => decimal(stated),
    }
}

fn side(stated: Option<(Price, Size)>) -> Option<(f64, f64)> {
    stated.map(|(p, s)| (price(p), size(s)))
}

fn decimal64(bits: u64) -> Option<f64> {
    regulatory_snapshot::decimal64(bits).map(decimal)
}

fn parse(payload: &[u8]) -> Option<SnapshotAnswer> {
    let answer = regulatory_snapshot::parse(payload)?;
    Some(SnapshotAnswer {
        bid: side(answer.bid),
        ask: side(answer.ask),
        last: side(answer.last),
        bid_exchanges: answer.bid_exchanges,
        ask_exchanges: answer.ask_exchanges,
        last_exchange: answer.last_exchange,
        high: answer.high.map(price),
        low: answer.low.map(price),
        close: answer.close.map(price),
        volume: answer.volume.map(size),
        odd_bid: side(answer.odd_bid),
        odd_ask: side(answer.odd_ask),
        odd_bid_exchanges: answer.odd_bid_exchanges,
        odd_ask_exchanges: answer.odd_ask_exchanges,
    })
}

/// A decimal64 with coefficient `c` and exponent `e`, in the plain form.
fn plain(c: u64, e: i32) -> u64 {
    ((e + 398) as u64) << 53 | c
}

#[test]
fn a_decimal_size_is_read_as_the_venue_encodes_it() {
    assert_eq!(decimal64(0x31C0_0000_0000_0064), Some(100.0));
    assert_eq!(decimal64(plain(100, 0)), Some(100.0));
    assert_eq!(decimal64(plain(15, -1)), Some(1.5));
    assert_eq!(decimal64(plain(1, -8)), Some(0.000_000_01));
    assert_eq!(decimal64(plain(3, 2)), Some(300.0));
    assert_eq!(decimal64(plain(7, 0) | 0x8000_0000_0000_0000), Some(-7.0));
    // The steered form: the coefficient's top bits are implied.
    let steered = 0x6000_0000_0000_0000 | (398u64 << 51) | 1;
    assert_eq!(decimal64(steered), Some(9_007_199_254_740_993.0));
    assert_eq!(decimal64(0x7C00_0000_0000_0000), None, "not a number");
    assert_eq!(decimal64(0x7E00_0000_0000_0000), None, "the signalling one too");
    assert_eq!(decimal64(0x7800_0000_0000_0000), Some(i64::MIN as f64));
}

/// The newer layout, built field by field.
fn newer_answer(odd_lot: bool) -> Vec<u8> {
    let mut p = Vec::new();
    for v in [1i32, 0b101, 0b10, 3] {
        p.extend_from_slice(&v.to_be_bytes());
    }
    for size in [plain(3, 0), plain(4, 0), plain(1, 0), plain(1_234_567, 0)] {
        p.extend_from_slice(&size.to_be_bytes());
    }
    for price in [150.25f64, 150.30, 150.27, 149.0, 151.5, 148.75] {
        p.extend_from_slice(&price.to_be_bytes());
    }
    if odd_lot {
        for v in [0b1000i32, 0] {
            p.extend_from_slice(&v.to_be_bytes());
        }
        for size in [plain(5, -1), plain(0, 0)] {
            p.extend_from_slice(&size.to_be_bytes());
        }
        for price in [150.24f64, 150.31] {
            p.extend_from_slice(&price.to_be_bytes());
        }
    }
    p
}

#[test]
fn the_newer_layout_is_read_field_by_field() {
    let answer = parse(&newer_answer(false)).expect("ninety-six bytes");
    assert_eq!(
        answer,
        SnapshotAnswer {
            bid: Some((150.25, 3.0)),
            ask: Some((150.30, 4.0)),
            last: Some((150.27, 1.0)),
            bid_exchanges: 0b101,
            ask_exchanges: 0b10,
            last_exchange: Some(3),
            high: Some(151.5),
            low: Some(148.75),
            close: Some(149.0),
            volume: Some(1_234_567.0),
            ..SnapshotAnswer::default()
        },
    );
    let with_odd_lot = parse(&newer_answer(true)).expect("a hundred and thirty-six bytes");
    assert_eq!(with_odd_lot.odd_bid, Some((150.24, 0.5)));
    assert_eq!(with_odd_lot.odd_bid_exchanges, 0b1000);
    assert_eq!(with_odd_lot.odd_ask, None, "a size of nought does not stand");
    assert_eq!(with_odd_lot.odd_ask_exchanges, 0);
}

#[test]
fn a_side_stands_only_where_the_answer_says_it_does() {
    let mut p = newer_answer(false);
    // No size on the bid, and a low above the high.
    p[16..24].copy_from_slice(&0x7C00_0000_0000_0000u64.to_be_bytes());
    p[80..88].copy_from_slice(&100.0f64.to_be_bytes());
    // The close flag down.
    p[0..4].copy_from_slice(&0i32.to_be_bytes());
    let answer = parse(&p).unwrap();
    assert_eq!((answer.bid, answer.bid_exchanges), (None, 0));
    assert_eq!((answer.high, answer.low), (None, None));
    assert_eq!(answer.close, None);
    assert!(answer.ask.is_some());
}

/// A high and a low both of nought are no extremes, and neither is
/// published; one that is not a number beside a stated one leaves the
/// stated one standing, as a gateway's reader leaves it.
#[test]
fn extremes_of_nought_state_nothing() {
    let mut p = newer_answer(false);
    p[80..88].copy_from_slice(&0.0f64.to_be_bytes());
    p[88..96].copy_from_slice(&0.0f64.to_be_bytes());
    let answer = parse(&p).unwrap();
    assert_eq!((answer.high, answer.low), (None, None));

    p[80..88].copy_from_slice(&151.5f64.to_be_bytes());
    p[88..96].copy_from_slice(&f64::NAN.to_be_bytes());
    let answer = parse(&p).unwrap();
    assert_eq!(answer.high, Some(151.5));
    assert!(answer.low.is_some_and(f64::is_nan));
}

#[test]
fn the_older_layout_is_read_by_its_flags() {
    let mut p = Vec::new();
    p.extend_from_slice(&150.25f32.to_be_bytes());
    p.extend_from_slice(&150.5f32.to_be_bytes());
    for v in [3i32, 4, 1, 0b100, 0b1] {
        p.extend_from_slice(&v.to_be_bytes());
    }
    p.extend_from_slice(&150.375f32.to_be_bytes());
    for v in [2i32, 1] {
        p.extend_from_slice(&v.to_be_bytes());
    }
    p.extend_from_slice(&[0; 8]);
    for v in [0b1000i32, 1] {
        p.extend_from_slice(&v.to_be_bytes());
    }
    for price in [149.0f32, 151.5, 148.75] {
        p.extend_from_slice(&price.to_be_bytes());
    }
    p.extend_from_slice(&1000i32.to_be_bytes());
    let answer = parse(&p).expect("seventy-two bytes");
    assert_eq!(
        answer,
        SnapshotAnswer {
            bid: Some((150.25, 3.0)),
            ask: Some((150.5, 4.0)),
            last: Some((150.375, 2.0)),
            bid_exchanges: 0b100,
            ask_exchanges: 0b1,
            last_exchange: Some(3),
            high: Some(151.5),
            low: Some(148.75),
            close: Some(149.0),
            volume: Some(1000.0),
            ..SnapshotAnswer::default()
        },
    );
}

#[test]
fn an_answer_of_no_layout_states_nothing() {
    for len in [0, 1, 71, 73, 95, 97, 135, 137] {
        assert_eq!(parse(&vec![0; len]), None, "{len} bytes");
    }
}
