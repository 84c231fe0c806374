//! The venue's answer to a chargeable snapshot.
//!
//! One record of fixed layout, told apart by its length: 72 bytes in the older
//! layout, 96 in the newer, and 136 where the newer one carries the odd lot
//! beside it. Any other length is not a layout the venue states, and nothing is
//! read from it.
//!
//! A side of the quote stands only where the record says it does: in the older
//! layout by a flag beside it, in the newer by a size that is stated and above
//! nought. Sizes are counts of the contract's size increment, as every size the
//! venue states is. Where each side is quoted is a mask over the venue's list of
//! exchanges for the bid and the ask, and one exchange's place in that list for
//! the last.

use crate::protocol::fields::{i32_at, i32_in, u32_at, u32_in, u64_at, u64_in};
use vstd::prelude::*;

verus! {

/// A price, as the bits of its binary figure.
#[derive(Clone, Copy, Debug, PartialEq, Eq, Structural)]
pub enum Price {
    Single(u32),
    Double(u64),
}

/// A size the venue states in decimal.
#[derive(Clone, Copy, Debug, PartialEq, Eq, Structural)]
pub enum Decimal {
    /// The encoding's infinity, which the venue's own reader holds as the most
    /// negative whole number.
    Infinite,
    /// A coefficient times ten to a scale, below nought where it is negative.
    Finite { negative: bool, coefficient: u64, scale: i32 },
}

/// A size.
#[derive(Clone, Copy, Debug, PartialEq, Eq, Structural)]
pub enum Size {
    Whole(i32),
    Decimal(Decimal),
}

/// What the answer states, side by side.
#[derive(Clone, Copy, Debug, PartialEq, Eq)]
pub struct SnapshotAnswer {
    /// The bid's price and size, where it stands.
    pub bid: Option<(Price, Size)>,
    /// The ask's price and size, where it stands.
    pub ask: Option<(Price, Size)>,
    /// The last trade's price and size, where it stands.
    pub last: Option<(Price, Size)>,
    /// The exchanges the bid is quoted on, as a mask; nought for none.
    pub bid_exchanges: i64,
    /// The exchanges the ask is quoted on, as a mask; nought for none.
    pub ask_exchanges: i64,
    /// The exchange the last traded on, as its place in the list.
    pub last_exchange: Option<u32>,
    /// The session's high.
    pub high: Option<Price>,
    /// The session's low.
    pub low: Option<Price>,
    /// The previous close.
    pub close: Option<Price>,
    /// The session's volume, counted in the contract's size increment.
    pub volume: Option<Size>,
    /// The odd lot's bid, price and size, where it stands.
    pub odd_bid: Option<(Price, Size)>,
    /// The odd lot's ask, price and size, where it stands.
    pub odd_ask: Option<(Price, Size)>,
    /// The exchanges the odd lot's bid is quoted on, as a mask.
    pub odd_bid_exchanges: i64,
    /// The exchanges the odd lot's ask is quoted on, as a mask.
    pub odd_ask_exchanges: i64,
}

/// How far a figure lies from nought, below it where its sign says so; nothing
/// where it is no number. The bits of two figures on one side of nought are
/// ordered as the figures are.
pub open spec fn place(bits: int, sign: int, infinite: int) -> Option<int> {
    let magnitude = if bits >= sign {
        bits - sign
    } else {
        bits
    };
    if magnitude > infinite {
        None
    } else if bits >= sign {
        Some(-magnitude)
    } else {
        Some(magnitude)
    }
}

/// How far a single-precision figure lies from nought.
pub open spec fn single_place(bits: u32) -> Option<int> {
    place(bits as int, 0x8000_0000, 0x7f80_0000)
}

/// How far a double-precision figure lies from nought.
pub open spec fn double_place(bits: u64) -> Option<int> {
    place(bits as int, 0x8000_0000_0000_0000, 0x7ff0_0000_0000_0000)
}

/// Whether a single-precision figure is at least another, both being numbers.
pub open spec fn at_least(high: u32, low: u32) -> bool {
    match (single_place(high), single_place(low)) {
        (Some(high), Some(low)) => high >= low,
        _ => false,
    }
}

/// Whether a double-precision figure is above another, both being numbers.
pub open spec fn is_above(one: u64, other: u64) -> bool {
    match (double_place(one), double_place(other)) {
        (Some(one), Some(other)) => one > other,
        _ => false,
    }
}

/// Whether a double-precision figure is nought, on either side.
pub open spec fn is_nothing(bits: u64) -> bool {
    double_place(bits) == Some(0int)
}

fn single_place_of(bits: u32) -> (r: Option<i64>)
    ensures
        match (r, single_place(bits)) {
            (Some(r), Some(place)) => r == place,
            (None, None) => true,
            _ => false,
        },
{
    let negative: bool = bits >= 0x8000_0000;
    let magnitude: i64 = if negative {
        bits as i64 - 0x8000_0000
    } else {
        bits as i64
    };
    if magnitude > 0x7f80_0000 {
        None
    } else if negative {
        Some(-magnitude)
    } else {
        Some(magnitude)
    }
}

fn double_place_of(bits: u64) -> (r: Option<i64>)
    ensures
        match (r, double_place(bits)) {
            (Some(r), Some(place)) => r == place,
            (None, None) => true,
            _ => false,
        },
{
    let negative: bool = bits >= 0x8000_0000_0000_0000;
    let magnitude: u64 = if negative {
        bits - 0x8000_0000_0000_0000
    } else {
        bits
    };
    if magnitude > 0x7ff0_0000_0000_0000 {
        None
    } else if negative {
        Some(-(magnitude as i64))
    } else {
        Some(magnitude as i64)
    }
}

/// What a decimal size encodes, in its binary-integer form: nothing for the
/// encoding's not-a-number. The two bits below the sign, where both are set,
/// steer the exponent two places down and imply the coefficient's top bits.
pub open spec fn encodes(bits: u64) -> Option<Decimal> {
    if bits / 0x0400_0000_0000_0000 % 32 == 31 {
        None
    } else if bits / 0x0800_0000_0000_0000 % 16 == 15 {
        Some(Decimal::Infinite)
    } else {
        let steered = bits / 0x2000_0000_0000_0000 % 4 == 3;
        Some(
            Decimal::Finite {
                negative: bits >= 0x8000_0000_0000_0000,
                coefficient: if steered {
                    (bits % 0x0008_0000_0000_0000 + 0x0020_0000_0000_0000) as u64
                } else {
                    bits % 0x0020_0000_0000_0000
                },
                scale: if steered {
                    (bits / 0x0008_0000_0000_0000 % 1024 - 398) as i32
                } else {
                    (bits / 0x0020_0000_0000_0000 % 1024 - 398) as i32
                },
            },
        )
    }
}

/// A size as the venue encodes it.
pub fn decimal64(bits: u64) -> (size: Option<Decimal>)
    ensures
        size == encodes(bits),
{
    if bits / 0x0400_0000_0000_0000 % 32 == 31 {
        return None;
    }
    if bits / 0x0800_0000_0000_0000 % 16 == 15 {
        return Some(Decimal::Infinite);
    }
    let negative: bool = bits >= 0x8000_0000_0000_0000;
    if bits / 0x2000_0000_0000_0000 % 4 == 3 {
        Some(
            Decimal::Finite {
                negative,
                coefficient: bits % 0x0008_0000_0000_0000 + 0x0020_0000_0000_0000,
                scale: (bits / 0x0008_0000_0000_0000 % 1024) as i32 - 398,
            },
        )
    } else {
        Some(
            Decimal::Finite {
                negative,
                coefficient: bits % 0x0020_0000_0000_0000,
                scale: (bits / 0x0020_0000_0000_0000 % 1024) as i32 - 398,
            },
        )
    }
}

/// Whether a size is stated and above nought. In the binary form a size is
/// handed on in, nothing is left of one more than 308 places behind the point.
pub open spec fn size_stands(size: Option<Decimal>) -> bool {
    match size {
        Some(Decimal::Finite { negative, coefficient, scale }) => !negative && coefficient > 0
            && scale >= -308,
        _ => false,
    }
}

/// Whether a volume is stated and not below nought. Nought times a scale past
/// what the binary form holds is no number.
pub open spec fn volume_stands(size: Option<Decimal>) -> bool {
    match size {
        Some(Decimal::Finite { negative, coefficient, scale }) => if coefficient == 0 {
            scale <= 308
        } else {
            !negative || scale < -308
        },
        _ => false,
    }
}

/// A side with its size, where it stands.
pub open spec fn side(price: u64, size: Option<Decimal>) -> Option<(Price, Size)> {
    if size_stands(size) {
        Some((Price::Double(price), Size::Decimal(size->Some_0)))
    } else {
        None
    }
}

fn stands(size: Option<Decimal>) -> (r: bool)
    ensures
        r == size_stands(size),
{
    match size {
        Some(Decimal::Finite { negative, coefficient, scale }) => !negative && coefficient > 0
            && scale >= -308,
        _ => false,
    }
}

fn side_of(price: u64, size: Option<Decimal>) -> (r: Option<(Price, Size)>)
    ensures
        r == side(price, size),
{
    match size {
        Some(decimal) => if stands(size) {
            Some((Price::Double(price), Size::Decimal(decimal)))
        } else {
            None
        },
        None => None,
    }
}

fn volume_of(size: Option<Decimal>) -> (r: Option<Size>)
    ensures
        r == (if volume_stands(size) {
            Some(Size::Decimal(size->Some_0))
        } else {
            None::<Size>
        }),
{
    match size {
        Some(Decimal::Finite { negative, coefficient, scale }) => {
            let stands: bool = if coefficient == 0 {
                scale <= 308
            } else {
                !negative || scale < -308
            };
            if stands {
                Some(Size::Decimal(Decimal::Finite { negative, coefficient, scale }))
            } else {
                None
            }
        },
        _ => None,
    }
}

/// The place of the highest bit set.
pub open spec fn highest_bit(n: nat) -> nat
    decreases n,
{
    if n < 2 {
        0
    } else {
        1 + highest_bit(n / 2)
    }
}

fn highest_bit_of(n: u32) -> (r: u32)
    ensures
        r == highest_bit(n as nat),
        r <= n,
    decreases n,
{
    if n < 2 {
        0
    } else {
        1 + highest_bit_of(n / 2)
    }
}

/// The whole field at a place of a record that holds it.
pub open spec fn whole(p: Seq<u8>, at: int) -> i32 {
    i32_in(p, at)->Some_0
}

/// The single-precision figure at a place of a record that holds it.
pub open spec fn single(p: Seq<u8>, at: int) -> u32 {
    u32_in(p, at)->Some_0
}

/// The double-precision figure at a place of a record that holds it.
pub open spec fn double(p: Seq<u8>, at: int) -> u64 {
    u64_in(p, at)->Some_0
}

/// The decimal size at a place of a record that holds it.
pub open spec fn size(p: Seq<u8>, at: int) -> Option<Decimal> {
    encodes(u64_in(p, at)->Some_0)
}

/// A price, where it stands.
pub open spec fn stated_price(stands: bool, price: Price) -> Option<Price> {
    if stands {
        Some(price)
    } else {
        None
    }
}

/// A mask, or nought where what it belongs to does not stand.
pub open spec fn mask(stands: bool, mask: i32) -> i64 {
    if stands {
        mask as i64
    } else {
        0
    }
}

/// What the older layout states: single-precision prices, whole sizes, and a
/// flag per group saying whether the group stands. The last's exchanges are a
/// mask here, and the one it names is the highest bit set.
pub open spec fn older_states(p: Seq<u8>) -> SnapshotAnswer {
    let quoted = whole(p, 16) > 0;
    let traded = whole(p, 36) > 0;
    let rest = whole(p, 52) > 0;
    let extremes = rest && at_least(single(p, 60), single(p, 64));
    let quote = |price: int, size: int|
        if quoted {
            Some((Price::Single(single(p, price)), Size::Whole(whole(p, size))))
        } else {
            None
        };
    SnapshotAnswer {
        bid: quote(0, 8),
        ask: quote(4, 12),
        last: if traded {
            Some((Price::Single(single(p, 28)), Size::Whole(whole(p, 32))))
        } else {
            None
        },
        bid_exchanges: mask(quoted, whole(p, 20)),
        ask_exchanges: mask(quoted, whole(p, 24)),
        last_exchange: if traded && whole(p, 48) >= 1 {
            Some(highest_bit(whole(p, 48) as nat) as u32)
        } else {
            None
        },
        high: stated_price(extremes, Price::Single(single(p, 60))),
        low: stated_price(extremes, Price::Single(single(p, 64))),
        close: stated_price(rest, Price::Single(single(p, 56))),
        volume: if rest {
            Some(Size::Whole(whole(p, 68)))
        } else {
            None
        },
        odd_bid: None,
        odd_ask: None,
        odd_bid_exchanges: 0,
        odd_ask_exchanges: 0,
    }
}

/// What the newer layout states: double-precision prices, decimal sizes, and a
/// side that stands where its size is stated and above nought. A high and a low
/// both of nought are no extremes at all, and a low above the high is not a
/// range.
pub open spec fn newer_states(p: Seq<u8>, odd_lot: bool) -> SnapshotAnswer {
    let high = double(p, 80);
    let low = double(p, 88);
    let extremes = !(is_nothing(high) && is_nothing(low)) && !is_above(low, high);
    SnapshotAnswer {
        bid: side(double(p, 48), size(p, 16)),
        ask: side(double(p, 56), size(p, 24)),
        last: side(double(p, 64), size(p, 32)),
        bid_exchanges: mask(size_stands(size(p, 16)), whole(p, 4)),
        ask_exchanges: mask(size_stands(size(p, 24)), whole(p, 8)),
        last_exchange: if size_stands(size(p, 32)) && whole(p, 12) >= 0 {
            Some(whole(p, 12) as u32)
        } else {
            None
        },
        high: stated_price(extremes, Price::Double(high)),
        low: stated_price(extremes, Price::Double(low)),
        close: stated_price(whole(p, 0) % 2 != 0, Price::Double(double(p, 72))),
        volume: if volume_stands(size(p, 40)) {
            Some(Size::Decimal(size(p, 40)->Some_0))
        } else {
            None
        },
        odd_bid: if odd_lot {
            side(double(p, 120), size(p, 104))
        } else {
            None
        },
        odd_ask: if odd_lot {
            side(double(p, 128), size(p, 112))
        } else {
            None
        },
        odd_bid_exchanges: mask(odd_lot && size_stands(size(p, 104)), whole(p, 96)),
        odd_ask_exchanges: mask(odd_lot && size_stands(size(p, 112)), whole(p, 100)),
    }
}

/// What an answer states, by its length.
pub open spec fn states(p: Seq<u8>) -> Option<SnapshotAnswer> {
    if p.len() == 72 {
        Some(older_states(p))
    } else if p.len() == 96 {
        Some(newer_states(p, false))
    } else if p.len() == 136 {
        Some(newer_states(p, true))
    } else {
        None
    }
}

fn priced(stands: bool, price: Price) -> (r: Option<Price>)
    ensures
        r == stated_price(stands, price),
{
    if stands {
        Some(price)
    } else {
        None
    }
}

fn masked(stands: bool, on: i32) -> (r: i64)
    ensures
        r == mask(stands, on),
{
    if stands {
        on as i64
    } else {
        0
    }
}

fn older(p: &[u8]) -> (answer: SnapshotAnswer)
    requires
        p@.len() == 72,
    ensures
        answer == older_states(p@),
{
    let quoted: bool = i32_at(p, 16).unwrap() > 0;
    let traded: bool = i32_at(p, 36).unwrap() > 0;
    let rest: bool = i32_at(p, 52).unwrap() > 0;
    let high: u32 = u32_at(p, 60).unwrap();
    let low: u32 = u32_at(p, 64).unwrap();
    let ranged: bool = match (single_place_of(high), single_place_of(low)) {
        (Some(high), Some(low)) => high >= low,
        _ => false,
    };
    let extremes: bool = rest && ranged;
    let last_exchanges: i32 = i32_at(p, 48).unwrap();
    let bid: (Price, Size) = (
        Price::Single(u32_at(p, 0).unwrap()),
        Size::Whole(i32_at(p, 8).unwrap()),
    );
    let ask: (Price, Size) = (
        Price::Single(u32_at(p, 4).unwrap()),
        Size::Whole(i32_at(p, 12).unwrap()),
    );
    let last: (Price, Size) = (
        Price::Single(u32_at(p, 28).unwrap()),
        Size::Whole(i32_at(p, 32).unwrap()),
    );
    SnapshotAnswer {
        bid: if quoted {
            Some(bid)
        } else {
            None
        },
        ask: if quoted {
            Some(ask)
        } else {
            None
        },
        last: if traded {
            Some(last)
        } else {
            None
        },
        bid_exchanges: masked(quoted, i32_at(p, 20).unwrap()),
        ask_exchanges: masked(quoted, i32_at(p, 24).unwrap()),
        last_exchange: if traded && last_exchanges >= 1 {
            Some(highest_bit_of(last_exchanges as u32))
        } else {
            None
        },
        high: priced(extremes, Price::Single(high)),
        low: priced(extremes, Price::Single(low)),
        close: priced(rest, Price::Single(u32_at(p, 56).unwrap())),
        volume: if rest {
            Some(Size::Whole(i32_at(p, 68).unwrap()))
        } else {
            None
        },
        odd_bid: None,
        odd_ask: None,
        odd_bid_exchanges: 0,
        odd_ask_exchanges: 0,
    }
}

fn newer(p: &[u8], odd_lot: bool) -> (answer: SnapshotAnswer)
    requires
        p@.len() == 96 || p@.len() == 136,
        odd_lot ==> p@.len() == 136,
        !odd_lot ==> p@.len() == 96,
    ensures
        answer == newer_states(p@, odd_lot),
{
    let flags: i32 = i32_at(p, 0).unwrap();
    let bid_size: Option<Decimal> = decimal64(u64_at(p, 16).unwrap());
    let ask_size: Option<Decimal> = decimal64(u64_at(p, 24).unwrap());
    let last_size: Option<Decimal> = decimal64(u64_at(p, 32).unwrap());
    let volume: Option<Decimal> = decimal64(u64_at(p, 40).unwrap());
    let high: u64 = u64_at(p, 80).unwrap();
    let low: u64 = u64_at(p, 88).unwrap();
    let high_place: Option<i64> = double_place_of(high);
    let low_place: Option<i64> = double_place_of(low);
    let extremes: bool = match (high_place, low_place) {
        (Some(high), Some(low)) => !(high == 0 && low == 0) && low <= high,
        _ => true,
    };
    let last_exchange: i32 = i32_at(p, 12).unwrap();
    let mut odd_bid: Option<(Price, Size)> = None;
    let mut odd_ask: Option<(Price, Size)> = None;
    let mut odd_bid_exchanges: i64 = 0;
    let mut odd_ask_exchanges: i64 = 0;
    if odd_lot {
        let odd_bid_size: Option<Decimal> = decimal64(u64_at(p, 104).unwrap());
        let odd_ask_size: Option<Decimal> = decimal64(u64_at(p, 112).unwrap());
        odd_bid = side_of(u64_at(p, 120).unwrap(), odd_bid_size);
        odd_ask = side_of(u64_at(p, 128).unwrap(), odd_ask_size);
        odd_bid_exchanges = masked(stands(odd_bid_size), i32_at(p, 96).unwrap());
        odd_ask_exchanges = masked(stands(odd_ask_size), i32_at(p, 100).unwrap());
    }
    SnapshotAnswer {
        bid: side_of(u64_at(p, 48).unwrap(), bid_size),
        ask: side_of(u64_at(p, 56).unwrap(), ask_size),
        last: side_of(u64_at(p, 64).unwrap(), last_size),
        bid_exchanges: masked(stands(bid_size), i32_at(p, 4).unwrap()),
        ask_exchanges: masked(stands(ask_size), i32_at(p, 8).unwrap()),
        last_exchange: if stands(last_size) && last_exchange >= 0 {
            Some(last_exchange as u32)
        } else {
            None
        },
        high: priced(extremes, Price::Double(high)),
        low: priced(extremes, Price::Double(low)),
        close: priced(odd(flags), Price::Double(u64_at(p, 72).unwrap())),
        volume: volume_of(volume),
        odd_bid,
        odd_ask,
        odd_bid_exchanges,
        odd_ask_exchanges,
    }
}

/// Whether the lowest flag is up.
fn odd(flags: i32) -> (r: bool)
    ensures
        r == (flags % 2 != 0),
{
    let n: i64 = flags as i64 + 0x1_0000_0000;
    n % 2 != 0
}

/// Read an answer. Nothing where its length is not one of the three layouts.
pub fn parse(payload: &[u8]) -> (answer: Option<SnapshotAnswer>)
    ensures
        answer == states(payload@),
{
    if payload.len() == 72 {
        Some(older(payload))
    } else if payload.len() == 96 {
        Some(newer(payload, false))
    } else if payload.len() == 136 {
        Some(newer(payload, true))
    } else {
        None
    }
}

/// A side that does not stand states no exchanges.
pub proof fn what_does_not_stand_is_quoted_nowhere(p: Seq<u8>, odd_lot: bool)
    ensures
        newer_states(p, odd_lot).bid is None ==> newer_states(p, odd_lot).bid_exchanges == 0,
        newer_states(p, odd_lot).ask is None ==> newer_states(p, odd_lot).ask_exchanges == 0,
        newer_states(p, odd_lot).last is None ==> newer_states(p, odd_lot).last_exchange is None,
        newer_states(p, odd_lot).odd_bid is None ==> newer_states(p, odd_lot).odd_bid_exchanges
            == 0,
        newer_states(p, odd_lot).odd_ask is None ==> newer_states(p, odd_lot).odd_ask_exchanges
            == 0,
        older_states(p).bid is None ==> older_states(p).bid_exchanges == 0,
        older_states(p).ask is None ==> older_states(p).ask_exchanges == 0,
        older_states(p).last is None ==> older_states(p).last_exchange is None,
{
}

/// The high and the low stand together or not at all.
pub proof fn the_extremes_stand_together(p: Seq<u8>, odd_lot: bool)
    ensures
        newer_states(p, odd_lot).high is Some <==> newer_states(p, odd_lot).low is Some,
        older_states(p).high is Some <==> older_states(p).low is Some,
{
}

} // verus!
