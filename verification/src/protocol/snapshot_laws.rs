//! Where in a regulatory snapshot each thing it states stands.

use crate::protocol::fields::{i32_in, u32_in, u64_in};
use crate::protocol::regulatory_snapshot::{
    at_least, encodes, highest_bit, is_above, is_nothing, size_stands, states, volume_stands,
    Decimal, Price, Size,
};
use vstd::prelude::*;

verus! {

/// A payload is an answer exactly where it is as long as one of the three
/// shapes an answer has.
pub proof fn an_answer_has_one_of_three_lengths(p: Seq<u8>)
    ensures
        states(p) is Some <==> p.len() == 72 || p.len() == 96 || p.len() == 136,
{
}

/// The older answer states its quote where the mark behind the sizes is above
/// nought, its last trade where its own mark is, and the close, the volume and
/// the extremes where theirs is, each from its own four bytes.
pub proof fn an_older_answer_is_read_from_its_places(p: Seq<u8>)
    requires
        p.len() == 72,
    ensures
        states(p) matches Some(answer) && {
            let quoted = i32_in(p, 16)->0 > 0;
            let traded = i32_in(p, 36)->0 > 0;
            let rest = i32_in(p, 52)->0 > 0;
            let extremes = rest && at_least(u32_in(p, 60)->0, u32_in(p, 64)->0);
            &&& quoted ==> {
                &&& answer.bid == Some(
                    (Price::Single(u32_in(p, 0)->0), Size::Whole(i32_in(p, 8)->0)),
                )
                &&& answer.ask == Some(
                    (Price::Single(u32_in(p, 4)->0), Size::Whole(i32_in(p, 12)->0)),
                )
                &&& answer.bid_exchanges == i32_in(p, 20)->0
                &&& answer.ask_exchanges == i32_in(p, 24)->0
            }
            &&& !quoted ==> answer.bid is None && answer.ask is None && answer.bid_exchanges == 0
                && answer.ask_exchanges == 0
            &&& traded ==> answer.last == Some(
                (Price::Single(u32_in(p, 28)->0), Size::Whole(i32_in(p, 32)->0)),
            )
            &&& traded && i32_in(p, 48)->0 >= 1 ==> answer.last_exchange == Some(
                highest_bit(i32_in(p, 48)->0 as nat) as u32,
            )
            &&& !traded ==> answer.last is None && answer.last_exchange is None
            &&& rest ==> answer.close == Some(Price::Single(u32_in(p, 56)->0)) && answer.volume
                == Some(Size::Whole(i32_in(p, 68)->0))
            &&& !rest ==> answer.close is None && answer.volume is None && answer.high is None
                && answer.low is None
            &&& extremes ==> answer.high == Some(Price::Single(u32_in(p, 60)->0)) && answer.low
                == Some(Price::Single(u32_in(p, 64)->0))
            &&& answer.odd_bid is None && answer.odd_ask is None
        },
{
}

/// The newer answer states each side where its size stands, each from its own
/// eight bytes, and the odd lots where it is long enough to.
pub proof fn a_newer_answer_is_read_from_its_places(p: Seq<u8>)
    requires
        p.len() == 96 || p.len() == 136,
    ensures
        states(p) matches Some(answer) && {
            let bid = encodes(u64_in(p, 16)->0);
            let ask = encodes(u64_in(p, 24)->0);
            let last = encodes(u64_in(p, 32)->0);
            let volume = encodes(u64_in(p, 40)->0);
            let high = u64_in(p, 80)->0;
            let low = u64_in(p, 88)->0;
            &&& size_stands(bid) ==> answer.bid == Some(
                (Price::Double(u64_in(p, 48)->0), Size::Decimal(bid->0)),
            ) && answer.bid_exchanges == i32_in(p, 4)->0
            &&& !size_stands(bid) ==> answer.bid is None && answer.bid_exchanges == 0
            &&& size_stands(ask) ==> answer.ask == Some(
                (Price::Double(u64_in(p, 56)->0), Size::Decimal(ask->0)),
            ) && answer.ask_exchanges == i32_in(p, 8)->0
            &&& !size_stands(ask) ==> answer.ask is None && answer.ask_exchanges == 0
            &&& size_stands(last) ==> answer.last == Some(
                (Price::Double(u64_in(p, 64)->0), Size::Decimal(last->0)),
            )
            &&& size_stands(last) && i32_in(p, 12)->0 >= 0 ==> answer.last_exchange == Some(
                i32_in(p, 12)->0 as u32,
            )
            &&& !size_stands(last) ==> answer.last is None && answer.last_exchange is None
            &&& volume_stands(volume) ==> answer.volume == Some(Size::Decimal(volume->0))
            &&& !volume_stands(volume) ==> answer.volume is None
            &&& i32_in(p, 0)->0 % 2 != 0 ==> answer.close == Some(Price::Double(u64_in(p, 72)->0))
            &&& i32_in(p, 0)->0 % 2 == 0 ==> answer.close is None
            &&& !is_above(low, high) && !(is_nothing(high) && is_nothing(low)) ==> answer.high
                == Some(Price::Double(high)) && answer.low == Some(Price::Double(low))
            &&& p.len() == 96 ==> answer.odd_bid is None && answer.odd_ask is None
            &&& p.len() == 136 && size_stands(encodes(u64_in(p, 104)->0)) ==> answer.odd_bid == Some(
                (Price::Double(u64_in(p, 120)->0), Size::Decimal(encodes(u64_in(p, 104)->0)->0)),
            ) && answer.odd_bid_exchanges == i32_in(p, 96)->0
            &&& p.len() == 136 && size_stands(encodes(u64_in(p, 112)->0)) ==> answer.odd_ask == Some(
                (Price::Double(u64_in(p, 128)->0), Size::Decimal(encodes(u64_in(p, 112)->0)->0)),
            ) && answer.odd_ask_exchanges == i32_in(p, 100)->0
        },
{
}

/// A decimal written as its sign, its scale and its coefficient is read as
/// those.
pub proof fn a_written_decimal_is_read_back(negative: bool, coefficient: u64, scale: i32, bits: u64)
    requires
        coefficient < 0x0020_0000_0000_0000,
        -398 <= scale < 370,
        bits == (if negative {
            0x8000_0000_0000_0000int
        } else {
            0int
        }) + (scale + 398) * 0x0020_0000_0000_0000 + coefficient,
    ensures
        encodes(bits) == Some(Decimal::Finite { negative, coefficient, scale }),
{
}

/// A size stands where it is a number above nought that a double can hold.
pub proof fn a_size_stands_above_nought(negative: bool, coefficient: u64, scale: i32)
    ensures
        size_stands(Some(Decimal::Finite { negative, coefficient, scale })) <==> !negative
            && coefficient > 0 && scale >= -308,
        !size_stands(None),
        !size_stands(Some(Decimal::Infinite)),
        !volume_stands(None),
        !volume_stands(Some(Decimal::Infinite)),
        !negative && coefficient > 0 ==> volume_stands(
            Some(Decimal::Finite { negative, coefficient, scale }),
        ),
{
}

} // verus!
