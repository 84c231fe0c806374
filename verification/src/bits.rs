//! Binary figures read off their bits.
//!
//! A figure the venue states in binary is held as the sixty-four bits it came
//! in. What is read here is how it compares with nought, whether it is a number
//! at all, and its whole part.

use vstd::prelude::*;

verus! {

/// The bit that says a figure is below nought.
pub const SIGN: u64 = 0x8000_0000_0000_0000;

/// The first magnitude that is no finite figure.
pub const INFINITE: u64 = 0x7ff0_0000_0000_0000;

/// The largest figure there is, which stands for one that was left out.
pub const UNSET: u64 = 0x7fef_ffff_ffff_ffff;

/// The first bit above the fraction of a figure.
pub const FRACTION: u64 = 0x0010_0000_0000_0000;

/// A figure without its sign.
pub open spec fn magnitude(bits: u64) -> int {
    if bits >= SIGN {
        bits - SIGN
    } else {
        bits as int
    }
}

/// Whether a figure is nought, on either side.
pub open spec fn is_nought(bits: u64) -> bool {
    magnitude(bits) == 0
}

/// Whether a figure is a number, and one that was stated.
pub open spec fn is_stated(bits: u64) -> bool {
    magnitude(bits) < INFINITE && bits != UNSET
}

/// Whether a figure that is a number is above nought.
pub open spec fn is_above(bits: u64) -> bool {
    bits < SIGN && 0 < magnitude(bits) <= INFINITE
}

/// A figure without its sign.
pub fn magnitude_of(bits: u64) -> (r: u64)
    ensures
        r == magnitude(bits),
{
    if bits >= SIGN {
        bits - SIGN
    } else {
        bits
    }
}

/// Whether a figure is nought, on either side.
pub fn nought(bits: u64) -> (r: bool)
    ensures
        r == is_nought(bits),
{
    magnitude_of(bits) == 0
}

/// Whether a figure is a number, and one that was stated.
pub fn stated(bits: u64) -> (r: bool)
    ensures
        r == is_stated(bits),
{
    magnitude_of(bits) < INFINITE && bits != UNSET
}

/// Whether a figure is above nought.
pub fn above(bits: u64) -> (r: bool)
    ensures
        r == is_above(bits),
{
    bits < SIGN && bits > 0 && bits <= INFINITE
}

/// A number halved so many times, each time to the whole number below.
pub open spec fn halved(n: nat, times: nat) -> nat
    decreases times,
{
    if times == 0 {
        n
    } else {
        halved(n / 2, (times - 1) as nat)
    }
}

fn halve(n: u64, times: u64) -> (r: u64)
    ensures
        r == halved(n as nat, times as nat),
    decreases times,
{
    if times == 0 {
        n
    } else {
        halve(n / 2, times - 1)
    }
}

/// The exponent of a figure above nought.
pub open spec fn exponent(bits: u64) -> int {
    magnitude(bits) / FRACTION as int - 1023
}

/// The whole part of a figure above nought, held to what a 32-bit number holds.
/// The fraction has fifty-two bits below the one that is not written.
pub open spec fn whole_part(bits: u64) -> int {
    let places = exponent(bits);
    if places < 0 {
        0
    } else if places >= 31 {
        i32::MAX as int
    } else {
        halved(
            (FRACTION + magnitude(bits) % (FRACTION as int)) as nat,
            (52 - places) as nat,
        ) as int
    }
}

proof fn halving_bounds(n: nat, times: nat, bound: nat)
    requires
        n < bound,
    ensures
        halved(n, times) <= n,
    decreases times,
{
    if times > 0 {
        halving_bounds(n / 2, (times - 1) as nat, bound);
    }
}

/// Twenty-two halvings and more bring a number below two to the fifty-third
/// below two to the thirty-first.
proof fn halved_enough(n: nat, times: nat)
    requires
        n < 0x20_0000_0000_0000,
        22 <= times <= 52,
    ensures
        halved(n, times) < 0x8000_0000,
{
    twenty_two_halvings(n, times);
    halving_bounds(n / 0x40_0000, (times - 22) as nat, 0x8000_0000);
}

proof fn twenty_two_halvings(n: nat, times: nat)
    requires
        times >= 22,
    ensures
        halved(n, times) == halved(n / 0x40_0000, (times - 22) as nat),
{
    reveal_with_fuel(halved, 23);
    assert(n / 2 / 2 / 2 / 2 / 2 / 2 / 2 / 2 / 2 / 2 / 2 / 2 / 2 / 2 / 2 / 2 / 2 / 2 / 2 / 2 / 2 / 2
        == n / 0x40_0000);
}

/// The whole part of a figure above nought.
pub fn whole_part_of(bits: u64) -> (whole: i32)
    requires
        is_above(bits),
    ensures
        whole == whole_part(bits),
{
    let size: u64 = magnitude_of(bits);
    let places: i64 = (size / FRACTION) as i64 - 1023;
    if places < 0 {
        0
    } else if places >= 31 {
        i32::MAX
    } else {
        let fraction: u64 = FRACTION + size % FRACTION;
        proof {
            halved_enough(fraction as nat, (52 - places) as nat);
        }
        halve(fraction, (52 - places) as u64) as i32
    }
}

} // verus!
