//! Text as the wire writes it: decimal numbers, and comparing names.

use vstd::prelude::*;

verus! {

/// `String::push` of the standard library: appends the character to the end.
pub assume_specification[ String::push ](s: &mut String, c: char)
    ensures
        final(s)@ == old(s)@.push(c),
;

/// `str::eq` of the standard library: two texts are equal where they hold the
/// same characters in the same order.
pub assume_specification[ <str as PartialEq>::eq ](a: &str, b: &str) -> (same: bool)
    ensures
        same == (a@ == b@),
;

/// The character of a decimal digit.
pub open spec fn digit(d: nat) -> char {
    (48 + d) as char
}

/// A number in decimal, with no sign and no leading nought.
pub open spec fn digits(n: nat) -> Seq<char>
    decreases n,
{
    if n < 10 {
        seq![digit(n)]
    } else {
        digits(n / 10).push(digit(n % 10))
    }
}

/// An integer in decimal, a minus sign ahead of one below nought.
pub open spec fn decimal(n: int) -> Seq<char> {
    if n < 0 {
        seq!['-'] + digits((-n) as nat)
    } else {
        digits(n as nat)
    }
}

/// The digits after the decimal point of `n` parts of `10 * unit`, as far as
/// the last one that is not nought.
pub open spec fn fraction_digits(n: nat, unit: nat) -> Seq<char>
    decreases unit,
{
    if n == 0 || unit == 0 {
        Seq::empty()
    } else {
        seq![digit(n / unit)] + fraction_digits(n % unit, unit / 10)
    }
}

/// A scaled number in decimal: its whole part, and its fraction where it has
/// one, with no nought at the end of it.
pub open spec fn scaled_decimal(n: int, scale: nat) -> Seq<char> {
    let magnitude = if n < 0 { (-n) as nat } else { n as nat };
    let whole = digits(magnitude / scale);
    let unsigned = if magnitude % scale == 0 {
        whole
    } else {
        whole.push('.') + fraction_digits(magnitude % scale, scale / 10)
    };
    if n < 0 {
        seq!['-'] + unsigned
    } else {
        unsigned
    }
}

/// A number in decimal, padded with noughts in front to a width.
pub open spec fn padded(n: nat, width: nat) -> Seq<char> {
    if digits(n).len() >= width {
        digits(n)
    } else {
        Seq::new((width - digits(n).len()) as nat, |i: int| '0') + digits(n)
    }
}

/// Whether a text is one or more decimal digits and nothing else.
pub open spec fn all_digits(s: Seq<char>) -> bool {
    &&& s.len() > 0
    &&& forall|i: int| 0 <= i < s.len() ==> '0' <= #[trigger] s[i] <= '9'
}

/// An ASCII capital as its small letter, and every other character as it is.
pub open spec fn small_letter(c: char) -> char {
    if 'A' <= c <= 'Z' {
        (c as int + 32) as char
    } else {
        c
    }
}

/// A text with its ASCII capitals made small.
pub open spec fn small_letters(s: Seq<char>) -> Seq<char> {
    s.map_values(|c: char| small_letter(c))
}

/// The texts of a list.
pub open spec fn texts(list: Seq<String>) -> Seq<Seq<char>> {
    list.map_values(|s: String| s@)
}

fn digit_of(d: u8) -> (c: char)
    requires
        d < 10,
    ensures
        c == digit(d as nat),
{
    (48u8 + d) as char
}

/// A number in decimal.
pub fn uint_text(n: u64) -> (text: String)
    ensures
        text@ == digits(n as nat),
    decreases n,
{
    let mut text: String = if n < 10 {
        String::new()
    } else {
        uint_text(n / 10)
    };
    text.push(digit_of((n % 10) as u8));
    proof {
        if n < 10 {
            assert(text@ =~= seq![digit(n as nat)]);
        }
    }
    text
}

/// An integer in decimal.
pub fn int_text(n: i64) -> (text: String)
    ensures
        text@ == decimal(n as int),
{
    if n < 0 {
        let magnitude: u64 = (-(n as i128)) as u64;
        let mut text: String = String::new();
        text.push('-');
        text.append(uint_text(magnitude).as_str());
        proof {
            assert(text@ =~= seq!['-'] + digits(magnitude as nat));
        }
        text
    } else {
        uint_text(n as u64)
    }
}

/// Whether a unit is a one with noughts after it.
pub open spec fn power_of_ten(unit: nat) -> bool
    decreases unit,
{
    unit == 1 || (unit > 1 && unit % 10 == 0 && power_of_ten(unit / 10))
}

fn push_fraction(text: &mut String, n: u64, unit: u64)
    requires
        unit == 0 || power_of_ten(unit as nat),
        unit > 0 ==> n < 10 * unit,
    ensures
        final(text)@ == old(text)@ + fraction_digits(n as nat, unit as nat),
    decreases unit,
{
    if n == 0 || unit == 0 {
        assert(old(text)@ + Seq::<char>::empty() =~= old(text)@);
        return;
    }
    assert(n / unit < 10) by (nonlinear_arith)
        requires
            n < 10 * unit,
            unit > 0,
    ;
    let first: u8 = (n / unit) as u8;
    text.push(digit_of(first));
    let ghost begun = text@;
    push_fraction(text, n % unit, unit / 10);
    proof {
        assert(begun + fraction_digits((n % unit) as nat, (unit / 10) as nat) =~= old(text)@ + (seq![
            digit(first as nat),
        ] + fraction_digits((n % unit) as nat, (unit / 10) as nat)));
    }
}

/// A scaled number in decimal, its fraction without a nought at the end.
fn scaled_text(n: i64, scale: u64) -> (text: String)
    requires
        scale > 1,
        power_of_ten(scale as nat),
    ensures
        text@ == scaled_decimal(n as int, scale as nat),
{
    let magnitude: u64 = if n < 0 {
        (-(n as i128)) as u64
    } else {
        n as u64
    };
    let mut unsigned: String = uint_text(magnitude / scale);
    let parts: u64 = magnitude % scale;
    if parts != 0 {
        unsigned.push('.');
        push_fraction(&mut unsigned, parts, scale / 10);
    }
    if n < 0 {
        let mut text: String = String::new();
        text.push('-');
        text.append(unsigned.as_str());
        proof {
            assert(text@ =~= seq!['-'] + unsigned@);
        }
        text
    } else {
        unsigned
    }
}

/// How many parts a price is counted in to the unit it is stated in.
pub const PRICE_SCALE: i64 = 100_000_000;

/// How many parts a quantity is counted in to the whole one.
pub const QTY_SCALE: i64 = 100_000_000;

/// A price as the wire states it.
pub open spec fn price_text(price: int) -> Seq<char> {
    scaled_decimal(price, PRICE_SCALE as nat)
}

/// A quantity as the wire states it.
pub open spec fn qty_text(qty: int) -> Seq<char> {
    scaled_decimal(qty, QTY_SCALE as nat)
}

/// Hundredths as a decimal with two places.
pub open spec fn hundredths(n: nat) -> Seq<char> {
    digits(n / 100).push('.').push(digit(n / 10 % 10)).push(digit(n % 10))
}

proof fn the_scales_are_powers_of_ten()
    ensures
        power_of_ten(PRICE_SCALE as nat),
        power_of_ten(QTY_SCALE as nat),
{
    reveal_with_fuel(power_of_ten, 10);
}

/// A price as the wire states it: its decimal, with no nought at the end of
/// its fraction and no point where it has none.
pub fn format_price(price: i64) -> (text: String)
    ensures
        text@ == price_text(price as int),
{
    proof {
        the_scales_are_powers_of_ten();
    }
    scaled_text(price, PRICE_SCALE as u64)
}

/// A quantity as the wire states it.
pub fn format_qty(qty: i64) -> (text: String)
    ensures
        text@ == qty_text(qty as int),
{
    proof {
        the_scales_are_powers_of_ten();
    }
    scaled_text(qty, QTY_SCALE as u64)
}

/// A count as the wire states it.
pub fn format_uint(n: u64) -> (text: String)
    ensures
        text@ == digits(n as nat),
{
    uint_text(n)
}

/// Hundredths as a decimal with two places.
pub fn hundredths_text(n: u32) -> (text: String)
    ensures
        text@ == hundredths(n as nat),
{
    let mut text: String = uint_text((n / 100) as u64);
    text.push('.');
    text.push(digit_of((n / 10 % 10) as u8));
    text.push(digit_of((n % 10) as u8));
    text
}

/// A number in decimal, padded with noughts in front to a width.
pub fn padded_text(n: u64, width: usize) -> (text: String)
    ensures
        text@ == padded(n as nat, width as nat),
{
    let plain: String = uint_text(n);
    let shown: usize = plain.as_str().unicode_len();
    if shown >= width {
        return plain;
    }
    let mut text: String = String::new();
    let mut put: usize = 0;
    while put < width - shown
        invariant
            shown < width,
            put <= width - shown,
            text@ == Seq::new(put as nat, |i: int| '0'),
        decreases width - put,
    {
        text.push('0');
        put = put + 1;
        proof {
            assert(text@ =~= Seq::new(put as nat, |i: int| '0'));
        }
    }
    text.append(plain.as_str());
    text
}

/// One text after another.
pub fn joined(first: &str, second: &str) -> (text: String)
    ensures
        text@ == first@ + second@,
{
    let mut text: String = first.to_owned();
    text.append(second);
    text
}

/// Three texts, one after another.
pub fn joined3(first: &str, second: &str, third: &str) -> (text: String)
    ensures
        text@ == first@ + second@ + third@,
{
    let mut text: String = joined(first, second);
    text.append(third);
    text
}

/// An ASCII capital as its small letter.
fn small_letter_of(c: char) -> (small: char)
    ensures
        small == small_letter(c),
{
    if 'A' <= c && c <= 'Z' {
        ((c as u8) + 32u8) as char
    } else {
        c
    }
}

/// A text with its ASCII capitals made small.
pub fn small_text(text: &str) -> (small: String)
    ensures
        small@ == small_letters(text@),
{
    let mut small: String = String::new();
    let length: usize = text.unicode_len();
    let mut at: usize = 0;
    while at < length
        invariant
            length == text@.len(),
            at <= length,
            small@ == small_letters(text@.take(at as int)),
        decreases length - at,
    {
        small.push(small_letter_of(text.get_char(at)));
        at = at + 1;
        proof {
            assert(small@ =~= small_letters(text@.take(at as int)));
        }
    }
    proof {
        assert(text@.take(length as int) =~= text@);
    }
    small
}

} // verus!
