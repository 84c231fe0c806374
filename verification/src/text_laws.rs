//! What holds of numbers as they are written.

use crate::reading::digits_stand_for_their_number;
use crate::text::{
    decimal, digit, digits, fraction_digits, price_text, qty_text, scaled_decimal, PRICE_SCALE,
    QTY_SCALE,
};
use vstd::prelude::*;

verus! {

/// Two numbers written alike are one number.
pub proof fn a_number_is_written_one_way(one: nat, other: nat)
    requires
        digits(one) == digits(other),
    ensures
        one == other,
{
    digits_stand_for_their_number(one);
    digits_stand_for_their_number(other);
}

/// Two whole numbers written alike are one number, sign and all.
pub proof fn a_whole_number_is_written_one_way(one: int, other: int)
    requires
        decimal(one) == decimal(other),
    ensures
        one == other,
{
    let a = if one < 0 { (-one) as nat } else { one as nat };
    let b = if other < 0 { (-other) as nat } else { other as nat };
    digits_stand_for_their_number(a);
    digits_stand_for_their_number(b);
    if one < 0 {
        assert(decimal(one)[0] == '-');
        assert(decimal(one).skip(1) =~= digits(a));
    } else {
        assert(decimal(one)[0] == digits(a)[0]);
    }
    if other < 0 {
        assert(decimal(other)[0] == '-');
        assert(decimal(other).skip(1) =~= digits(b));
    } else {
        assert(decimal(other)[0] == digits(b)[0]);
    }
    a_number_is_written_one_way(a, b);
}

/// The value a fraction's digits have where the first is worth so much.
pub open spec fn fraction_value(text: Seq<char>, unit: nat) -> nat
    decreases text.len(),
{
    if text.len() == 0 {
        0
    } else {
        (text[0] as nat - 48) as nat * unit + fraction_value(text.skip(1), unit / 10)
    }
}

spec fn tenfold(unit: nat) -> bool
    decreases unit,
{
    unit == 1 || (unit > 1 && unit % 10 == 0 && tenfold(unit / 10))
}

proof fn a_fraction_has_its_value(n: nat, unit: nat)
    requires
        tenfold(unit),
        n < 10 * unit,
    ensures
        fraction_value(fraction_digits(n, unit), unit) == n,
    decreases unit,
{
    if n > 0 {
        let text = fraction_digits(n, unit);
        let rest = fraction_digits(n % unit, unit / 10);
        assert(n / unit < 10) by (nonlinear_arith)
            requires
                n < 10 * unit,
                unit > 0,
        ;
        assert(n == (n / unit) * unit + n % unit) by (nonlinear_arith)
            requires
                unit > 0,
        ;
        assert(text.skip(1) =~= rest);
        assert(text[0] == digit(n / unit));
        assert(text[0] as nat == 48 + n / unit);
        assert((text[0] as nat - 48) as nat == n / unit);
        assert(fraction_value(text, unit) == (n / unit) * unit + fraction_value(rest, unit / 10));
        if unit == 1 {
            assert(n % unit == 0);
            assert(rest =~= Seq::empty());
            assert(fraction_value(rest, unit / 10) == 0);
        } else {
            assert(n % unit < unit) by (nonlinear_arith)
                requires
                    unit > 0,
            ;
            assert(10 * (unit / 10) == unit);
            a_fraction_has_its_value(n % unit, unit / 10);
        }
    }
}

/// What is written ahead of a point, where one is.
pub open spec fn ahead_of_the_point(text: Seq<char>) -> Seq<char>
    decreases text.len(),
{
    if text.len() == 0 || text[0] == '.' {
        Seq::empty()
    } else {
        seq![text[0]] + ahead_of_the_point(text.skip(1))
    }
}

proof fn the_point_ends_the_whole(whole: Seq<char>, rest: Seq<char>)
    requires
        forall|i: int| 0 <= i < whole.len() ==> #[trigger] whole[i] != '.',
        rest.len() > 0 ==> rest[0] == '.',
    ensures
        ahead_of_the_point(whole + rest) == whole,
    decreases whole.len(),
{
    let text = whole + rest;
    if whole.len() == 0 {
        assert(text =~= rest);
        assert(ahead_of_the_point(text) =~= whole);
    } else {
        assert(text[0] == whole[0]);
        assert(text.skip(1) =~= whole.skip(1) + rest);
        the_point_ends_the_whole(whole.skip(1), rest);
        assert(seq![whole[0]] + whole.skip(1) =~= whole);
    }
}

spec fn written(magnitude: nat, scale: nat) -> Seq<char> {
    if magnitude % scale == 0 {
        digits(magnitude / scale)
    } else {
        digits(magnitude / scale).push('.') + fraction_digits(magnitude % scale, scale / 10)
    }
}

proof fn a_magnitude_is_written_one_way(one: nat, other: nat, scale: nat)
    requires
        scale > 1,
        tenfold(scale),
        written(one, scale) == written(other, scale),
    ensures
        one == other,
{
    let rest_one = if one % scale == 0 {
        Seq::empty()
    } else {
        seq!['.'] + fraction_digits(one % scale, scale / 10)
    };
    let rest_other = if other % scale == 0 {
        Seq::empty()
    } else {
        seq!['.'] + fraction_digits(other % scale, scale / 10)
    };
    let whole_one = digits(one / scale);
    let whole_other = digits(other / scale);
    digits_stand_for_their_number(one / scale);
    digits_stand_for_their_number(other / scale);
    assert(written(one, scale) =~= whole_one + rest_one);
    assert(written(other, scale) =~= whole_other + rest_other);
    assert forall|i: int| 0 <= i < whole_one.len() implies #[trigger] whole_one[i] != '.' by {
        assert('0' <= whole_one[i]);
    }
    assert forall|i: int| 0 <= i < whole_other.len() implies #[trigger] whole_other[i] != '.' by {
        assert('0' <= whole_other[i]);
    }
    the_point_ends_the_whole(whole_one, rest_one);
    the_point_ends_the_whole(whole_other, rest_other);
    assert(whole_one == whole_other);
    a_number_is_written_one_way(one / scale, other / scale);
    let n = whole_one.len() as int;
    assert(written(one, scale).skip(n) =~= rest_one);
    assert(written(other, scale).skip(n) =~= rest_other);
    assert(one % scale < scale && other % scale < scale) by (nonlinear_arith)
        requires
            scale > 0,
    ;
    assert(10 * (scale / 10) == scale);
    a_fraction_has_its_value(one % scale, scale / 10);
    a_fraction_has_its_value(other % scale, scale / 10);
    if one % scale != 0 {
        assert(rest_one.skip(1) =~= fraction_digits(one % scale, scale / 10));
    }
    if other % scale != 0 {
        assert(rest_other.skip(1) =~= fraction_digits(other % scale, scale / 10));
    }
    assert(one % scale == other % scale);
    assert(one == (one / scale) * scale + one % scale) by (nonlinear_arith)
        requires
            scale > 0,
    ;
    assert(other == (other / scale) * scale + other % scale) by (nonlinear_arith)
        requires
            scale > 0,
    ;
}

proof fn a_scaled_number_is_written_one_way(one: int, other: int, scale: nat)
    requires
        scale > 1,
        tenfold(scale),
        scaled_decimal(one, scale) == scaled_decimal(other, scale),
    ensures
        one == other,
{
    let a = if one < 0 { (-one) as nat } else { one as nat };
    let b = if other < 0 { (-other) as nat } else { other as nat };
    digits_stand_for_their_number(a / scale);
    digits_stand_for_their_number(b / scale);
    assert(written(a, scale)[0] == digits(a / scale)[0]);
    assert(written(b, scale)[0] == digits(b / scale)[0]);
    if one < 0 {
        assert(scaled_decimal(one, scale)[0] == '-');
        assert(scaled_decimal(one, scale).skip(1) =~= written(a, scale));
    } else {
        assert(scaled_decimal(one, scale) == written(a, scale));
    }
    if other < 0 {
        assert(scaled_decimal(other, scale)[0] == '-');
        assert(scaled_decimal(other, scale).skip(1) =~= written(b, scale));
    } else {
        assert(scaled_decimal(other, scale) == written(b, scale));
    }
    a_magnitude_is_written_one_way(a, b, scale);
}

proof fn the_scales_are_tenfold()
    ensures
        tenfold(PRICE_SCALE as nat),
        tenfold(QTY_SCALE as nat),
{
    reveal_with_fuel(tenfold, 12);
}

/// Two prices written alike are one price.
pub proof fn a_price_is_written_one_way(one: int, other: int)
    requires
        price_text(one) == price_text(other),
    ensures
        one == other,
{
    the_scales_are_tenfold();
    a_scaled_number_is_written_one_way(one, other, PRICE_SCALE as nat);
}

/// Two quantities written alike are one quantity.
pub proof fn a_quantity_is_written_one_way(one: int, other: int)
    requires
        qty_text(one) == qty_text(other),
    ensures
        one == other,
{
    the_scales_are_tenfold();
    a_scaled_number_is_written_one_way(one, other, QTY_SCALE as nat);
}

/// A whole number of units is written as that number, with no point.
pub proof fn whole_units_are_written_plainly(units: nat)
    ensures
        price_text((units * PRICE_SCALE) as int) == digits(units),
        qty_text((units * QTY_SCALE) as int) == digits(units),
        units > 0 ==> price_text(-(units * PRICE_SCALE)) == seq!['-'] + digits(units),
        units > 0 ==> qty_text(-(units * QTY_SCALE)) == seq!['-'] + digits(units),
{
    let p = PRICE_SCALE as nat;
    let q = QTY_SCALE as nat;
    assert((units * p) / p == units && (units * p) % p == 0) by (nonlinear_arith)
        requires
            p > 0,
    ;
    assert((units * q) / q == units && (units * q) % q == 0) by (nonlinear_arith)
        requires
            q > 0,
    ;
    assert(units > 0 ==> units * p > 0 && units * q > 0) by (nonlinear_arith)
        requires
            p > 0,
            q > 0,
    ;
}

/// A price that is no whole number is its whole part, a point and its
/// fraction, whose digits are worth what is left of it.
pub proof fn a_price_has_its_value(price: nat)
    requires
        price % (PRICE_SCALE as nat) != 0,
    ensures
        ahead_of_the_point(price_text(price as int)) == digits(price / (PRICE_SCALE as nat)),
        ({
            let text = price_text(price as int);
            let whole = ahead_of_the_point(text).len() as int;
            fraction_value(text.skip(whole + 1), PRICE_SCALE as nat / 10) == price % (
            PRICE_SCALE as nat)
        }),
{
    let scale = PRICE_SCALE as nat;
    the_scales_are_tenfold();
    let whole = digits(price / scale);
    let fraction = fraction_digits(price % scale, scale / 10);
    digits_stand_for_their_number(price / scale);
    assert forall|i: int| 0 <= i < whole.len() implies #[trigger] whole[i] != '.' by {
        assert('0' <= whole[i]);
    }
    let text = price_text(price as int);
    assert(text =~= whole + (seq!['.'] + fraction));
    the_point_ends_the_whole(whole, seq!['.'] + fraction);
    assert(text.skip(whole.len() as int + 1) =~= fraction);
    a_fraction_has_its_value(price % scale, scale / 10);
}

} // verus!
