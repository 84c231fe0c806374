//! Where in an option model's record each thing it states stands.

use crate::protocol::chain_model::{
    ascii_in, class_at, classes_in, covered, date_in, dividends_in, each_expiry_is_stated_once,
    members, multiplier_in, multipliers_in, quotient, record_states, set_in, sets_in, term_at,
    term_in, terms_in, with_class, with_classes, with_term, MultiplierView, SetView, TermView,
};
use crate::protocol::fields::{big_endian, field, i32_in, u32_in, u64_in};
use vstd::prelude::*;

verus! {

/// Four bytes are a number, the first of them worth most; one at or past half
/// of what they can number is below nought.
pub proof fn four_bytes_are_a_number(b: Seq<u8>, at: int)
    requires
        0 <= at,
        at + 4 <= b.len(),
    ensures
        u32_in(b, at) == Some(
            (b[at] * 0x100_0000 + b[at + 1] * 0x1_0000 + b[at + 2] * 0x100 + b[at + 3]) as u32,
        ),
        b[at] < 0x80 ==> i32_in(b, at) == Some(
            (b[at] * 0x100_0000 + b[at + 1] * 0x1_0000 + b[at + 2] * 0x100 + b[at + 3]) as i32,
        ),
        b[at] >= 0x80 ==> i32_in(b, at) == Some(
            (b[at] * 0x100_0000 + b[at + 1] * 0x1_0000 + b[at + 2] * 0x100 + b[at + 3]
                - 0x1_0000_0000) as i32,
        ),
{
    reveal_with_fuel(big_endian, 5);
    let four = b.subrange(at, at + 4);
    assert(field(b, at, 4) == Some(four));
    assert(four.last() == b[at + 3]);
    assert(four.drop_last().last() == b[at + 2]);
    assert(four.drop_last().drop_last().last() == b[at + 1]);
    assert(four.drop_last().drop_last().drop_last().last() == b[at]);
    assert(four.drop_last().drop_last().drop_last().drop_last().len() == 0);
}

/// Eight bytes are the number their first four are, so many times over, and
/// the number their last four are.
pub proof fn eight_bytes_are_a_number(b: Seq<u8>, at: int)
    requires
        0 <= at,
        at + 8 <= b.len(),
    ensures
        u32_in(b, at) matches Some(high) && u32_in(b, at + 4) matches Some(low) && u64_in(b, at)
            == Some((high * 0x1_0000_0000 + low) as u64),
{
    four_bytes_are_a_number(b, at);
    four_bytes_are_a_number(b, at + 4);
    reveal_with_fuel(big_endian, 9);
    let eight = b.subrange(at, at + 8);
    assert(field(b, at, 8) == Some(eight));
    let seven = eight.drop_last();
    let six = seven.drop_last();
    let five = six.drop_last();
    let four = five.drop_last();
    assert(eight.last() == b[at + 7]);
    assert(seven.last() == b[at + 6]);
    assert(six.last() == b[at + 5]);
    assert(five.last() == b[at + 4]);
    assert(four =~= b.subrange(at, at + 4));
    assert(four.last() == b[at + 3]);
    assert(four.drop_last().last() == b[at + 2]);
    assert(four.drop_last().drop_last().last() == b[at + 1]);
    assert(four.drop_last().drop_last().drop_last().last() == b[at]);
}

/// A list that states so many dividends is read as exactly that many of them,
/// each the day and the amount at its own twelve bytes of the list, and in the
/// order they stand. It is read wherever each of those days and amounts is.
pub proof fn each_dividend_is_read(b: Seq<u8>, at: int, count: nat)
    ensures
        match dividends_in(b, at, count) {
            Some(list) => {
                &&& list.len() == count
                &&& forall|i: int|
                    0 <= i < count ==> {
                        &&& date_in(b, at + 12 * i) == Some((#[trigger] list[i]).0)
                        &&& u64_in(b, at + 12 * i + 4) == Some(list[i].1)
                    }
            },
            None => exists|i: int|
                0 <= i < count && (#[trigger] date_in(b, at + 12 * i) is None || u64_in(
                    b,
                    at + 12 * i + 4,
                ) is None),
        },
    decreases count,
{
    if count > 0 {
        each_dividend_is_read(b, at, (count - 1) as nat);
        let place = at + 12 * (count - 1);
        match dividends_in(b, at, (count - 1) as nat) {
            Some(before) => {
                if dividends_in(b, at, count) is None {
                    assert(date_in(b, at + 12 * (count - 1)) is None || u64_in(
                        b,
                        at + 12 * (count - 1) + 4,
                    ) is None);
                }
            },
            None => {},
        }
    }
}

/// A text is a count and that many bytes, and what follows it begins at the
/// next multiple of four. A count below nought is no text.
pub proof fn a_text_is_read_whole(b: Seq<u8>, at: int)
    ensures
        match ascii_in(b, at) {
            Some((text, next)) => i32_in(b, at) matches Some(count) && {
                &&& count < 0 ==> text is None && next == at + 4
                &&& count >= 0 ==> {
                    &&& text is Some
                    &&& text->0.len() == count
                    &&& forall|i: int|
                        0 <= i < count ==> #[trigger] text->0[i] == b[at + 4 + i] as char
                    &&& at + 4 + count <= next < at + 4 + count + 4
                    &&& (next - at) % 4 == 0
                    &&& next <= b.len()
                }
            },
            None => i32_in(b, at) is None || at + 4 + i32_in(b, at)->0 + 3 >= b.len() || at + 4
                + i32_in(b, at)->0 > b.len(),
        },
{
}

/// A multiplier is its numerator, its denominator, eight bytes each, and the
/// classes it covers: behind the two numbers where each multiplier has classes
/// of its own, and ahead of them where one is shared by all.
pub proof fn a_multiplier_is_read_whole(b: Seq<u8>, at: int, shared: bool)
    requires
        multiplier_in(b, at, shared) is Some,
    ensures
        ({
            let (one, next) = multiplier_in(b, at, shared)->0;
            &&& !shared ==> {
                &&& u64_in(b, at) == Some(one.numerator)
                &&& u64_in(b, at + 8) == Some(one.denominator)
                &&& ascii_in(b, at + 16) == Some((one.named, next))
            }
            &&& shared ==> {
                &&& ascii_in(b, at) == Some((one.named, next - 16))
                &&& u64_in(b, next - 16) == Some(one.numerator)
                &&& u64_in(b, next - 8) == Some(one.denominator)
            }
        }),
{
}

/// Whether multipliers stand one behind the other between two places.
pub open spec fn multipliers_between(
    b: Seq<u8>,
    at: int,
    list: Seq<MultiplierView>,
    next: int,
) -> bool {
    exists|places: Seq<int>|
        {
            &&& #[trigger] places.len() == list.len() + 1
            &&& places[0] == at
            &&& places.last() == next
            &&& forall|i: int|
                0 <= i < list.len() ==> multiplier_in(b, #[trigger] places[i], false) == Some(
                    (list[i], places[i + 1]),
                )
        }
}

/// A list of so many multipliers is read as exactly that many, each beginning
/// where the one ahead of it ends.
pub proof fn each_multiplier_is_read(b: Seq<u8>, at: int, count: nat)
    requires
        multipliers_in(b, at, count) is Some,
    ensures
        ({
            let (list, next) = multipliers_in(b, at, count)->0;
            list.len() == count && multipliers_between(b, at, list, next)
        }),
    decreases count,
{
    let (list, next) = multipliers_in(b, at, count)->0;
    if count == 0 {
        let places = seq![at];
        assert(places.len() == list.len() + 1);
    } else {
        each_multiplier_is_read(b, at, (count - 1) as nat);
        let (before, middle) = multipliers_in(b, at, (count - 1) as nat)->0;
        let places = choose|places: Seq<int>|
            {
                &&& #[trigger] places.len() == before.len() + 1
                &&& places[0] == at
                &&& places.last() == middle
                &&& forall|i: int|
                    0 <= i < before.len() ==> multiplier_in(b, #[trigger] places[i], false) == Some(
                        (before[i], places[i + 1]),
                    )
            };
        let all = places.push(next);
        assert(all.len() == list.len() + 1);
        assert forall|i: int| 0 <= i < list.len() implies multiplier_in(b, #[trigger] all[i], false)
            == Some((list[i], all[i + 1])) by {
            assert(all[i] == places[i]);
            if i < before.len() {
                assert(all[i + 1] == places[i + 1]);
            }
        }
    }
}

/// An expiry is its day and its five figures, eight bytes each, in the order of
/// its fields, and behind them its flags from the fourth version on. Before
/// that it stands.
pub proof fn an_expiry_is_read_whole(b: Seq<u8>, at: int, version: i32)
    requires
        term_in(b, at, version) is Some,
    ensures
        ({
            let term = term_in(b, at, version)->0;
            &&& date_in(b, at) == Some(term.last_trade_date)
            &&& u64_in(b, at + 4) == Some(term.model_yield)
            &&& u64_in(b, at + 12) == Some(term.interest_rate)
            &&& u64_in(b, at + 20) == Some(term.forward)
            &&& u64_in(b, at + 28) == Some(term.call_atm_vol)
            &&& u64_in(b, at + 36) == Some(term.put_atm_vol)
            &&& version >= 4 ==> i32_in(b, at + 44) == Some(term.attributes)
            &&& version < 4 ==> term.attributes == 1
        }),
{
}

proof fn an_expiry_stands_under_its_date(terms: Seq<TermView>, date: Seq<char>)
    ensures
        match term_at(terms, date) {
            Some(at) => 0 <= at < terms.len() && terms[at].last_trade_date == date,
            None => forall|i: int|
                0 <= i < terms.len() ==> (#[trigger] terms[i]).last_trade_date != date,
        },
    decreases terms.len(),
{
    if terms.len() > 0 {
        an_expiry_stands_under_its_date(terms.drop_last(), date);
        assert forall|i: int|
            term_at(terms, date) is None && 0 <= i < terms.len() implies (
        #[trigger] terms[i]).last_trade_date != date by {
            if i < terms.len() - 1 {
                assert(terms.drop_last()[i].last_trade_date != date);
            }
        }
    }
}

/// Where an expiry of a list begins.
pub open spec fn expiry_place(at: int, version: i32, i: int) -> int {
    if version >= 4 {
        at + 48 * i
    } else {
        at + 44 * i
    }
}

/// The expiry a list states in one place of it.
#[verifier::opaque]
pub open spec fn expiry_stated(b: Seq<u8>, at: int, version: i32, i: int) -> Option<TermView> {
    term_in(b, expiry_place(at, version, i), version)
}

/// Whether a list of expiries has one of a date.
pub open spec fn has_date(list: Seq<TermView>, date: Seq<char>) -> bool {
    exists|j: int| 0 <= j < list.len() && (#[trigger] list[j]).last_trade_date == date
}

/// Whether an expiry is stated in one place of a list, and its date in none
/// behind it.
pub open spec fn stated_last(
    b: Seq<u8>,
    at: int,
    count: nat,
    version: i32,
    i: int,
    term: TermView,
) -> bool {
    &&& 0 <= i < count
    &&& expiry_stated(b, at, version, i) == Some(term)
    &&& forall|later: int|
        i < later < count ==> (#[trigger] expiry_stated(b, at, version, later))->0.last_trade_date
            != term.last_trade_date
}

/// Whether a list of expiries holds what so many of them state: for every one
/// stated, one of its date; and in each place an expiry as it was last stated.
pub open spec fn expiries_held(
    b: Seq<u8>,
    at: int,
    count: nat,
    version: i32,
    list: Seq<TermView>,
) -> bool {
    &&& list.len() <= count
    &&& forall|i: int|
        0 <= i < count ==> (#[trigger] expiry_stated(b, at, version, i)) is Some && has_date(
            list,
            expiry_stated(b, at, version, i)->0.last_trade_date,
        )
    &&& forall|j: int|
        0 <= j < list.len() ==> stated_somewhere(b, at, count, version, #[trigger] list[j])
}

/// Whether an expiry is stated in some place of a list, and its date in none
/// behind it.
pub open spec fn stated_somewhere(
    b: Seq<u8>,
    at: int,
    count: nat,
    version: i32,
    term: TermView,
) -> bool {
    exists|i: int| #[trigger] stated_last(b, at, count, version, i, term)
}

proof fn a_date_stays(list: Seq<TermView>, term: TermView, date: Seq<char>)
    ensures
        has_date(list, date) ==> has_date(with_term(list, term), date),
        has_date(with_term(list, term), term.last_trade_date),
{
    let after = with_term(list, term);
    an_expiry_stands_under_its_date(list, term.last_trade_date);
    if has_date(list, date) {
        let j = choose|j: int| 0 <= j < list.len() && (#[trigger] list[j]).last_trade_date == date;
        assert(after[j].last_trade_date == date);
    }
    match term_at(list, term.last_trade_date) {
        Some(j) => {
            assert(after[j] == term);
        },
        None => {
            assert(after[list.len() as int] == term);
        },
    }
}

proof fn one_expiry_more(b: Seq<u8>, at: int, count: nat, version: i32)
    requires
        count > 0,
        terms_in(b, at, count, version) is Some,
    ensures
        terms_in(b, at, (count - 1) as nat, version) is Some,
        expiry_stated(b, at, version, count - 1) is Some,
        terms_in(b, at, count, version)->0 == with_term(
            terms_in(b, at, (count - 1) as nat, version)->0,
            expiry_stated(b, at, version, count - 1)->0,
        ),
{
    reveal(expiry_stated);
    assert(crate::protocol::chain_model::term_size(version) * (count - 1) == expiry_place(
        at,
        version,
        count - 1,
    ) - at);
}

/// A list of so many expiries holds every date stated, each with the figures
/// stated last for it, and nothing that was not stated.
#[verifier::spinoff_prover]
pub proof fn each_expiry_is_read(b: Seq<u8>, at: int, count: nat, version: i32)
    requires
        terms_in(b, at, count, version) is Some,
    ensures
        expiries_held(b, at, count, version, terms_in(b, at, count, version)->0),
    decreases count,
{
    if count > 0 {
        let less = (count - 1) as nat;
        one_expiry_more(b, at, count, version);
        each_expiry_is_read(b, at, less, version);
        let before = terms_in(b, at, less, version)->0;
        let list = terms_in(b, at, count, version)->0;
        let term = expiry_stated(b, at, version, less as int)->0;
        assert(list == with_term(before, term));
        an_expiry_stands_under_its_date(before, term.last_trade_date);
        each_expiry_is_stated_once(b, at, less, version);
        assert forall|i: int| 0 <= i < count implies (#[trigger] expiry_stated(
            b,
            at,
            version,
            i,
        )) is Some && has_date(list, expiry_stated(b, at, version, i)->0.last_trade_date) by {
            a_date_stays(before, term, expiry_stated(b, at, version, i)->0.last_trade_date);
        }
        assert forall|j: int| 0 <= j < list.len() implies stated_somewhere(
            b,
            at,
            count,
            version,
            #[trigger] list[j],
        ) by {
            let newest = match term_at(before, term.last_trade_date) {
                Some(k) => j == k,
                None => j == before.len(),
            };
            if newest {
                assert(list[j] == term);
                assert(stated_last(b, at, count, version, less as int, list[j]));
            } else {
                assert(list[j] == before[j]);
                assert(stated_somewhere(b, at, less, version, before[j]));
                let i = choose|i: int| stated_last(b, at, less, version, i, before[j]);
                assert(before[j].last_trade_date != term.last_trade_date);
                assert(stated_last(b, at, count, version, i, list[j]));
            }
        }
        assert(list.len() <= count);
        assert(expiries_held(b, at, count, version, list));
    }
}

/// Expiries whose dates all differ are read as exactly those, in the order they
/// stand.
pub proof fn expiries_of_different_dates_are_read_in_order(
    b: Seq<u8>,
    at: int,
    count: nat,
    version: i32,
)
    requires
        terms_in(b, at, count, version) is Some,
        forall|i: int, j: int|
            0 <= i < j < count ==> (#[trigger] expiry_stated(b, at, version, i))->0.last_trade_date
                != (#[trigger] expiry_stated(b, at, version, j))->0.last_trade_date,
    ensures
        terms_in(b, at, count, version)->0.len() == count,
        forall|i: int|
            0 <= i < count ==> #[trigger] expiry_stated(b, at, version, i) == Some(
                terms_in(b, at, count, version)->0[i],
            ),
    decreases count,
{
    if count > 0 {
        let less = (count - 1) as nat;
        expiries_of_different_dates_are_read_in_order(b, at, less, version);
        let before = terms_in(b, at, less, version)->0;
        one_expiry_more(b, at, count, version);
        let term = expiry_stated(b, at, version, less as int)->0;
        an_expiry_stands_under_its_date(before, term.last_trade_date);
        match term_at(before, term.last_trade_date) {
            Some(k) => {
                assert(expiry_stated(b, at, version, k) == Some(before[k]));
                assert(false);
            },
            None => {},
        }
    }
}

/// A set is read whole, each part from its own place.
///
/// The product stands first. Behind the multipliers stand the underlying's
/// price, how many dividends there are, and the dividends, twelve bytes each;
/// then how many expiries, and the expiries; then when the set was worked out,
/// in seconds, from the third version on how its dividends are carried, and
/// from the fourth on its flags. The price counts only where the flags say it
/// stands.
#[verifier::spinoff_prover]
pub proof fn a_set_is_read_whole(b: Seq<u8>, at: int, version: i32)
    requires
        set_in(b, at, version) is Some,
    ensures
        ({
            let (set, last) = set_in(b, at, version)->0;
            &&& i32_in(b, at) == Some(set.product_id)
            &&& set.shared <==> version < 2
            &&& classes_in(b, at + 4, version) matches Some((multipliers, next))
                && {
                    let paid = set.dividends.len();
                    let after = next + 12 + 12 * paid;
                    &&& multipliers == set.multipliers
                    &&& u64_in(b, next) is Some
                    &&& set.attributes & 4 != 0 ==> set.underlying_price == u64_in(b, next)
                    &&& set.attributes & 4 == 0 ==> set.underlying_price is None
                    &&& i32_in(b, next + 8) == Some(paid as i32)
                    &&& forall|i: int|
                        0 <= i < paid ==> {
                            &&& date_in(b, next + 12 + 12 * i) == Some(
                                (#[trigger] set.dividends[i]).0,
                            )
                            &&& u64_in(b, next + 12 + 12 * i + 4) == Some(set.dividends[i].1)
                        }
                    &&& i32_in(b, after) matches Some(expiries) && {
                        let end = expiry_place(after + 4, version, expiries as int);
                        &&& expiries >= 0
                        &&& expiries_held(b, after + 4, expiries as nat, version, set.terms)
                        &&& i32_in(b, end) matches Some(seconds) && set.timestamp_millis == seconds
                            * 1000
                        &&& version < 3 ==> !set.index_style_dividends && last == end + 4
                        &&& version >= 3 ==> i32_in(b, end + 4) is Some
                            && set.index_style_dividends == (i32_in(b, end + 4)->0 > 0)
                        &&& version == 3 ==> last == end + 8
                        &&& version < 4 ==> set.attributes == 1
                        &&& version >= 4 ==> i32_in(b, end + 8) == Some(set.attributes) && last
                            == end + 12
                    }
                }
        }),
{
    let (set, last) = set_in(b, at, version)->0;
    let (multipliers, next) = classes_in(b, at + 4, version)->0;
    let paid = i32_in(b, next + 8)->0;
    each_dividend_is_read(b, next + 12, paid as nat);
    let after = next + 12 + 12 * paid;
    let stated = i32_in(b, after)->0;
    each_expiry_is_read(b, after + 4, stated as nat, version);
    let end = expiry_place(after + 4, version, stated as int);
    assert(end == after + 4 + crate::protocol::chain_model::term_size(version) * stated);
    assert(classes_in(b, at + 4, version) == Some((set.multipliers, next)));
}

/// Whether sets stand one behind the other from a place.
pub open spec fn sets_from(b: Seq<u8>, at: int, version: i32, list: Seq<SetView>) -> bool {
    exists|places: Seq<int>|
        {
            &&& #[trigger] places.len() == list.len() + 1
            &&& places[0] == at
            &&& forall|i: int|
                0 <= i < list.len() ==> set_in(b, #[trigger] places[i], version) == Some(
                    (list[i], places[i + 1]),
                )
        }
}

proof fn each_set_is_read(b: Seq<u8>, at: int, count: nat, version: i32)
    requires
        sets_in(b, at, count, version) is Some,
    ensures
        ({
            let (list, next) = sets_in(b, at, count, version)->0;
            list.len() == count && exists|places: Seq<int>|
                {
                    &&& #[trigger] places.len() == list.len() + 1
                    &&& places[0] == at
                    &&& places.last() == next
                    &&& forall|i: int|
                        0 <= i < list.len() ==> set_in(b, #[trigger] places[i], version) == Some(
                            (list[i], places[i + 1]),
                        )
                }
        }),
    decreases count,
{
    let (list, next) = sets_in(b, at, count, version)->0;
    if count == 0 {
        let places = seq![at];
        assert(places.len() == list.len() + 1);
    } else {
        each_set_is_read(b, at, (count - 1) as nat, version);
        let (before, middle) = sets_in(b, at, (count - 1) as nat, version)->0;
        let places = choose|places: Seq<int>|
            {
                &&& #[trigger] places.len() == before.len() + 1
                &&& places[0] == at
                &&& places.last() == middle
                &&& forall|i: int|
                    0 <= i < before.len() ==> set_in(b, #[trigger] places[i], version) == Some(
                        (before[i], places[i + 1]),
                    )
            };
        let all = places.push(next);
        assert(all.len() == list.len() + 1);
        assert forall|i: int| 0 <= i < list.len() implies set_in(b, #[trigger] all[i], version)
            == Some((list[i], all[i + 1])) by {
            assert(all[i] == places[i]);
            if i < before.len() {
                assert(all[i + 1] == places[i + 1]);
            }
        }
    }
}

/// A record states its version, how many sets it holds, and exactly that many
/// sets, each beginning where the one ahead of it ends.
pub proof fn a_record_is_read_whole(b: Seq<u8>)
    requires
        record_states(b) is Some,
    ensures
        ({
            let sets = record_states(b)->0;
            &&& i32_in(b, 0) matches Some(version) && sets_from(b, 8, version, sets)
            &&& i32_in(b, 4) == Some(sets.len() as i32)
        }),
{
    each_set_is_read(b, 8, i32_in(b, 4)->0 as nat, i32_in(b, 0)->0);
}

proof fn a_class_stands_under_its_name(classes: Seq<(Seq<char>, Seq<u64>)>, name: Seq<char>)
    ensures
        match class_at(classes, name) {
            Some(at) => 0 <= at < classes.len() && classes[at].0 == name,
            None => true,
        },
    decreases classes.len(),
{
    if classes.len() > 0 {
        a_class_stands_under_its_name(classes.drop_last(), name);
    }
}

/// Whether a class is covered at a multiplier.
pub open spec fn covers(
    classes: Seq<(Seq<char>, Seq<u64>)>,
    name: Seq<char>,
    multiplier: u64,
) -> bool {
    exists|j: int|
        0 <= j < classes.len() && (#[trigger] classes[j]).0 == name && classes[j].1.contains(
            multiplier,
        )
}

proof fn one_class_more(
    classes: Seq<(Seq<char>, Seq<u64>)>,
    name: Seq<char>,
    multiplier: u64,
    shared: bool,
)
    requires
        with_class(classes, name, multiplier, shared) is Some,
    ensures
        forall|other: Seq<char>, at: u64| #[trigger]
            covers(with_class(classes, name, multiplier, shared)->0, other, at) <==> covers(
                classes,
                other,
                at,
            ) || (other == name && at == multiplier),
{
    let after = with_class(classes, name, multiplier, shared)->0;
    a_class_stands_under_its_name(classes, name);
    assert forall|other: Seq<char>, at: u64| #[trigger] covers(after, other, at) <==> covers(
        classes,
        other,
        at,
    ) || (other == name && at == multiplier) by {
        if covers(classes, other, at) {
            let j = choose|j: int|
                0 <= j < classes.len() && (#[trigger] classes[j]).0 == other
                    && classes[j].1.contains(at);
            let k = choose|k: int| 0 <= k < classes[j].1.len() && classes[j].1[k] == at;
            assert(after[j].0 == other);
            assert(after[j].1[k] == at);
            assert(after[j].1.contains(at));
        }
        match class_at(classes, name) {
            Some(j) => {
                if classes[j].1.contains(multiplier) {
                    assert(covers(classes, name, multiplier));
                } else {
                    assert(after[j].1[classes[j].1.len() as int] == multiplier);
                    assert(after[j].1.contains(multiplier));
                }
            },
            None => {
                let j = classes.len() as int;
                assert(after[j].0 == name);
                assert(after[j].1[0] == multiplier);
                assert(after[j].1.contains(multiplier));
            },
        }
        if covers(after, other, at) && !(other == name && at == multiplier) {
            let j = choose|j: int|
                0 <= j < after.len() && (#[trigger] after[j]).0 == other && after[j].1.contains(at);
            let k = choose|k: int| 0 <= k < after[j].1.len() && after[j].1[k] == at;
            if j < classes.len() {
                assert(classes[j].0 == other);
                assert(classes[j].1[k] == at);
                assert(classes[j].1.contains(at));
            }
        }
    }
}

proof fn more_classes(
    classes: Seq<(Seq<char>, Seq<u64>)>,
    names: Seq<Seq<char>>,
    multiplier: u64,
    shared: bool,
)
    requires
        with_classes(classes, names, multiplier, shared) is Some,
    ensures
        forall|other: Seq<char>, at: u64| #[trigger]
            covers(with_classes(classes, names, multiplier, shared)->0, other, at) <==> covers(
                classes,
                other,
                at,
            ) || (names.contains(other) && at == multiplier),
    decreases names.len(),
{
    if names.len() > 0 {
        let less = names.drop_last();
        more_classes(classes, less, multiplier, shared);
        let before = with_classes(classes, less, multiplier, shared)->0;
        one_class_more(before, names.last(), multiplier, shared);
        assert forall|other: Seq<char>| #[trigger] names.contains(other) <==> less.contains(other)
            || other == names.last() by {
            if names.contains(other) {
                let i = choose|i: int| 0 <= i < names.len() && names[i] == other;
                if i < less.len() {
                    assert(less[i] == other);
                }
            }
            if less.contains(other) {
                let i = choose|i: int| 0 <= i < less.len() && less[i] == other;
                assert(names[i] == other);
            }
            assert(names[names.len() - 1] == names.last());
        }
    }
}

/// Whether a multiplier names a class.
pub open spec fn names_class(one: MultiplierView, name: Seq<char>) -> bool {
    match one.named {
        Some(named) => members(named).contains(name),
        None => false,
    }
}

/// Whether one of the multipliers covers a class, and at what.
pub open spec fn named_at(
    multipliers: Seq<MultiplierView>,
    divided: Seq<u64>,
    name: Seq<char>,
    at: u64,
) -> bool {
    exists|k: int|
        0 <= k < multipliers.len() && names_class(#[trigger] multipliers[k], name) && quotient(multipliers[k], divided[k]) == at
}

/// A set covers a class at exactly the multipliers that name the class, each as
/// its division came out.
pub proof fn a_class_is_covered_where_it_is_named(
    multipliers: Seq<MultiplierView>,
    divided: Seq<u64>,
    shared: bool,
    name: Seq<char>,
    at: u64,
)
    requires
        covered(multipliers, divided, shared) is Some,
    ensures
        covers(covered(multipliers, divided, shared)->0, name, at) <==> named_at(
            multipliers,
            divided,
            name,
            at,
        ),
    decreases multipliers.len(),
{
    if multipliers.len() > 0 {
        let less = multipliers.drop_last();
        a_class_is_covered_where_it_is_named(less, divided, shared, name, at);
        let before = covered(less, divided, shared)->0;
        let last = multipliers.len() - 1;
        match multipliers.last().named {
            Some(named) => {
                more_classes(
                    before,
                    members(named),
                    quotient(multipliers.last(), divided[last]),
                    shared,
                );
            },
            None => {},
        }
        if named_at(less, divided, name, at) {
            let k = choose|k: int|
                0 <= k < less.len() && names_class(#[trigger] less[k], name) && quotient(less[k], divided[k]) == at;
            assert(multipliers[k] == less[k]);
        }
        if named_at(multipliers, divided, name, at) {
            let k = choose|k: int|
                0 <= k < multipliers.len() && names_class(#[trigger] multipliers[k], name) && quotient(multipliers[k], divided[k]) == at;
            if k < less.len() {
                assert(less[k] == multipliers[k]);
            }
        }
        assert(multipliers[last] == multipliers.last());
    }
}

} // verus!
