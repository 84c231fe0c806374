//! The parameters the venue's option model works an underlying's chain from.
//!
//! Two series state them in one shape: the standing set, and the set as the
//! chain closed. The payload is compressed, and what it inflates to is a run of
//! fields whose presence depends on a version stated first. A record that stops
//! short of what its version says it carries states nothing.
//!
//! Figures are held as the bits of their binary form. A multiplier is stated as
//! a numerator over a denominator, and what a set covers at each is settled
//! once they are divided.

use crate::bits::{is_nought, nought};
use crate::protocol::datetime::{
    a_day_has_its_date, date_of, day_number, is_date, the_date_of_a_day, LAST_DAY,
};
use crate::protocol::fields::{i32_at, i32_in, u64_at, u64_in};
use crate::reading::{characters, split, split_from};
use crate::text::{padded, texts};
use std::io::Read;
use vstd::prelude::*;
use vstd::slice::slice_subrange;

verus! {

/// The most one payload may become.
pub const MAX_INFLATED: u64 = 0x400_0000;

/// What a compressed stream inflates to: the bytes it hands out one by one
/// before it ends or fails, and no more of them than the most asked for.
pub uninterp spec fn inflated(stream: Seq<u8>, most: u64) -> Seq<u8>;

/// `flate2::read::ZlibDecoder`, read byte by byte to its end, its first failure
/// or the most asked for. The bytes it hands out are a function of the stream
/// and that number, and no more than so many.
#[verifier::external_body]
fn inflate(stream: &[u8], most: u64) -> (bytes: Vec<u8>)
    ensures
        bytes@ == inflated(stream@, most),
        bytes@.len() <= most,
{
    let decoder = flate2::read::ZlibDecoder::new(stream).take(most);
    decoder.bytes().map_while(Result::ok).collect()
}

/// The date so many days from the first of January 1970, written as a
/// contract's own dates are; nothing where no calendar date is that far off.
pub uninterp spec fn civil_day(days: i32) -> Option<Seq<char>>;

/// A date as a contract's own are written: the year in four digits, the month
/// and the day in two each.
pub open spec fn date_text(year: int, month: int, day: int) -> Seq<char> {
    padded(year as nat, 4) + padded(month as nat, 2) + padded(day as nat, 2)
}

/// What a day read is as a text.
pub open spec fn day_text(day: Option<String>) -> Option<Seq<char>> {
    match day {
        Some(day) => Some(day@),
        None => None,
    }
}

/// `jiff::civil::Date::checked_add` of a span of days to the first of January
/// 1970, written by `strftime` as `%Y%m%d`. The result is a function of the
/// days. From 1970 to 9999 it is the date of the Gregorian calendar that many
/// days on.
#[verifier::external_body]
fn day_after_epoch(days: i32) -> (day: Option<String>)
    ensures
        day_text(day) == civil_day(days),
        forall|year: int, month: int, date: int|
            1970 <= year <= 9999 && #[trigger] is_date(year, month, date) && day_number(
                year,
                month,
                date,
            ) == days ==> day_text(day) == Some(date_text(year, month, date)),
{
    let span = jiff::Span::new().try_days(i64::from(days)).ok()?;
    let date = jiff::civil::date(1970, 1, 1).checked_add(span).ok()?;
    Some(date.strftime("%Y%m%d").to_string())
}

/// What the venue's option model works one expiry of a chain from.
///
/// The two volatilities are per trading day, as the venue states them. The
/// venue states no unit for the yield and the rate.
#[derive(Debug, PartialEq)]
pub struct ChainModelTerm {
    /// The last day the expiry trades, as `YYYYMMDD`.
    pub last_trade_date: String,
    /// The yield the model carries the underlying at.
    pub model_yield: u64,
    /// The interest rate the model discounts at.
    pub interest_rate: u64,
    /// The underlying's forward price to that expiry.
    pub forward: u64,
    /// The at-the-money volatility of the calls, per trading day.
    pub call_atm_vol: u64,
    /// The at-the-money volatility of the puts, per trading day.
    pub put_atm_vol: u64,
    /// The venue's flags for the expiry, as for the whole set.
    pub attributes: i32,
}

/// What one expiry states.
#[verifier::ext_equal]
pub struct TermView {
    pub last_trade_date: Seq<char>,
    pub model_yield: u64,
    pub interest_rate: u64,
    pub forward: u64,
    pub call_atm_vol: u64,
    pub put_atm_vol: u64,
    pub attributes: i32,
}

impl View for ChainModelTerm {
    type V = TermView;

    open spec fn view(&self) -> TermView {
        TermView {
            last_trade_date: self.last_trade_date@,
            model_yield: self.model_yield,
            interest_rate: self.interest_rate,
            forward: self.forward,
            call_atm_vol: self.call_atm_vol,
            put_atm_vol: self.put_atm_vol,
            attributes: self.attributes,
        }
    }
}

/// A multiplier as it is stated, with the classes it covers where any are
/// named.
#[derive(Debug, PartialEq)]
pub struct StatedMultiplier {
    pub numerator: u64,
    pub denominator: u64,
    pub named: Option<String>,
}

/// What a multiplier states.
#[verifier::ext_equal]
pub struct MultiplierView {
    pub numerator: u64,
    pub denominator: u64,
    pub named: Option<Seq<char>>,
}

impl View for StatedMultiplier {
    type V = MultiplierView;

    open spec fn view(&self) -> MultiplierView {
        MultiplierView {
            numerator: self.numerator,
            denominator: self.denominator,
            named: day_text(self.named),
        }
    }
}

/// A set as it is stated, its multipliers not yet divided.
#[derive(Debug, PartialEq)]
pub struct StatedSet {
    pub product_id: i32,
    /// Whether one multiplier covers every class the set names.
    pub shared: bool,
    pub multipliers: Vec<StatedMultiplier>,
    pub underlying_price: Option<u64>,
    pub dividends: Vec<(String, u64)>,
    pub index_style_dividends: bool,
    pub terms: Vec<ChainModelTerm>,
    pub timestamp_millis: i64,
    pub attributes: i32,
}

/// What a set states.
#[verifier::ext_equal]
pub struct SetView {
    pub product_id: i32,
    pub shared: bool,
    pub multipliers: Seq<MultiplierView>,
    pub underlying_price: Option<u64>,
    pub dividends: Seq<(Seq<char>, u64)>,
    pub index_style_dividends: bool,
    pub terms: Seq<TermView>,
    pub timestamp_millis: i64,
    pub attributes: i32,
}

/// What a list of dividends states.
pub open spec fn dividends_view(dividends: Seq<(String, u64)>) -> Seq<(Seq<char>, u64)> {
    dividends.map_values(|one: (String, u64)| (one.0@, one.1))
}

/// What a list of expiries states.
pub open spec fn terms_view(terms: Seq<ChainModelTerm>) -> Seq<TermView> {
    terms.map_values(|one: ChainModelTerm| one@)
}

/// What a list of multipliers states.
pub open spec fn multipliers_view(multipliers: Seq<StatedMultiplier>) -> Seq<MultiplierView> {
    multipliers.map_values(|one: StatedMultiplier| one@)
}

impl View for StatedSet {
    type V = SetView;

    open spec fn view(&self) -> SetView {
        SetView {
            product_id: self.product_id,
            shared: self.shared,
            multipliers: multipliers_view(self.multipliers@),
            underlying_price: self.underlying_price,
            dividends: dividends_view(self.dividends@),
            index_style_dividends: self.index_style_dividends,
            terms: terms_view(self.terms@),
            timestamp_millis: self.timestamp_millis,
            attributes: self.attributes,
        }
    }
}

/// A list the venue writes with commas between its members, without those at
/// its end.
pub open spec fn without_trailing(named: Seq<char>) -> Seq<char>
    decreases named.len(),
{
    if named.len() > 0 && named.last() == ',' {
        without_trailing(named.drop_last())
    } else {
        named
    }
}

/// The members of a list, split the way its writer splits one: the empty
/// members at its end are not members, and a list of nothing at all is one
/// empty member.
pub open spec fn members(named: Seq<char>) -> Seq<Seq<char>> {
    let trimmed = without_trailing(named);
    if named.len() == 0 || trimmed.len() > 0 {
        split(trimmed, ',')
    } else {
        Seq::empty()
    }
}

/// Split a list the venue writes with commas between its members.
pub fn split_list(named: &str) -> (list: Vec<String>)
    ensures
        texts(list@) == members(named@),
{
    let mut chars: Vec<char> = characters(named);
    let empty: bool = chars.len() == 0;
    let ghost whole = chars@;
    while chars.len() > 0 && chars[chars.len() - 1] == ','
        invariant
            without_trailing(chars@) == without_trailing(whole),
        decreases chars@.len(),
    {
        let ghost before = chars@;
        let _ = chars.pop();
        proof {
            assert(chars@ =~= before.drop_last());
        }
    }
    proof {
        assert(without_trailing(whole) == chars@);
        assert(chars@.skip(0) =~= chars@);
    }
    if empty || chars.len() > 0 {
        split_from(&chars, 0, ',')
    } else {
        let none: Vec<String> = Vec::new();
        proof {
            assert(texts(none@) =~= Seq::empty());
        }
        none
    }
}

/// Bytes as the characters they number.
pub open spec fn latin(bytes: Seq<u8>) -> Seq<char> {
    bytes.map_values(|b: u8| b as char)
}

/// How many bytes follow a text of so many to a multiple of four.
pub open spec fn padding(stated: int) -> int {
    (4 - stated % 4) % 4
}

/// The text at a place and where what follows it begins: a count, that many
/// bytes, then padding to a multiple of four. A count below nought is text the
/// venue states as nothing.
pub open spec fn ascii_in(b: Seq<u8>, at: int) -> Option<(Option<Seq<char>>, int)> {
    match i32_in(b, at) {
        None => None,
        Some(stated) => if stated < 0 {
            Some((None, at + 4))
        } else if at + 4 + stated + padding(stated as int) <= b.len() {
            Some((
                Some(latin(b.subrange(at + 4, at + 4 + stated))),
                at + 4 + stated + padding(stated as int),
            ))
        } else {
            None
        },
    }
}

/// The multiplier at a place, with the classes it covers, and where what
/// follows begins. A multiplier shared by all of them stands behind them.
pub open spec fn multiplier_in(b: Seq<u8>, at: int, shared: bool) -> Option<(MultiplierView, int)> {
    if shared {
        match ascii_in(b, at) {
            None => None,
            Some((named, next)) => match (u64_in(b, next), u64_in(b, next + 8)) {
                (Some(numerator), Some(denominator)) => Some((
                    MultiplierView { numerator, denominator, named },
                    next + 16,
                )),
                _ => None,
            },
        }
    } else {
        match (u64_in(b, at), u64_in(b, at + 8)) {
            (Some(numerator), Some(denominator)) => match ascii_in(b, at + 16) {
                None => None,
                Some((named, next)) => Some((
                    MultiplierView { numerator, denominator, named },
                    next,
                )),
            },
            _ => None,
        }
    }
}

/// So many multipliers from a place, each with the classes it covers, and where
/// what follows begins.
pub open spec fn multipliers_in(
    b: Seq<u8>,
    at: int,
    count: nat,
) -> Option<(Seq<MultiplierView>, int)>
    decreases count,
{
    if count == 0 {
        Some((Seq::empty(), at))
    } else {
        match multipliers_in(b, at, (count - 1) as nat) {
            None => None,
            Some((before, next)) => match multiplier_in(b, next, false) {
                None => None,
                Some((one, after)) => Some((before.push(one), after)),
            },
        }
    }
}

/// Whether a multiplier names no class twice.
pub open spec fn names_each_once(one: MultiplierView) -> bool {
    match one.named {
        Some(named) => members(named).no_duplicates(),
        None => true,
    }
}

/// The multipliers of a set and where what follows begins. From the second
/// version each is stated with the classes it covers; before that, one covers
/// them all, and a list that names a class twice says two things of it.
pub open spec fn classes_in(b: Seq<u8>, at: int, version: i32) -> Option<
    (Seq<MultiplierView>, int),
> {
    if version > 1 {
        match i32_in(b, at) {
            None => None,
            Some(stated) => multipliers_in(
                b,
                at + 4,
                (if stated < 0 {
                    0
                } else {
                    stated as int
                }) as nat,
            ),
        }
    } else {
        match multiplier_in(b, at, true) {
            Some((one, next)) if names_each_once(one) => Some((seq![one], next)),
            _ => None,
        }
    }
}

/// A day so many days from the first of January 1970, as it is written: its
/// date in the years 1970 to 9999.
pub open spec fn day_written(days: i32) -> Option<Seq<char>> {
    if 0 <= days <= LAST_DAY {
        let date = date_of(days as nat);
        Some(date_text(date.0 as int, date.1 as int, date.2 as int))
    } else {
        civil_day(days)
    }
}

/// The day at a place.
pub open spec fn date_in(b: Seq<u8>, at: int) -> Option<Seq<char>> {
    match i32_in(b, at) {
        Some(days) => day_written(days),
        None => None,
    }
}

/// A day in the years 1970 to 9999 is written as the one date that lies so many
/// days after the first of January 1970.
pub proof fn a_day_is_written_as_its_date(days: i32, year: int, month: int, day: int)
    requires
        1970 <= year <= 9999,
        is_date(year, month, day),
        day_number(year, month, day) == days,
    ensures
        day_written(days) == Some(date_text(year, month, day)),
{
    the_date_of_a_day(year as nat, month as nat, day as nat);
    a_day_has_its_date(days as nat);
}

/// So many dividends from a place, each its day and its amount.
pub open spec fn dividends_in(b: Seq<u8>, at: int, count: nat) -> Option<Seq<(Seq<char>, u64)>>
    decreases count,
{
    if count == 0 {
        Some(Seq::empty())
    } else {
        let place = at + 12 * (count - 1);
        match dividends_in(b, at, (count - 1) as nat) {
            None => None,
            Some(before) => match (date_in(b, place), u64_in(b, place + 4)) {
                (Some(day), Some(amount)) => Some(before.push((day, amount))),
                _ => None,
            },
        }
    }
}

/// How many bytes an expiry takes.
pub open spec fn term_size(version: i32) -> int {
    if version > 3 {
        48
    } else {
        44
    }
}

/// The expiry at a place.
pub open spec fn term_in(b: Seq<u8>, at: int, version: i32) -> Option<TermView> {
    let flags = if version > 3 {
        i32_in(b, at + 44)
    } else {
        Some(1i32)
    };
    match (
        date_in(b, at),
        u64_in(b, at + 4),
        u64_in(b, at + 12),
        u64_in(b, at + 20),
        u64_in(b, at + 28),
        u64_in(b, at + 36),
        flags,
    ) {
        (
            Some(last_trade_date),
            Some(model_yield),
            Some(interest_rate),
            Some(forward),
            Some(call_atm_vol),
            Some(put_atm_vol),
            Some(attributes),
        ) => Some(
            TermView {
                last_trade_date,
                model_yield,
                interest_rate,
                forward,
                call_atm_vol,
                put_atm_vol,
                attributes,
            },
        ),
        _ => None,
    }
}

/// Where an expiry stands in a list, by its date.
pub open spec fn term_at(terms: Seq<TermView>, date: Seq<char>) -> Option<int>
    decreases terms.len(),
{
    if terms.len() == 0 {
        None
    } else {
        match term_at(terms.drop_last(), date) {
            Some(at) => Some(at),
            None => if terms.last().last_trade_date == date {
                Some(terms.len() - 1)
            } else {
                None
            },
        }
    }
}

/// A list of expiries with one more. One set per expiry: a date stated twice
/// keeps its first place and takes the later figures.
pub open spec fn with_term(terms: Seq<TermView>, term: TermView) -> Seq<TermView> {
    match term_at(terms, term.last_trade_date) {
        Some(at) => terms.update(at, term),
        None => terms.push(term),
    }
}

/// So many expiries from a place.
pub open spec fn terms_in(b: Seq<u8>, at: int, count: nat, version: i32) -> Option<Seq<TermView>>
    decreases count,
{
    if count == 0 {
        Some(Seq::empty())
    } else {
        match terms_in(b, at, (count - 1) as nat, version) {
            None => None,
            Some(before) => match term_in(b, at + term_size(version) * (count - 1), version) {
                Some(term) => Some(with_term(before, term)),
                None => None,
            },
        }
    }
}

/// What a set states behind its expiries: when it was worked out, whether its
/// dividends are carried as an index's are, and its flags. Where the next set
/// begins stands last.
pub open spec fn tail_in(b: Seq<u8>, at: int, version: i32) -> Option<(i64, bool, i32, int)> {
    let style = if version > 2 {
        i32_in(b, at + 4)
    } else {
        Some(0i32)
    };
    let flags_at = if version > 2 {
        at + 8
    } else {
        at + 4
    };
    let flags = if version > 3 {
        i32_in(b, flags_at)
    } else {
        Some(1i32)
    };
    let next = if version > 3 {
        flags_at + 4
    } else {
        flags_at
    };
    match (i32_in(b, at), style, flags) {
        (Some(seconds), Some(style), Some(flags)) => Some((
            (seconds * 1000) as i64,
            style > 0,
            flags,
            next,
        )),
        _ => None,
    }
}

/// The set at a place, and where what follows it begins.
pub open spec fn set_in(b: Seq<u8>, at: int, version: i32) -> Option<(SetView, int)> {
    match (i32_in(b, at), classes_in(b, at + 4, version)) {
        (Some(product_id), Some((multipliers, next))) => match (
            u64_in(b, next),
            i32_in(b, next + 8),
        ) {
            (Some(price), Some(paid)) => if paid < 0 {
                None
            } else {
                let after = next + 12 + 12 * paid;
                match (dividends_in(b, next + 12, paid as nat), i32_in(b, after)) {
                    (Some(dividends), Some(stated)) => if stated < 0 {
                        None
                    } else {
                        let end = after + 4 + term_size(version) * stated;
                        match (
                            terms_in(b, after + 4, stated as nat, version),
                            tail_in(b, end, version),
                        ) {
                            (Some(terms), Some((timestamp_millis, style, attributes, last))) =>
                                Some((
                                SetView {
                                    product_id,
                                    shared: version <= 1,
                                    multipliers,
                                    underlying_price: if attributes & 4 != 0 {
                                        Some(price)
                                    } else {
                                        None
                                    },
                                    dividends,
                                    index_style_dividends: style,
                                    terms,
                                    timestamp_millis,
                                    attributes,
                                },
                                last,
                            )),
                            _ => None,
                        }
                    },
                    _ => None,
                }
            },
            _ => None,
        },
        _ => None,
    }
}

/// So many sets from a place, and where what follows them begins.
pub open spec fn sets_in(b: Seq<u8>, at: int, count: nat, version: i32) -> Option<
    (Seq<SetView>, int),
>
    decreases count,
{
    if count == 0 {
        Some((Seq::empty(), at))
    } else {
        match sets_in(b, at, (count - 1) as nat, version) {
            None => None,
            Some((before, next)) => match set_in(b, next, version) {
                Some((set, after)) => Some((before.push(set), after)),
                None => None,
            },
        }
    }
}

/// What an inflated record states. A count below nought is the venue saying it
/// has none to state, and what follows a whole record is not read.
pub open spec fn record_states(b: Seq<u8>) -> Option<Seq<SetView>> {
    match (i32_in(b, 0), i32_in(b, 4)) {
        (Some(version), Some(count)) => if count < 0 {
            None
        } else {
            match sets_in(b, 8, count as nat, version) {
                Some((sets, _)) => Some(sets),
                None => None,
            }
        },
        _ => None,
    }
}

/// What a list of sets states.
pub open spec fn sets_view(sets: Seq<StatedSet>) -> Seq<SetView> {
    sets.map_values(|one: StatedSet| one@)
}

/// What is stated by sets, where there are any.
pub open spec fn stated(sets: Option<Vec<StatedSet>>) -> Option<Seq<SetView>> {
    match sets {
        Some(sets) => Some(sets_view(sets@)),
        None => None,
    }
}

/// Where the bytes that open a compressed stream first stand.
pub open spec fn magic_at(payload: Seq<u8>) -> Option<int>
    decreases payload.len(),
{
    if payload.len() < 2 {
        None
    } else {
        match magic_at(payload.drop_last()) {
            Some(at) => Some(at),
            None => if payload[payload.len() - 2] == 0x78 && payload[payload.len() - 1] == 0x9C {
                Some(payload.len() - 2)
            } else {
                None
            },
        }
    }
}

/// What a text read is, and where what follows it begins.
spec fn text_read(read: Option<(Option<String>, usize)>) -> Option<(Option<Seq<char>>, int)> {
    match read {
        Some((text, next)) => Some((day_text(text), next as int)),
        None => None,
    }
}

fn read_ascii(b: &[u8], at: usize) -> (read: Option<(Option<String>, usize)>)
    requires
        at <= b@.len(),
    ensures
        text_read(read) == ascii_in(b@, at as int),
        read matches Some((_, next)) ==> next <= b@.len(),
{
    let stated: i32 = match i32_at(b, at) {
        Some(stated) => stated,
        None => {
            return None;
        },
    };
    if stated < 0 {
        return Some((None, at + 4));
    }
    let left: usize = b.len() - (at + 4);
    if stated as u64 > left as u64 {
        return None;
    }
    let count: usize = stated as usize;
    let pad: usize = (4 - count % 4) % 4;
    if pad > left - count {
        return None;
    }
    let body: &[u8] = slice_subrange(b, at + 4, at + 4 + count);
    let mut text: String = String::new();
    let mut i: usize = 0;
    proof {
        assert(text@ =~= latin(body@).take(0));
    }
    while i < body.len()
        invariant
            i <= body@.len(),
            text@ == latin(body@).take(i as int),
        decreases body@.len() - i,
    {
        text.push(body[i] as char);
        proof {
            assert(text@ =~= latin(body@).take(i + 1));
        }
        i = i + 1;
    }
    proof {
        assert(latin(body@).take(i as int) =~= latin(body@));
        assert(body@ =~= b@.subrange(at + 4, at + 4 + stated));
    }
    Some((Some(text), at + 4 + count + pad))
}

/// What a multiplier read is, and where what follows it begins.
spec fn multiplier_read(read: Option<(StatedMultiplier, usize)>) -> Option<(MultiplierView, int)> {
    match read {
        Some((one, next)) => Some((one@, next as int)),
        None => None,
    }
}

fn read_rational(b: &[u8], at: usize) -> (read: Option<(u64, u64)>)
    requires
        at <= b@.len(),
    ensures
        match read {
            Some((numerator, denominator)) => {
                &&& u64_in(b@, at as int) == Some(numerator)
                &&& u64_in(b@, at + 8) == Some(denominator)
                &&& at + 16 <= b@.len() && at + 16 <= usize::MAX
            },
            None => u64_in(b@, at as int) is None || u64_in(b@, at + 8) is None,
        },
{
    match u64_at(b, at) {
        Some(numerator) => match u64_at(b, at + 8) {
            Some(denominator) => Some((numerator, denominator)),
            None => None,
        },
        None => None,
    }
}

fn read_multiplier(b: &[u8], at: usize, shared: bool) -> (read: Option<(StatedMultiplier, usize)>)
    requires
        at <= b@.len(),
    ensures
        multiplier_read(read) == multiplier_in(b@, at as int, shared),
        read matches Some((_, next)) ==> next <= b@.len(),
{
    if shared {
        match read_ascii(b, at) {
            None => None,
            Some((named, next)) => match read_rational(b, next) {
                None => None,
                Some((numerator, denominator)) => Some((
                    StatedMultiplier { numerator, denominator, named },
                    next + 16,
                )),
            },
        }
    } else {
        match read_rational(b, at) {
            None => None,
            Some((numerator, denominator)) => match read_ascii(b, at + 16) {
                None => None,
                Some((named, next)) => Some((
                    StatedMultiplier { numerator, denominator, named },
                    next,
                )),
            },
        }
    }
}

/// What multipliers read are, and where what follows them begins.
spec fn multipliers_read(
    read: Option<(Vec<StatedMultiplier>, usize)>,
) -> Option<(Seq<MultiplierView>, int)> {
    match read {
        Some((list, next)) => Some((multipliers_view(list@), next as int)),
        None => None,
    }
}

proof fn short_of_multipliers(b: Seq<u8>, at: int, some: nat, all: nat)
    requires
        some <= all,
        multipliers_in(b, at, some) is None,
    ensures
        multipliers_in(b, at, all) is None,
    decreases all,
{
    if some < all {
        short_of_multipliers(b, at, some, (all - 1) as nat);
    }
}

fn read_multipliers(b: &[u8], at: usize, count: u32) -> (read: Option<
    (Vec<StatedMultiplier>, usize),
>)
    requires
        at <= b@.len(),
    ensures
        multipliers_read(read) == multipliers_in(b@, at as int, count as nat),
        read matches Some((_, next)) ==> next <= b@.len(),
{
    let mut list: Vec<StatedMultiplier> = Vec::new();
    let mut next: usize = at;
    let mut done: u32 = 0;
    proof {
        assert(multipliers_view(list@) =~= Seq::empty());
    }
    while done < count
        invariant
            done <= count,
            next <= b@.len(),
            multipliers_in(b@, at as int, done as nat) == Some((
                multipliers_view(list@),
                next as int,
            )),
        decreases count - done,
    {
        match read_multiplier(b, next, false) {
            None => {
                proof {
                    short_of_multipliers(b@, at as int, (done + 1) as nat, count as nat);
                }
                return None;
            },
            Some((one, after)) => {
                proof {
                    assert(multipliers_view(list@.push(one)) =~= multipliers_view(list@).push(
                        one@,
                    ));
                }
                list.push(one);
                next = after;
                done = done + 1;
            },
        }
    }
    Some((list, next))
}

fn each_once(names: &Vec<String>) -> (r: bool)
    ensures
        r == texts(names@).no_duplicates(),
{
    let mut at: usize = 0;
    while at < names.len()
        invariant
            at <= names@.len(),
            forall|i: int, j: int|
                0 <= i < j < at ==> (#[trigger] names@[i])@ != (#[trigger] names@[j])@,
        decreases names@.len() - at,
    {
        let mut before: usize = 0;
        while before < at
            invariant
                before <= at < names@.len(),
                forall|i: int| 0 <= i < before ==> (#[trigger] names@[i])@ != names@[at as int]@,
            decreases at - before,
        {
            if *names[before].as_str() == *names[at].as_str() {
                proof {
                    let all = texts(names@);
                    assert(all[before as int] == all[at as int]);
                }
                return false;
            }
            before = before + 1;
        }
        at = at + 1;
    }
    proof {
        let all = texts(names@);
        assert forall|i: int, j: int| 0 <= i < all.len() && 0 <= j < all.len() && i != j implies
            all[i] != all[j] by {
            assert(all[i] == names@[i]@ && all[j] == names@[j]@);
        }
    }
    true
}

/// The multipliers of a set, with the classes each covers.
fn read_classes(b: &[u8], at: usize, version: i32) -> (read: Option<
    (Vec<StatedMultiplier>, usize),
>)
    requires
        at <= b@.len(),
    ensures
        multipliers_read(read) == classes_in(b@, at as int, version),
        read matches Some((_, next)) ==> next <= b@.len(),
{
    if version > 1 {
        match i32_at(b, at) {
            None => None,
            Some(stated) => {
                let count: u32 = if stated < 0 {
                    0
                } else {
                    stated as u32
                };
                read_multipliers(b, at + 4, count)
            },
        }
    } else {
        match read_multiplier(b, at, true) {
            None => None,
            Some((one, next)) => {
                let once: bool = match &one.named {
                    Some(named) => each_once(&split_list(named.as_str())),
                    None => true,
                };
                if !once {
                    return None;
                }
                let mut list: Vec<StatedMultiplier> = Vec::new();
                list.push(one);
                proof {
                    assert(multipliers_view(list@) =~= seq![one@]);
                }
                Some((list, next))
            },
        }
    }
}

fn read_date(b: &[u8], at: usize) -> (read: Option<String>)
    requires
        at <= b@.len(),
    ensures
        day_text(read) == date_in(b@, at as int),
        read is Some ==> at + 4 <= b@.len() && at + 4 <= usize::MAX,
{
    match i32_at(b, at) {
        Some(days) => {
            proof {
                if 0 <= days <= LAST_DAY {
                    a_day_has_its_date(days as nat);
                }
            }
            day_after_epoch(days)
        },
        None => None,
    }
}

proof fn short_of_dividends(b: Seq<u8>, at: int, some: nat, all: nat)
    requires
        some <= all,
        dividends_in(b, at, some) is None,
    ensures
        dividends_in(b, at, all) is None,
    decreases all,
{
    if some < all {
        short_of_dividends(b, at, some, (all - 1) as nat);
    }
}

fn read_dividends(b: &[u8], at: usize, count: u32) -> (read: Option<(Vec<(String, u64)>, usize)>)
    requires
        at <= b@.len(),
    ensures
        match read {
            Some((list, next)) => {
                &&& dividends_in(b@, at as int, count as nat) == Some(dividends_view(list@))
                &&& next == at + 12 * count
                &&& next <= b@.len()
            },
            None => dividends_in(b@, at as int, count as nat) is None,
        },
{
    let mut list: Vec<(String, u64)> = Vec::new();
    let mut next: usize = at;
    let mut done: u32 = 0;
    proof {
        assert(dividends_view(list@) =~= Seq::empty());
    }
    while done < count
        invariant
            done <= count,
            next <= b@.len(),
            next == at + 12 * done,
            dividends_in(b@, at as int, done as nat) == Some(dividends_view(list@)),
        decreases count - done,
    {
        let day: Option<String> = read_date(b, next);
        let amount: Option<u64> = if day.is_some() {
            u64_at(b, next + 4)
        } else {
            None
        };
        match (day, amount) {
            (Some(day), Some(amount)) => {
                proof {
                    assert(dividends_view(list@.push((day, amount))) =~= dividends_view(
                        list@,
                    ).push((day@, amount)));
                }
                list.push((day, amount));
                next = next + 12;
                done = done + 1;
            },
            _ => {
                proof {
                    short_of_dividends(b@, at as int, (done + 1) as nat, count as nat);
                }
                return None;
            },
        }
    }
    Some((list, next))
}

/// What an expiry read is.
spec fn term_read(read: Option<ChainModelTerm>) -> Option<TermView> {
    match read {
        Some(term) => Some(term@),
        None => None,
    }
}

fn read_term(b: &[u8], at: usize, version: i32) -> (read: Option<ChainModelTerm>)
    requires
        at <= b@.len(),
    ensures
        term_read(read) == term_in(b@, at as int, version),
        read is Some ==> at + term_size(version) <= b@.len() && at + term_size(version)
            <= usize::MAX,
{
    let last_trade_date: String = match read_date(b, at) {
        Some(date) => date,
        None => {
            return None;
        },
    };
    let model_yield: u64 = match u64_at(b, at + 4) {
        Some(figure) => figure,
        None => {
            return None;
        },
    };
    let interest_rate: u64 = match u64_at(b, at + 12) {
        Some(figure) => figure,
        None => {
            return None;
        },
    };
    let forward: u64 = match u64_at(b, at + 20) {
        Some(figure) => figure,
        None => {
            return None;
        },
    };
    let call_atm_vol: u64 = match u64_at(b, at + 28) {
        Some(figure) => figure,
        None => {
            return None;
        },
    };
    let put_atm_vol: u64 = match u64_at(b, at + 36) {
        Some(figure) => figure,
        None => {
            return None;
        },
    };
    let attributes: i32 = if version > 3 {
        match i32_at(b, at + 44) {
            Some(flags) => flags,
            None => {
                return None;
            },
        }
    } else {
        1
    };
    Some(
        ChainModelTerm {
            last_trade_date,
            model_yield,
            interest_rate,
            forward,
            call_atm_vol,
            put_atm_vol,
            attributes,
        },
    )
}

proof fn first_term(terms: Seq<TermView>, date: Seq<char>, at: int)
    requires
        0 <= at <= terms.len(),
        forall|i: int| 0 <= i < at ==> (#[trigger] terms[i]).last_trade_date != date,
        at < terms.len() ==> terms[at].last_trade_date == date,
    ensures
        term_at(terms, date) == (if at < terms.len() {
            Some(at)
        } else {
            None::<int>
        }),
    decreases terms.len(),
{
    if terms.len() > 0 {
        let before = terms.drop_last();
        if at < terms.len() - 1 {
            assert(before[at] == terms[at]);
            first_term(before, date, at);
        } else {
            assert forall|i: int| 0 <= i < before.len() implies (
            #[trigger] before[i]).last_trade_date != date by {
                assert(before[i] == terms[i]);
            }
            first_term(before, date, before.len() as int);
        }
    }
}

fn place_term(terms: &mut Vec<ChainModelTerm>, term: ChainModelTerm)
    ensures
        terms_view(final(terms)@) == with_term(terms_view(old(terms)@), term@),
{
    let ghost views = terms_view(terms@);
    let mut at: usize = 0;
    while at < terms.len()
        invariant
            at <= terms@.len(),
            terms@ == old(terms)@,
            views == terms_view(terms@),
            forall|i: int|
                0 <= i < at ==> (#[trigger] views[i]).last_trade_date != term@.last_trade_date,
        decreases terms@.len() - at,
    {
        if *terms[at].last_trade_date.as_str() == *term.last_trade_date.as_str() {
            proof {
                first_term(views, term@.last_trade_date, at as int);
                assert(terms_view(terms@.update(at as int, term)) =~= views.update(
                    at as int,
                    term@,
                ));
            }
            terms.set(at, term);
            return;
        }
        at = at + 1;
    }
    proof {
        first_term(views, term@.last_trade_date, at as int);
        assert(terms_view(terms@.push(term)) =~= views.push(term@));
    }
    terms.push(term);
}

proof fn short_of_terms(b: Seq<u8>, at: int, some: nat, all: nat, version: i32)
    requires
        some <= all,
        terms_in(b, at, some, version) is None,
    ensures
        terms_in(b, at, all, version) is None,
    decreases all,
{
    if some < all {
        short_of_terms(b, at, some, (all - 1) as nat, version);
    }
}

fn read_terms(b: &[u8], at: usize, count: u32, version: i32) -> (read: Option<
    (Vec<ChainModelTerm>, usize),
>)
    requires
        at <= b@.len(),
    ensures
        match read {
            Some((list, next)) => {
                &&& terms_in(b@, at as int, count as nat, version) == Some(terms_view(list@))
                &&& next == at + term_size(version) * count
                &&& next <= b@.len()
            },
            None => terms_in(b@, at as int, count as nat, version) is None,
        },
{
    let size: usize = if version > 3 {
        48
    } else {
        44
    };
    let mut list: Vec<ChainModelTerm> = Vec::new();
    let mut next: usize = at;
    let mut done: u32 = 0;
    proof {
        assert(terms_view(list@) =~= Seq::empty());
    }
    while done < count
        invariant
            done <= count,
            size == term_size(version),
            next <= b@.len(),
            next == at + term_size(version) * done,
            terms_in(b@, at as int, done as nat, version) == Some(terms_view(list@)),
        decreases count - done,
    {
        match read_term(b, next, version) {
            Some(term) => {
                place_term(&mut list, term);
                proof {
                    assert(term_size(version) * (done + 1) == term_size(version) * done
                        + term_size(version)) by (nonlinear_arith);
                }
                next = next + size;
                done = done + 1;
            },
            None => {
                proof {
                    short_of_terms(b@, at as int, (done + 1) as nat, count as nat, version);
                }
                return None;
            },
        }
    }
    Some((list, next))
}

/// What is read behind a set's expiries.
spec fn tail_read(read: Option<(i64, bool, i32, usize)>) -> Option<(i64, bool, i32, int)> {
    match read {
        Some((millis, style, flags, next)) => Some((millis, style, flags, next as int)),
        None => None,
    }
}

fn read_tail(b: &[u8], at: usize, version: i32) -> (read: Option<(i64, bool, i32, usize)>)
    requires
        at <= b@.len(),
    ensures
        tail_read(read) == tail_in(b@, at as int, version),
        read matches Some((_, _, _, next)) ==> next <= b@.len(),
{
    let seconds: i32 = match i32_at(b, at) {
        Some(seconds) => seconds,
        None => {
            return None;
        },
    };
    let mut next: usize = at + 4;
    let mut style: i32 = 0;
    if version > 2 {
        match i32_at(b, next) {
            Some(stated) => {
                style = stated;
                next = next + 4;
            },
            None => {
                return None;
            },
        }
    }
    let mut flags: i32 = 1;
    if version > 3 {
        match i32_at(b, next) {
            Some(stated) => {
                flags = stated;
                next = next + 4;
            },
            None => {
                return None;
            },
        }
    }
    Some((seconds as i64 * 1000, style > 0, flags, next))
}

/// What a set read is, and where what follows it begins.
spec fn set_read(read: Option<(StatedSet, usize)>) -> Option<(SetView, int)> {
    match read {
        Some((set, next)) => Some((set@, next as int)),
        None => None,
    }
}

fn read_set(b: &[u8], at: usize, version: i32) -> (read: Option<(StatedSet, usize)>)
    requires
        at <= b@.len(),
    ensures
        set_read(read) == set_in(b@, at as int, version),
        read matches Some((_, next)) ==> next <= b@.len(),
{
    let product_id: i32 = match i32_at(b, at) {
        Some(product_id) => product_id,
        None => {
            return None;
        },
    };
    let (multipliers, next): (Vec<StatedMultiplier>, usize) = match read_classes(
        b,
        at + 4,
        version,
    ) {
        Some(read) => read,
        None => {
            return None;
        },
    };
    let price: u64 = match u64_at(b, next) {
        Some(price) => price,
        None => {
            return None;
        },
    };
    let paid: i32 = match i32_at(b, next + 8) {
        Some(paid) => paid,
        None => {
            return None;
        },
    };
    if paid < 0 {
        return None;
    }
    let (dividends, after): (Vec<(String, u64)>, usize) = match read_dividends(
        b,
        next + 12,
        paid as u32,
    ) {
        Some(read) => read,
        None => {
            return None;
        },
    };
    let count: i32 = match i32_at(b, after) {
        Some(count) => count,
        None => {
            return None;
        },
    };
    if count < 0 {
        return None;
    }
    let (terms, end): (Vec<ChainModelTerm>, usize) = match read_terms(
        b,
        after + 4,
        count as u32,
        version,
    ) {
        Some(read) => read,
        None => {
            return None;
        },
    };
    let (timestamp_millis, style, attributes, last): (i64, bool, i32, usize) = match read_tail(
        b,
        end,
        version,
    ) {
        Some(read) => read,
        None => {
            return None;
        },
    };
    let stands: bool = attributes & 4 != 0;
    Some((
        StatedSet {
            product_id,
            shared: version <= 1,
            multipliers,
            underlying_price: if stands {
                Some(price)
            } else {
                None
            },
            dividends,
            index_style_dividends: style,
            terms,
            timestamp_millis,
            attributes,
        },
        last,
    ))
}

proof fn short_of_sets(b: Seq<u8>, at: int, some: nat, all: nat, version: i32)
    requires
        some <= all,
        sets_in(b, at, some, version) is None,
    ensures
        sets_in(b, at, all, version) is None,
    decreases all,
{
    if some < all {
        short_of_sets(b, at, some, (all - 1) as nat, version);
    }
}

/// Read an inflated record.
pub fn parse_inflated(b: &[u8]) -> (sets: Option<Vec<StatedSet>>)
    ensures
        stated(sets) == record_states(b@),
{
    let version: i32 = match i32_at(b, 0) {
        Some(version) => version,
        None => {
            return None;
        },
    };
    let count: i32 = match i32_at(b, 4) {
        Some(count) => count,
        None => {
            return None;
        },
    };
    if count < 0 {
        return None;
    }
    let mut sets: Vec<StatedSet> = Vec::new();
    let mut next: usize = 8;
    let mut done: i32 = 0;
    proof {
        assert(sets_view(sets@) =~= Seq::empty());
    }
    while done < count
        invariant
            0 <= done <= count,
            next <= b@.len(),
            i32_in(b@, 0) == Some(version),
            i32_in(b@, 4) == Some(count),
            sets_in(b@, 8, done as nat, version) == Some((sets_view(sets@), next as int)),
        decreases count - done,
    {
        match read_set(b, next, version) {
            Some((set, after)) => {
                proof {
                    assert(sets_view(sets@.push(set)) =~= sets_view(sets@).push(set@));
                }
                sets.push(set);
                next = after;
                done = done + 1;
            },
            None => {
                proof {
                    short_of_sets(b@, 8, (done + 1) as nat, count as nat, version);
                }
                return None;
            },
        }
    }
    Some(sets)
}

proof fn first_magic(payload: Seq<u8>, at: int)
    requires
        0 <= at,
        forall|i: int|
            0 <= i < at && i + 1 < payload.len() ==> !(#[trigger] payload[i] == 0x78 && payload[i
                + 1] == 0x9C),
        at + 1 >= payload.len() || (payload[at] == 0x78 && payload[at + 1] == 0x9C),
    ensures
        magic_at(payload) == (if at + 1 < payload.len() {
            Some(at)
        } else {
            None::<int>
        }),
    decreases payload.len(),
{
    if payload.len() >= 2 {
        let before = payload.drop_last();
        assert forall|i: int| 0 <= i < at && i + 1 < before.len() implies !(
        #[trigger] before[i] == 0x78 && before[i + 1] == 0x9C) by {
            assert(before[i] == payload[i] && before[i + 1] == payload[i + 1]);
        }
        if at + 1 < before.len() {
            assert(before[at] == payload[at] && before[at + 1] == payload[at + 1]);
        }
        first_magic(before, at);
        if at + 1 >= payload.len() {
            assert(!(payload[payload.len() - 2] == 0x78 && payload[payload.len() - 1] == 0x9C));
        }
    }
}

/// Read one record of either series.
///
/// Nothing where the record carries no compressed stream, where what it
/// inflates to stops short of what it states, or where it states a count that
/// cannot be or a class twice under one multiplier. The bytes that open the stream are looked for rather than taken
/// to sit at a fixed place: what stands in front of them is not part of it.
pub fn parse(payload: &[u8]) -> (sets: Option<Vec<StatedSet>>)
    ensures
        stated(sets) == (match magic_at(payload@) {
            Some(at) => record_states(inflated(payload@.skip(at), MAX_INFLATED)),
            None => None,
        }),
{
    let mut at: usize = 0;
    while at < payload.len() && payload.len() - at >= 2
        invariant
            at <= payload@.len(),
            forall|i: int|
                0 <= i < at && i + 1 < payload@.len() ==> !(#[trigger] payload@[i] == 0x78
                    && payload@[i + 1] == 0x9C),
        decreases payload@.len() - at,
    {
        if payload[at] == 0x78 && payload[at + 1] == 0x9C {
            proof {
                first_magic(payload@, at as int);
                assert(payload@.subrange(at as int, payload@.len() as int) =~= payload@.skip(
                    at as int,
                ));
            }
            let bytes: Vec<u8> = inflate(
                slice_subrange(payload, at, payload.len()),
                MAX_INFLATED,
            );
            return parse_inflated(bytes.as_slice());
        }
        at = at + 1;
    }
    proof {
        first_magic(payload@, at as int);
    }
    None
}

/// What the venue's option model works one class of an underlying's options
/// from: the underlying's price, the dividends it expects, and per expiry the
/// yield, the rate, the forward and the at-the-money volatilities.
#[derive(Debug, PartialEq)]
pub struct ChainModelParameters {
    /// The venue's number for the product the chain belongs to.
    pub product_id: i32,
    /// Each trading class the set covers, with the multipliers it covers the
    /// class at, in the order the venue named them.
    pub classes: Vec<(String, Vec<u64>)>,
    /// The underlying's price the set was worked from, or nothing where the
    /// venue says that price does not stand.
    pub underlying_price: Option<u64>,
    /// Each dividend expected, as its ex-date (`YYYYMMDD`) and its amount.
    pub dividends: Vec<(String, u64)>,
    /// Whether the dividends are carried the way an index's are rather than as
    /// a share's discrete payouts.
    pub index_style_dividends: bool,
    /// One set per expiry, in the order the venue stated them.
    pub terms: Vec<ChainModelTerm>,
    /// When the set was worked out, in milliseconds since the epoch.
    pub timestamp_millis: i64,
    /// The venue's flags for the set: one is set where it stands, two where its
    /// volatilities are worked from prices, four where the underlying's price
    /// stands.
    pub attributes: i32,
}

/// What a list of classes states.
pub open spec fn classes_view(classes: Seq<(String, Vec<u64>)>) -> Seq<(Seq<char>, Seq<u64>)> {
    classes.map_values(|one: (String, Vec<u64>)| (one.0@, one.1@))
}

/// Where a class stands in a list.
pub open spec fn class_at(classes: Seq<(Seq<char>, Seq<u64>)>, name: Seq<char>) -> Option<int>
    decreases classes.len(),
{
    if classes.len() == 0 {
        None
    } else {
        match class_at(classes.drop_last(), name) {
            Some(at) => Some(at),
            None => if classes.last().0 == name {
                Some(classes.len() - 1)
            } else {
                None
            },
        }
    }
}

/// A list of classes with one covered at a multiplier. Under one multiplier for
/// all of them, a class named twice is a list that says two things of it.
pub open spec fn with_class(
    classes: Seq<(Seq<char>, Seq<u64>)>,
    name: Seq<char>,
    multiplier: u64,
    shared: bool,
) -> Option<Seq<(Seq<char>, Seq<u64>)>> {
    match class_at(classes, name) {
        Some(at) => if shared {
            None
        } else if classes[at].1.contains(multiplier) {
            Some(classes)
        } else {
            Some(classes.update(at, (classes[at].0, classes[at].1.push(multiplier))))
        },
        None => Some(classes.push((name, seq![multiplier]))),
    }
}

/// A list of classes with those of another covered at a multiplier.
pub open spec fn with_classes(
    classes: Seq<(Seq<char>, Seq<u64>)>,
    names: Seq<Seq<char>>,
    multiplier: u64,
    shared: bool,
) -> Option<Seq<(Seq<char>, Seq<u64>)>>
    decreases names.len(),
{
    if names.len() == 0 {
        Some(classes)
    } else {
        match with_classes(classes, names.drop_last(), multiplier, shared) {
            Some(before) => with_class(before, names.last(), multiplier, shared),
            None => None,
        }
    }
}

/// What a number divided by nought is: no number at all.
pub const NO_NUMBER: u64 = 0x7ff8_0000_0000_0000;

/// A multiplier, from what its numerator over its denominator is.
pub open spec fn quotient(one: MultiplierView, divided: u64) -> u64 {
    if is_nought(one.denominator) {
        NO_NUMBER
    } else {
        divided
    }
}

/// The classes a set covers, each with its multipliers, as they were divided.
/// A list stated as nothing names none.
pub open spec fn covered(
    multipliers: Seq<MultiplierView>,
    divided: Seq<u64>,
    shared: bool,
) -> Option<Seq<(Seq<char>, Seq<u64>)>>
    decreases multipliers.len(),
{
    if multipliers.len() == 0 {
        Some(Seq::empty())
    } else {
        match covered(multipliers.drop_last(), divided, shared) {
            None => None,
            Some(before) => match multipliers.last().named {
                None => Some(before),
                Some(named) => with_classes(
                    before,
                    members(named),
                    quotient(multipliers.last(), divided[multipliers.len() - 1]),
                    shared,
                ),
            },
        }
    }
}

proof fn first_class(classes: Seq<(Seq<char>, Seq<u64>)>, name: Seq<char>, at: int)
    requires
        0 <= at <= classes.len(),
        forall|i: int| 0 <= i < at ==> (#[trigger] classes[i]).0 != name,
        at < classes.len() ==> classes[at].0 == name,
    ensures
        class_at(classes, name) == (if at < classes.len() {
            Some(at)
        } else {
            None::<int>
        }),
    decreases classes.len(),
{
    if classes.len() > 0 {
        let before = classes.drop_last();
        if at < classes.len() - 1 {
            assert(before[at] == classes[at]);
            first_class(before, name, at);
        } else {
            assert forall|i: int| 0 <= i < before.len() implies (#[trigger] before[i]).0
                != name by {
                assert(before[i] == classes[i]);
            }
            first_class(before, name, before.len() as int);
        }
    }
}

fn holds_multiplier(list: &Vec<u64>, multiplier: u64) -> (held: bool)
    ensures
        held == list@.contains(multiplier),
{
    let mut at: usize = 0;
    while at < list.len()
        invariant
            at <= list@.len(),
            forall|i: int| 0 <= i < at ==> list@[i] != multiplier,
        decreases list@.len() - at,
    {
        if list[at] == multiplier {
            return true;
        }
        at = at + 1;
    }
    false
}

/// Cover a class at a multiplier, and say whether the list still says one thing
/// of it.
fn cover(
    classes: &mut Vec<(String, Vec<u64>)>,
    name: &str,
    multiplier: u64,
    shared: bool,
) -> (covers: bool)
    ensures
        match with_class(classes_view(old(classes)@), name@, multiplier, shared) {
            Some(after) => covers && classes_view(final(classes)@) == after,
            None => !covers,
        },
{
    let ghost views = classes_view(classes@);
    let mut at: usize = 0;
    while at < classes.len()
        invariant
            at <= classes@.len(),
            classes@ == old(classes)@,
            views == classes_view(classes@),
            forall|i: int| 0 <= i < at ==> (#[trigger] views[i]).0 != name@,
        decreases classes@.len() - at,
    {
        if *classes[at].0.as_str() == *name {
            proof {
                first_class(views, name@, at as int);
            }
            if shared {
                return false;
            }
            if holds_multiplier(&classes[at].1, multiplier) {
                return true;
            }
            let (class, mut list): (String, Vec<u64>) = classes.remove(at);
            list.push(multiplier);
            classes.insert(at, (class, list));
            proof {
                assert(classes_view(classes@) =~= views.update(
                    at as int,
                    (views[at as int].0, views[at as int].1.push(multiplier)),
                ));
            }
            return true;
        }
        at = at + 1;
    }
    proof {
        first_class(views, name@, at as int);
    }
    let mut list: Vec<u64> = Vec::new();
    list.push(multiplier);
    classes.push((name.to_owned(), list));
    proof {
        assert(list@ =~= seq![multiplier]);
        assert(classes_view(classes@) =~= views.push((name@, seq![multiplier])));
    }
    true
}

proof fn a_list_that_contradicts_itself(
    classes: Seq<(Seq<char>, Seq<u64>)>,
    names: Seq<Seq<char>>,
    some: int,
    multiplier: u64,
    shared: bool,
)
    requires
        0 <= some <= names.len(),
        with_classes(classes, names.take(some), multiplier, shared) is None,
    ensures
        with_classes(classes, names, multiplier, shared) is None,
    decreases names.len(),
{
    if some < names.len() {
        assert(names.drop_last().take(some) =~= names.take(some));
        a_list_that_contradicts_itself(classes, names.drop_last(), some, multiplier, shared);
    } else {
        assert(names.take(some) =~= names);
    }
}

fn cover_all(
    classes: &mut Vec<(String, Vec<u64>)>,
    names: &Vec<String>,
    multiplier: u64,
    shared: bool,
) -> (covers: bool)
    ensures
        match with_classes(classes_view(old(classes)@), texts(names@), multiplier, shared) {
            Some(after) => covers && classes_view(final(classes)@) == after,
            None => !covers,
        },
{
    let ghost first = classes_view(classes@);
    let ghost all = texts(names@);
    let mut at: usize = 0;
    proof {
        assert(all.take(0) =~= Seq::empty());
    }
    while at < names.len()
        invariant
            at <= names@.len(),
            all == texts(names@),
            first == classes_view(old(classes)@),
            with_classes(first, all.take(at as int), multiplier, shared) == Some(
                classes_view(classes@),
            ),
        decreases names@.len() - at,
    {
        proof {
            assert(all.take(at + 1).drop_last() =~= all.take(at as int));
            assert(all.take(at + 1).last() == names@[at as int]@);
        }
        if !cover(classes, names[at].as_str(), multiplier, shared) {
            proof {
                a_list_that_contradicts_itself(first, all, at + 1, multiplier, shared);
            }
            return false;
        }
        at = at + 1;
    }
    proof {
        assert(all.take(at as int) =~= all);
    }
    true
}

proof fn a_set_that_contradicts_itself(
    multipliers: Seq<MultiplierView>,
    divided: Seq<u64>,
    some: int,
    shared: bool,
)
    requires
        0 <= some <= multipliers.len(),
        covered(multipliers.take(some), divided, shared) is None,
    ensures
        covered(multipliers, divided, shared) is None,
    decreases multipliers.len(),
{
    if some < multipliers.len() {
        assert(multipliers.drop_last().take(some) =~= multipliers.take(some));
        a_set_that_contradicts_itself(multipliers.drop_last(), divided, some, shared);
    } else {
        assert(multipliers.take(some) =~= multipliers);
    }
}

/// The classes a set covers, from its multipliers as they were divided, one for
/// each. Nothing where one multiplier covers a class the set names twice.
pub fn classes_covered(
    multipliers: &Vec<StatedMultiplier>,
    divided: &Vec<u64>,
    shared: bool,
) -> (classes: Option<Vec<(String, Vec<u64>)>>)
    requires
        divided@.len() == multipliers@.len(),
    ensures
        match (classes, covered(multipliers_view(multipliers@), divided@, shared)) {
            (Some(classes), Some(after)) => classes_view(classes@) == after,
            (None, None) => true,
            _ => false,
        },
{
    let ghost all = multipliers_view(multipliers@);
    let mut classes: Vec<(String, Vec<u64>)> = Vec::new();
    let mut at: usize = 0;
    proof {
        assert(all.take(0) =~= Seq::empty());
        assert(classes_view(classes@) =~= Seq::empty());
    }
    while at < multipliers.len()
        invariant
            at <= multipliers@.len(),
            divided@.len() == multipliers@.len(),
            all == multipliers_view(multipliers@),
            covered(all.take(at as int), divided@, shared) == Some(classes_view(classes@)),
        decreases multipliers@.len() - at,
    {
        proof {
            assert(all.take(at + 1).drop_last() =~= all.take(at as int));
            assert(all.take(at + 1).last() == multipliers@[at as int]@);
        }
        match &multipliers[at].named {
            Some(named) => {
                let names: Vec<String> = split_list(named.as_str());
                let multiplier: u64 = if nought(multipliers[at].denominator) {
                    NO_NUMBER
                } else {
                    divided[at]
                };
                if !cover_all(&mut classes, &names, multiplier, shared) {
                    proof {
                        a_set_that_contradicts_itself(all, divided@, at + 1, shared);
                    }
                    return None;
                }
            },
            None => {},
        }
        at = at + 1;
    }
    proof {
        assert(all.take(at as int) =~= all);
    }
    Some(classes)
}

/// Settle a set whose multipliers are divided, one for each. A multiplier over
/// nought is no number, whatever it was divided to.
pub fn settle(set: StatedSet, divided: &Vec<u64>) -> (settled: Option<ChainModelParameters>)
    requires
        divided@.len() == set.multipliers@.len(),
    ensures
        match (settled, covered(multipliers_view(set.multipliers@), divided@, set.shared)) {
            (Some(settled), Some(classes)) => {
                &&& classes_view(settled.classes@) == classes
                &&& settled.product_id == set.product_id
                &&& settled.underlying_price == set.underlying_price
                &&& settled.dividends == set.dividends
                &&& settled.index_style_dividends == set.index_style_dividends
                &&& settled.terms == set.terms
                &&& settled.timestamp_millis == set.timestamp_millis
                &&& settled.attributes == set.attributes
            },
            (None, None) => true,
            _ => false,
        },
{
    match classes_covered(&set.multipliers, divided, set.shared) {
        Some(classes) => Some(
            ChainModelParameters {
                product_id: set.product_id,
                classes,
                underlying_price: set.underlying_price,
                dividends: set.dividends,
                index_style_dividends: set.index_style_dividends,
                terms: set.terms,
                timestamp_millis: set.timestamp_millis,
                attributes: set.attributes,
            },
        ),
        None => None,
    }
}

/// Whether no two of a list of expiries have one date.
pub open spec fn each_date_once(terms: Seq<TermView>) -> bool {
    forall|i: int, j: int|
        0 <= i < j < terms.len() ==> (#[trigger] terms[i]).last_trade_date != (
        #[trigger] terms[j]).last_trade_date
}

proof fn placed_where_its_date_is(terms: Seq<TermView>, date: Seq<char>)
    ensures
        match term_at(terms, date) {
            Some(at) => 0 <= at < terms.len() && terms[at].last_trade_date == date,
            None => forall|i: int|
                0 <= i < terms.len() ==> (#[trigger] terms[i]).last_trade_date != date,
        },
    decreases terms.len(),
{
    if terms.len() > 0 {
        let before = terms.drop_last();
        placed_where_its_date_is(before, date);
        match term_at(before, date) {
            Some(at) => {
                assert(before[at] == terms[at]);
            },
            None => {
                assert forall|i: int| 0 <= i < terms.len() - 1 implies (
                #[trigger] terms[i]).last_trade_date != date by {
                    assert(before[i] == terms[i]);
                }
            },
        }
    }
}

/// A set states each expiry once, wherever it is read from.
pub proof fn each_expiry_is_stated_once(b: Seq<u8>, at: int, count: nat, version: i32)
    ensures
        terms_in(b, at, count, version) matches Some(terms) ==> each_date_once(terms),
    decreases count,
{
    if count > 0 {
        each_expiry_is_stated_once(b, at, (count - 1) as nat, version);
        match (
            terms_in(b, at, (count - 1) as nat, version),
            term_in(b, at + term_size(version) * (count - 1), version),
        ) {
            (Some(before), Some(term)) => {
                placed_where_its_date_is(before, term.last_trade_date);
            },
            _ => {},
        }
    }
}

/// Whether no two of a list of classes have one name.
pub open spec fn each_name_once(classes: Seq<(Seq<char>, Seq<u64>)>) -> bool {
    forall|i: int, j: int|
        0 <= i < j < classes.len() ==> (#[trigger] classes[i]).0 != (#[trigger] classes[j]).0
}

proof fn placed_where_its_name_is(classes: Seq<(Seq<char>, Seq<u64>)>, name: Seq<char>)
    ensures
        match class_at(classes, name) {
            Some(at) => 0 <= at < classes.len() && classes[at].0 == name,
            None => forall|i: int| 0 <= i < classes.len() ==> (#[trigger] classes[i]).0 != name,
        },
    decreases classes.len(),
{
    if classes.len() > 0 {
        let before = classes.drop_last();
        placed_where_its_name_is(before, name);
        match class_at(before, name) {
            Some(at) => {
                assert(before[at] == classes[at]);
            },
            None => {
                assert forall|i: int| 0 <= i < classes.len() - 1 implies (
                #[trigger] classes[i]).0 != name by {
                    assert(before[i] == classes[i]);
                }
            },
        }
    }
}

proof fn covering_keeps_each_name_once(
    classes: Seq<(Seq<char>, Seq<u64>)>,
    names: Seq<Seq<char>>,
    multiplier: u64,
    shared: bool,
)
    requires
        each_name_once(classes),
    ensures
        with_classes(classes, names, multiplier, shared) matches Some(after) ==> each_name_once(
            after,
        ),
    decreases names.len(),
{
    if names.len() > 0 {
        covering_keeps_each_name_once(classes, names.drop_last(), multiplier, shared);
        match with_classes(classes, names.drop_last(), multiplier, shared) {
            Some(before) => {
                placed_where_its_name_is(before, names.last());
            },
            None => {},
        }
    }
}

/// A set covers each class under one entry, with every multiplier named for it.
pub proof fn each_class_is_covered_once(
    multipliers: Seq<MultiplierView>,
    divided: Seq<u64>,
    shared: bool,
)
    ensures
        covered(multipliers, divided, shared) matches Some(classes) ==> each_name_once(classes),
    decreases multipliers.len(),
{
    if multipliers.len() > 0 {
        each_class_is_covered_once(multipliers.drop_last(), divided, shared);
        match (covered(multipliers.drop_last(), divided, shared), multipliers.last().named) {
            (Some(before), Some(named)) => {
                covering_keeps_each_name_once(
                    before,
                    members(named),
                    quotient(multipliers.last(), divided[multipliers.len() - 1]),
                    shared,
                );
            },
            _ => {},
        }
    }
}

proof fn stated_each_alone(names: Seq<Seq<char>>, multiplier: u64)
    requires
        names.no_duplicates(),
    ensures
        with_classes(Seq::empty(), names, multiplier, true) == Some(
            names.map_values(|name: Seq<char>| (name, seq![multiplier])),
        ),
    decreases names.len(),
{
    let alone = |name: Seq<char>| (name, seq![multiplier]);
    if names.len() > 0 {
        let before = names.drop_last();
        assert forall|i: int, j: int|
            0 <= i < before.len() && 0 <= j < before.len() && i != j implies before[i]
            != before[j] by {
            assert(before[i] == names[i] && before[j] == names[j]);
        }
        stated_each_alone(before, multiplier);
        let classes = before.map_values(alone);
        assert forall|i: int| 0 <= i < classes.len() implies (#[trigger] classes[i]).0
            != names.last() by {
            assert(classes[i].0 == names[i] && names.last() == names[names.len() - 1]);
        }
        first_class(classes, names.last(), classes.len() as int);
        assert(names.map_values(alone) =~= classes.push((names.last(), seq![multiplier])));
    } else {
        assert(names.map_values(alone) =~= Seq::empty());
    }
}

proof fn stated_beside_others(
    classes: Seq<(Seq<char>, Seq<u64>)>,
    names: Seq<Seq<char>>,
    multiplier: u64,
)
    ensures
        with_classes(classes, names, multiplier, false) is Some,
    decreases names.len(),
{
    if names.len() > 0 {
        stated_beside_others(classes, names.drop_last(), multiplier);
    }
}

proof fn settled_one_by_one(multipliers: Seq<MultiplierView>, divided: Seq<u64>)
    ensures
        covered(multipliers, divided, false) is Some,
    decreases multipliers.len(),
{
    if multipliers.len() > 0 {
        let last = multipliers.last();
        settled_one_by_one(multipliers.drop_last(), divided);
        match last.named {
            Some(named) => {
                stated_beside_others(
                    covered(multipliers.drop_last(), divided, false)->0,
                    members(named),
                    quotient(last, divided[multipliers.len() - 1]),
                );
            },
            None => {},
        }
    }
}

/// What is read of a set says one thing of each class it covers, whatever its
/// multipliers come to: a set that was read settles.
pub proof fn a_set_that_was_read_settles(b: Seq<u8>, at: int, version: i32, divided: Seq<u64>)
    ensures
        classes_in(b, at, version) matches Some((multipliers, next)) ==> covered(
            multipliers,
            divided,
            version <= 1,
        ) is Some,
{
    match classes_in(b, at, version) {
        Some((multipliers, _)) => if version > 1 {
            settled_one_by_one(multipliers, divided);
        } else {
            let one = multipliers[0];
            assert(covered(multipliers.drop_last(), divided, true) == Some(
                Seq::<(Seq<char>, Seq<u64>)>::empty(),
            ));
            assert(multipliers.last() == one);
            match one.named {
                Some(named) => {
                    stated_each_alone(members(named), quotient(one, divided[0]));
                },
                None => {},
            }
        },
        None => {},
    }
}

} // verus!
