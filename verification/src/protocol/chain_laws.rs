//! What holds of an option model's record whatever stands behind it.

use crate::protocol::chain_model::{
    ascii_in, classes_in, date_in, dividends_in, multiplier_in, multipliers_in, padding,
    record_states, set_in, sets_in, tail_in, term_in, term_size, terms_in,
};
use crate::protocol::fields::{field, i32_in, u64_in};
use vstd::prelude::*;

verus! {

proof fn a_field_stays(b: Seq<u8>, more: Seq<u8>, at: int, size: int)
    requires
        size >= 0,
    ensures
        field(b, at, size) is Some ==> field(b + more, at, size) == field(b, at, size),
{
    if field(b, at, size) is Some {
        assert((b + more).subrange(at, at + size) =~= b.subrange(at, at + size));
    }
}

proof fn numbers_stay(b: Seq<u8>, more: Seq<u8>, at: int)
    ensures
        i32_in(b, at) is Some ==> i32_in(b + more, at) == i32_in(b, at),
        u64_in(b, at) is Some ==> u64_in(b + more, at) == u64_in(b, at),
        date_in(b, at) is Some ==> date_in(b + more, at) == date_in(b, at),
{
    a_field_stays(b, more, at, 4);
    a_field_stays(b, more, at, 8);
}

proof fn a_text_stays(b: Seq<u8>, more: Seq<u8>, at: int)
    ensures
        ascii_in(b, at) is Some ==> ascii_in(b + more, at) == ascii_in(b, at),
{
    numbers_stay(b, more, at);
    match i32_in(b, at) {
        Some(stated) => if stated >= 0 && at + 4 + stated + padding(stated as int) <= b.len() {
            assert((b + more).subrange(at + 4, at + 4 + stated) =~= b.subrange(
                at + 4,
                at + 4 + stated,
            ));
        },
        None => {},
    }
}

proof fn a_multiplier_stays(b: Seq<u8>, more: Seq<u8>, at: int, shared: bool)
    ensures
        multiplier_in(b, at, shared) is Some ==> multiplier_in(b + more, at, shared)
            == multiplier_in(b, at, shared),
{
    if shared {
        a_text_stays(b, more, at);
        match ascii_in(b, at) {
            Some((_, next)) => {
                numbers_stay(b, more, next);
                numbers_stay(b, more, next + 8);
            },
            None => {},
        }
    } else {
        numbers_stay(b, more, at);
        numbers_stay(b, more, at + 8);
        a_text_stays(b, more, at + 16);
    }
}

proof fn multipliers_stay(b: Seq<u8>, more: Seq<u8>, at: int, count: nat)
    ensures
        multipliers_in(b, at, count) is Some ==> multipliers_in(b + more, at, count)
            == multipliers_in(b, at, count),
    decreases count,
{
    if count > 0 {
        multipliers_stay(b, more, at, (count - 1) as nat);
        match multipliers_in(b, at, (count - 1) as nat) {
            Some((_, next)) => {
                a_multiplier_stays(b, more, next, false);
            },
            None => {},
        }
    }
}

proof fn classes_stay(b: Seq<u8>, more: Seq<u8>, at: int, version: i32)
    ensures
        classes_in(b, at, version) is Some ==> classes_in(b + more, at, version) == classes_in(
            b,
            at,
            version,
        ),
{
    if version > 1 {
        numbers_stay(b, more, at);
        match i32_in(b, at) {
            Some(stated) => {
                let count: int = if stated < 0 {
                    0
                } else {
                    stated as int
                };
                multipliers_stay(b, more, at + 4, count as nat);
            },
            None => {},
        }
    } else {
        a_multiplier_stays(b, more, at, true);
    }
}

proof fn dividends_stay(b: Seq<u8>, more: Seq<u8>, at: int, count: nat)
    ensures
        dividends_in(b, at, count) is Some ==> dividends_in(b + more, at, count) == dividends_in(
            b,
            at,
            count,
        ),
    decreases count,
{
    if count > 0 {
        let place = at + 12 * (count - 1);
        dividends_stay(b, more, at, (count - 1) as nat);
        numbers_stay(b, more, place);
        numbers_stay(b, more, place + 4);
    }
}

proof fn a_term_stays(b: Seq<u8>, more: Seq<u8>, at: int, version: i32)
    ensures
        term_in(b, at, version) is Some ==> term_in(b + more, at, version) == term_in(
            b,
            at,
            version,
        ),
{
    numbers_stay(b, more, at);
    numbers_stay(b, more, at + 4);
    numbers_stay(b, more, at + 12);
    numbers_stay(b, more, at + 20);
    numbers_stay(b, more, at + 28);
    numbers_stay(b, more, at + 36);
    numbers_stay(b, more, at + 44);
}

proof fn terms_stay(b: Seq<u8>, more: Seq<u8>, at: int, count: nat, version: i32)
    ensures
        terms_in(b, at, count, version) is Some ==> terms_in(b + more, at, count, version)
            == terms_in(b, at, count, version),
    decreases count,
{
    if count > 0 {
        terms_stay(b, more, at, (count - 1) as nat, version);
        a_term_stays(b, more, at + term_size(version) * (count - 1), version);
    }
}

proof fn a_tail_stays(b: Seq<u8>, more: Seq<u8>, at: int, version: i32)
    ensures
        tail_in(b, at, version) is Some ==> tail_in(b + more, at, version) == tail_in(
            b,
            at,
            version,
        ),
{
    numbers_stay(b, more, at);
    numbers_stay(b, more, at + 4);
    numbers_stay(b, more, at + 8);
}

proof fn a_set_stays(b: Seq<u8>, more: Seq<u8>, at: int, version: i32)
    ensures
        set_in(b, at, version) is Some ==> set_in(b + more, at, version) == set_in(b, at, version),
{
    if set_in(b, at, version) is Some {
        numbers_stay(b, more, at);
        classes_stay(b, more, at + 4, version);
        let (_, next) = classes_in(b, at + 4, version)->0;
        numbers_stay(b, more, next);
        numbers_stay(b, more, next + 8);
        let paid = i32_in(b, next + 8)->0;
        let after = next + 12 + 12 * paid;
        dividends_stay(b, more, next + 12, paid as nat);
        numbers_stay(b, more, after);
        let stated = i32_in(b, after)->0;
        terms_stay(b, more, after + 4, stated as nat, version);
        a_tail_stays(b, more, after + 4 + term_size(version) * stated, version);
    }
}

proof fn sets_stay(b: Seq<u8>, more: Seq<u8>, at: int, count: nat, version: i32)
    ensures
        sets_in(b, at, count, version) is Some ==> sets_in(b + more, at, count, version)
            == sets_in(b, at, count, version),
    decreases count,
{
    if count > 0 {
        sets_stay(b, more, at, (count - 1) as nat, version);
        match sets_in(b, at, (count - 1) as nat, version) {
            Some((_, next)) => {
                a_set_stays(b, more, next, version);
            },
            None => {},
        }
    }
}

/// What follows a whole record is not read: bytes behind the last set change
/// nothing of what the record states.
pub proof fn what_follows_a_record_is_not_read(b: Seq<u8>, more: Seq<u8>)
    requires
        record_states(b) is Some,
    ensures
        record_states(b + more) == record_states(b),
{
    numbers_stay(b, more, 0);
    numbers_stay(b, more, 4);
    sets_stay(b, more, 8, i32_in(b, 4)->0 as nat, i32_in(b, 0)->0);
}

} // verus!
