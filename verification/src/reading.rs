//! Reading text: characters, parts and numbers.

use crate::text::{all_digits, digit, digits, texts};
use vstd::prelude::*;
use vstd::utf8::{decode_utf8, valid_utf8};

verus! {

/// `std::str::from_utf8` of the standard library: the text of bytes that are
/// UTF-8, and nothing where they are not.
#[verifier::external_body]
pub(crate) fn utf8_text(bytes: &[u8]) -> (text: Option<&str>)
    ensures
        text is Some <==> valid_utf8(bytes@),
        text matches Some(text) ==> text@ == decode_utf8(bytes@),
{
    std::str::from_utf8(bytes).ok()
}

/// The characters of a text.
pub fn characters(text: &str) -> (chars: Vec<char>)
    ensures
        chars@ == text@,
{
    let mut chars: Vec<char> = Vec::new();
    for c in iter: text.chars()
        invariant
            chars@ == iter.seq().take(iter.index() as int),
            iter.seq() == text@,
    {
        chars.push(c);
        proof {
            assert(chars@ =~= iter.seq().take(iter.index() + 1));
        }
    }
    proof {
        assert(chars@ =~= text@);
    }
    chars
}

/// The text of some characters.
pub fn text_of(chars: &[char]) -> (text: String)
    ensures
        text@ == chars@,
{
    let mut text: String = String::new();
    let mut at: usize = 0;
    while at < chars.len()
        invariant
            at <= chars@.len(),
            text@ == chars@.take(at as int),
        decreases chars@.len() - at,
    {
        text.push(chars[at]);
        at = at + 1;
        proof {
            assert(text@ =~= chars@.take(at as int));
        }
    }
    proof {
        assert(chars@.take(at as int) =~= chars@);
    }
    text
}

/// The parts of a text between its separators: one more of them than there
/// are separators.
pub open spec fn split(text: Seq<char>, separator: char) -> Seq<Seq<char>>
    decreases text.len(),
{
    if text.len() == 0 {
        seq![Seq::empty()]
    } else {
        let before = split(text.drop_last(), separator);
        if text.last() == separator {
            before.push(Seq::empty())
        } else {
            before.drop_last().push(before.last().push(text.last()))
        }
    }
}

/// The parts of a text between its separators, from a character on.
pub fn split_from(chars: &Vec<char>, from: usize, separator: char) -> (parts: Vec<String>)
    requires
        from <= chars@.len(),
    ensures
        texts(parts@) == split(chars@.skip(from as int), separator),
{
    let ghost whole = chars@.skip(from as int);
    let mut parts: Vec<String> = Vec::new();
    let mut part: String = String::new();
    let mut at: usize = from;
    proof {
        assert(whole.take(0) =~= Seq::empty());
        assert(texts(parts@).push(part@) =~= split(whole.take(0), separator));
    }
    while at < chars.len()
        invariant
            from <= at <= chars@.len(),
            whole == chars@.skip(from as int),
            texts(parts@).push(part@) == split(whole.take(at - from), separator),
        decreases chars@.len() - at,
    {
        let ghost before = split(whole.take(at - from), separator);
        proof {
            assert(whole.take(at + 1 - from).drop_last() =~= whole.take(at - from));
            assert(before.drop_last() =~= texts(parts@));
        }
        if chars[at] == separator {
            parts.push(part);
            part = String::new();
            proof {
                assert(texts(parts@) =~= before);
            }
        } else {
            part.push(chars[at]);
        }
        at = at + 1;
        proof {
            assert(texts(parts@).push(part@) =~= split(whole.take(at - from), separator));
        }
    }
    parts.push(part);
    proof {
        assert(whole.take(at - from) =~= whole);
        assert(texts(parts@) =~= split(whole, separator));
    }
    parts
}

/// The number decimal digits stand for.
pub open spec fn digits_value(s: Seq<char>) -> nat
    decreases s.len(),
{
    if s.len() == 0 {
        0
    } else {
        10 * digits_value(s.drop_last()) + (s.last() as nat - '0' as nat) as nat
    }
}

/// The number a text states: decimal digits, a plus sign ahead of them where
/// there is one, that come to no more than the most a number may be.
pub open spec fn number(s: Seq<char>, most: nat) -> Option<nat> {
    let figures = if s.len() > 0 && s[0] == '+' {
        s.skip(1)
    } else {
        s
    };
    if all_digits(figures) && digits_value(figures) <= most {
        Some(digits_value(figures))
    } else {
        None
    }
}

/// The number a text states, to sixty-four bits.
pub fn read_number(text: &str, most: u64) -> (read: Option<u64>)
    ensures
        read is Some <==> number(text@, most as nat) is Some,
        read matches Some(n) ==> number(text@, most as nat) == Some(n as nat),
{
    let chars: Vec<char> = characters(text);
    let from: usize = if chars.len() > 0 && chars[0] == '+' {
        1
    } else {
        0
    };
    let ghost figures = if from == 1 {
        text@.skip(1)
    } else {
        text@
    };
    if chars.len() == from {
        return None;
    }
    let mut value: u128 = 0;
    let mut over: bool = false;
    let mut at: usize = from;
    proof {
        assert(figures.take(0) =~= Seq::empty());
    }
    while at < chars.len()
        invariant
            chars@ == text@,
            from <= at <= chars@.len(),
            from == (if text@.len() > 0 && text@[0] == '+' {
                1int
            } else {
                0
            }),
            figures == (if from == 1 {
                text@.skip(1)
            } else {
                text@
            }),
            forall|i: int| 0 <= i < at - from ==> '0' <= #[trigger] figures[i] <= '9',
            !over ==> value <= most && value == digits_value(figures.take(at - from)),
            over ==> digits_value(figures.take(at - from)) > most,
        decreases chars@.len() - at,
    {
        let c: char = chars[at];
        proof {
            assert(c == figures[at - from]);
        }
        if !('0' <= c && c <= '9') {
            assert(!all_digits(figures));
            return None;
        }
        proof {
            assert(figures.take(at + 1 - from).drop_last() =~= figures.take(at - from));
        }
        if !over {
            value = 10 * value + ((c as u32) - 48) as u128;
            if value > most as u128 {
                over = true;
            }
        }
        at = at + 1;
    }
    proof {
        assert(figures.take(at - from) =~= figures);
    }
    if over {
        None
    } else {
        Some(value as u64)
    }
}

/// The digits of a number stand for that number.
pub proof fn digits_stand_for_their_number(n: nat)
    ensures
        all_digits(digits(n)),
        digits_value(digits(n)) == n,
    decreases n,
{
    if n < 10 {
        assert(digits(n).drop_last() =~= Seq::empty());
        assert(digits(n).last() == digit(n));
        assert(digits_value(digits(n).drop_last()) == 0);
    } else {
        digits_stand_for_their_number(n / 10);
        assert(digits(n).drop_last() =~= digits(n / 10));
        assert(digits(n).last() == digit(n % 10));
        assert forall|i: int| 0 <= i < digits(n).len() implies '0' <= #[trigger] digits(
            n,
        )[i] <= '9' by {
            if i < digits(n / 10).len() {
                assert(digits(n)[i] == digits(n / 10)[i]);
            }
        }
    }
}

/// A number written in decimal reads as that number, wherever it is no more
/// than a number may be.
pub proof fn a_written_number_reads_as_itself(n: nat, most: nat)
    requires
        n <= most,
    ensures
        number(digits(n), most) == Some(n),
{
    digits_stand_for_their_number(n);
    assert(digits(n)[0] != '+');
}

/// What lies ahead of the first separator is the first part, and the parts of
/// what follows it are the rest.
pub proof fn the_first_part_ends_at_the_separator(
    first: Seq<char>,
    rest: Seq<char>,
    separator: char,
)
    requires
        !first.contains(separator),
    ensures
        split(first.push(separator) + rest, separator) == seq![first] + split(rest, separator),
    decreases rest.len(),
{
    if rest.len() == 0 {
        a_text_without_a_separator_is_one_part(first, separator);
        assert(first.push(separator) + rest =~= first.push(separator));
        assert(first.push(separator).drop_last() =~= first);
        assert(split(first.push(separator), separator) =~= seq![first] + split(rest, separator));
    } else {
        the_first_part_ends_at_the_separator(first, rest.drop_last(), separator);
        let whole = first.push(separator) + rest;
        assert(whole.drop_last() =~= first.push(separator) + rest.drop_last());
        assert(whole.last() == rest.last());
        let before = split(rest.drop_last(), separator);
        the_parts_are_never_none(rest.drop_last(), separator);
        assert((seq![first] + before).drop_last() =~= seq![first] + before.drop_last());
        assert((seq![first] + before).last() == before.last());
        assert(split(whole, separator) =~= seq![first] + split(rest, separator));
    }
}

proof fn the_parts_are_never_none(text: Seq<char>, separator: char)
    ensures
        split(text, separator).len() > 0,
    decreases text.len(),
{
    if text.len() > 0 {
        the_parts_are_never_none(text.drop_last(), separator);
    }
}

/// A text with no separator in it is one part.
pub proof fn a_text_without_a_separator_is_one_part(text: Seq<char>, separator: char)
    requires
        !text.contains(separator),
    ensures
        split(text, separator) == seq![text],
    decreases text.len(),
{
    if text.len() > 0 {
        assert(!text.drop_last().contains(separator)) by {
            assert forall|i: int| 0 <= i < text.drop_last().len() implies text.drop_last()[i]
                != separator by {
                assert(text[i] != separator);
            }
        }
        a_text_without_a_separator_is_one_part(text.drop_last(), separator);
        assert(text.last() == text[text.len() - 1]);
        assert(seq![text.drop_last()].drop_last() =~= Seq::empty());
        assert(text.drop_last().push(text.last()) =~= text);
        assert(split(text, separator) =~= seq![text]);
    } else {
        assert(text =~= Seq::empty());
        assert(split(text, separator) =~= seq![text]);
    }
}

} // verus!
