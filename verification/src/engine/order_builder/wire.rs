//! What a message says under each of its tags.

use crate::engine::order_builder::fields::{
    also, first_under, renamed, states, unstated_by, without, Stated,
};
use vstd::prelude::*;

verus! {

/// The texts a message has under a tag, in the order it states them.
pub open spec fn texts_under(message: Stated, tag: u32) -> Seq<Seq<char>>
    decreases message.len(),
{
    if message.len() == 0 {
        Seq::empty()
    } else if message.last().0 == tag {
        texts_under(message.drop_last(), tag).push(message.last().1)
    } else {
        texts_under(message.drop_last(), tag)
    }
}

/// Whether a message states a tag once, with this text.
pub open spec fn says(message: Stated, tag: u32, text: Seq<char>) -> bool {
    texts_under(message, tag) == seq![text]
}

/// Whether a message states nothing under a tag.
pub open spec fn silent(message: Stated, tag: u32) -> bool {
    texts_under(message, tag).len() == 0
}

/// A list of texts with one more, where it is stated.
pub open spec fn more(before: Seq<Seq<char>>, when: bool, text: Seq<char>) -> Seq<Seq<char>> {
    if when {
        before.push(text)
    } else {
        before
    }
}

/// Nothing is said by nothing.
pub broadcast proof fn nothing_is_said(tag: u32)
    ensures
        #[trigger] texts_under(Seq::empty(), tag) == Seq::<Seq<char>>::empty(),
{
}

/// A field more says its text under its tag, and changes no other.
pub broadcast proof fn one_more_is_said(message: Stated, field: (u32, Seq<char>), tag: u32)
    ensures
        #[trigger] texts_under(message.push(field), tag) == more(
            texts_under(message, tag),
            field.0 == tag,
            field.1,
        ),
{
    assert(message.push(field).drop_last() =~= message);
}

/// A field stated where it is stated at all.
pub broadcast proof fn one_is_said_where_stated(
    message: Stated,
    when: bool,
    stated: u32,
    text: Seq<char>,
    tag: u32,
)
    ensures
        #[trigger] texts_under(also(message, when, stated, text), tag) == more(
            texts_under(message, tag),
            when && stated == tag,
            text,
        ),
{
    one_more_is_said(message, (stated, text), tag);
}

/// One list of fields after another says what the first says and then what the
/// second does.
pub broadcast proof fn both_are_said(first: Stated, second: Stated, tag: u32)
    ensures
        #[trigger] texts_under(first + second, tag) == texts_under(first, tag) + texts_under(
            second,
            tag,
        ),
    decreases second.len(),
{
    if second.len() == 0 {
        assert(first + second =~= first);
        assert(texts_under(first, tag) + texts_under(second, tag) =~= texts_under(first, tag));
    } else {
        let rest = second.drop_last();
        both_are_said(first, rest, tag);
        assert((first + second).drop_last() =~= first + rest);
        assert((first + second).last() == second.last());
        assert(texts_under(first, tag) + texts_under(rest, tag).push(second.last().1) =~= (
        texts_under(first, tag) + texts_under(rest, tag)).push(second.last().1));
    }
}

/// Taking out what is under one tag changes no other.
pub broadcast proof fn others_stay_said(message: Stated, gone: u32, tag: u32)
    ensures
        #[trigger] texts_under(without(message, gone), tag) == (if gone == tag {
            Seq::empty()
        } else {
            texts_under(message, tag)
        }),
    decreases message.len(),
{
    reveal(Seq::filter);
    if message.len() > 0 {
        others_stay_said(message.drop_last(), gone, tag);
        one_more_is_said(without(message.drop_last(), gone), message.last(), tag);
    }
}

/// Restating what is under one tag changes no other, and restates each text
/// under that one.
pub broadcast proof fn others_keep_their_texts(
    message: Stated,
    named: u32,
    text: Seq<char>,
    tag: u32,
)
    ensures
        named != tag ==> #[trigger] texts_under(renamed(message, named, text), tag) == texts_under(
            message,
            tag,
        ),
        named == tag ==> texts_under(renamed(message, named, text), tag) == texts_under(
            message,
            tag,
        ).map_values(|one: Seq<char>| text),
    decreases message.len(),
{
    let again = |one: Seq<char>| text;
    if message.len() > 0 {
        let before = message.drop_last();
        others_keep_their_texts(before, named, text, tag);
        assert(renamed(message, named, text).drop_last() =~= renamed(before, named, text));
        assert(texts_under(before, tag).push(message.last().1).map_values(again) =~= texts_under(
            before,
            tag,
        ).map_values(again).push(text));
    } else {
        assert(renamed(message, named, text) =~= message);
        assert(texts_under(message, tag).map_values(again) =~= Seq::empty());
    }
}

proof fn a_tag_states_a_text(message: Stated, tag: u32)
    ensures
        states(message, tag) <==> texts_under(message, tag).len() > 0,
    decreases message.len(),
{
    if message.len() > 0 {
        let before = message.drop_last();
        a_tag_states_a_text(before, tag);
        if states(message, tag) {
            let i = choose|i: int| 0 <= i < message.len() && #[trigger] message[i].0 == tag;
            if i < before.len() {
                assert(before[i].0 == tag);
            }
        }
        if states(before, tag) {
            let i = choose|i: int| 0 <= i < before.len() && #[trigger] before[i].0 == tag;
            assert(message[i].0 == tag);
        }
        if message.last().0 == tag {
            assert(message[message.len() - 1].0 == tag);
        }
    }
}

/// What is left of a list of fields says what it said under the tags another
/// list is silent on, and nothing under the others.
pub broadcast proof fn what_another_states_is_not_said(message: Stated, other: Stated, tag: u32)
    ensures
        #[trigger] texts_under(unstated_by(message, other), tag) == (if silent(other, tag) {
            texts_under(message, tag)
        } else {
            Seq::empty()
        }),
    decreases message.len(),
{
    reveal(Seq::filter);
    a_tag_states_a_text(other, tag);
    if message.len() > 0 {
        what_another_states_is_not_said(message.drop_last(), other, tag);
        one_more_is_said(unstated_by(message.drop_last(), other), message.last(), tag);
    }
}

/// A tag no field is stated under is not said.
pub proof fn a_tag_stated_nowhere(message: Stated, tag: u32)
    requires
        forall|i: int| 0 <= i < message.len() ==> (#[trigger] message[i]).0 != tag,
    ensures
        silent(message, tag),
        texts_under(message, tag) == Seq::<Seq<char>>::empty(),
    decreases message.len(),
{
    if message.len() > 0 {
        assert(message[message.len() - 1].0 != tag);
        assert forall|i: int| 0 <= i < message.drop_last().len() implies (
        #[trigger] message.drop_last()[i]).0 != tag by {
            assert(message[i].0 != tag);
        }
        a_tag_stated_nowhere(message.drop_last(), tag);
    }
}

/// A tag one field alone is stated under says that field's text.
pub proof fn a_tag_stated_once(message: Stated, at: int)
    requires
        0 <= at < message.len(),
        forall|i: int|
            0 <= i < message.len() && i != at ==> (#[trigger] message[i]).0 != message[at].0,
    ensures
        says(message, message[at].0, message[at].1),
    decreases message.len(),
{
    let before = message.drop_last();
    let tag = message[at].0;
    if at == message.len() - 1 {
        assert forall|i: int| 0 <= i < before.len() implies (#[trigger] before[i]).0 != tag by {
            assert(message[i].0 != tag);
        }
        a_tag_stated_nowhere(before, tag);
        assert(texts_under(message, tag) =~= seq![message[at].1]);
    } else {
        assert(before[at] == message[at]);
        assert forall|i: int| 0 <= i < before.len() && i != at implies (#[trigger] before[i]).0
            != before[at].0 by {
            assert(message[i].0 != tag);
        }
        assert(message[message.len() - 1].0 != tag);
        a_tag_stated_once(before, at);
    }
}

/// The first field under a tag has the first of the texts said under it.
pub proof fn the_first_field_says_the_first_text(message: Stated, tag: u32)
    ensures
        texts_under(message, tag).len() > 0 ==> first_under(message, tag) == Some(
            texts_under(message, tag)[0],
        ),
        texts_under(message, tag).len() == 0 ==> first_under(message, tag) is None,
    decreases message.len(),
{
    if message.len() > 0 {
        let one = seq![message[0]];
        let rest = message.drop_first();
        assert(message =~= one + rest);
        both_are_said(one, rest, tag);
        one_more_is_said(Seq::empty(), message[0], tag);
        assert(one =~= Seq::<(u32, Seq<char>)>::empty().push(message[0]));
        the_first_field_says_the_first_text(rest, tag);
    }
}

pub broadcast group group_said {
    nothing_is_said,
    one_more_is_said,
    one_is_said_where_stated,
    both_are_said,
    others_stay_said,
    others_keep_their_texts,
    what_another_states_is_not_said,
}

} // verus!
