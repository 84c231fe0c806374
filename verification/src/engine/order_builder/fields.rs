//! The fields of a message, in the order they go out.

use vstd::prelude::*;

verus! {

pub const TAG_MSG_TYPE: u32 = 35;

pub const TAG_SENDING_TIME: u32 = 52;

/// The tags and texts of a message.
pub type Stated = Seq<(u32, Seq<char>)>;

/// What a list of fields states.
pub open spec fn stated(fields: Seq<(u32, String)>) -> Stated {
    fields.map_values(|field: (u32, String)| (field.0, field.1@))
}

/// The fields with one more after them, where it is stated at all.
pub open spec fn also(fields: Stated, when: bool, tag: u32, text: Seq<char>) -> Stated {
    if when {
        fields.push((tag, text))
    } else {
        fields
    }
}

/// The fields with a text after them, where it is not empty.
pub open spec fn also_named(fields: Stated, tag: u32, text: Seq<char>) -> Stated {
    also(fields, text.len() > 0, tag, text)
}

/// The fields with a flag after them, where it is set.
pub open spec fn also_flag(fields: Stated, when: bool, tag: u32) -> Stated {
    also(fields, when, tag, "1"@)
}

/// The fields but those under one tag.
pub open spec fn without(fields: Stated, tag: u32) -> Stated {
    fields.filter(|field: (u32, Seq<char>)| field.0 != tag)
}

/// The fields with the text of every field under one tag replaced.
pub open spec fn renamed(fields: Stated, tag: u32, text: Seq<char>) -> Stated {
    fields.map_values(
        |field: (u32, Seq<char>)|
            if field.0 == tag {
                (tag, text)
            } else {
                field
            },
    )
}

/// The text of the first field under a tag.
pub open spec fn first_under(fields: Stated, tag: u32) -> Option<Seq<char>>
    decreases fields.len(),
{
    if fields.len() == 0 {
        None
    } else if fields[0].0 == tag {
        Some(fields[0].1)
    } else {
        first_under(fields.drop_first(), tag)
    }
}

/// Whether any field is under a tag.
pub open spec fn states(fields: Stated, tag: u32) -> bool {
    exists|i: int| 0 <= i < fields.len() && #[trigger] fields[i].0 == tag
}

/// The fields under none of the tags another list states.
pub open spec fn unstated_by(fields: Stated, other: Stated) -> Stated {
    fields.filter(|field: (u32, Seq<char>)| !states(other, field.0))
}

/// State one field.
pub fn put(fields: &mut Vec<(u32, String)>, tag: u32, text: String)
    ensures
        stated(final(fields)@) == stated(old(fields)@).push((tag, text@)),
{
    fields.push((tag, text));
    proof {
        assert(stated(fields@) =~= stated(old(fields)@).push((tag, text@)));
    }
}

/// State one field whose text is at hand.
pub fn put_str(fields: &mut Vec<(u32, String)>, tag: u32, text: &str)
    ensures
        stated(final(fields)@) == stated(old(fields)@).push((tag, text@)),
{
    put(fields, tag, text.to_owned());
}

/// State a text where it is not empty.
pub fn put_named(fields: &mut Vec<(u32, String)>, tag: u32, text: &String)
    ensures
        stated(final(fields)@) == also_named(stated(old(fields)@), tag, text@),
{
    if !text.as_str().is_empty() {
        put(fields, tag, text.clone());
    }
}

/// State a flag where it is set.
pub fn put_flag(fields: &mut Vec<(u32, String)>, when: bool, tag: u32)
    ensures
        stated(final(fields)@) == also_flag(stated(old(fields)@), when, tag),
{
    if when {
        put_str(fields, tag, "1");
    }
}

/// Take out every field under one tag.
pub fn drop_tag(fields: Vec<(u32, String)>, tag: u32) -> (kept: Vec<(u32, String)>)
    ensures
        stated(kept@) == without(stated(fields@), tag),
{
    let mut kept: Vec<(u32, String)> = Vec::new();
    let mut at: usize = 0;
    proof {
        reveal(Seq::filter);
        assert(stated(fields@).take(0) =~= Seq::empty());
        assert(stated(kept@) =~= without(stated(fields@).take(0), tag));
    }
    while at < fields.len()
        invariant
            at <= fields@.len(),
            stated(kept@) == without(stated(fields@).take(at as int), tag),
        decreases fields@.len() - at,
    {
        let ghost before = stated(fields@).take(at as int);
        let ghost next = stated(fields@).take(at + 1);
        proof {
            reveal(Seq::filter);
            assert(next.drop_last() =~= before);
            assert(next.last() == (fields@[at as int].0, fields@[at as int].1@));
        }
        if fields[at].0 != tag {
            kept.push((fields[at].0, fields[at].1.clone()));
            proof {
                assert(stated(kept@) =~= without(before, tag).push(next.last()));
            }
        }
        at = at + 1;
    }
    proof {
        assert(stated(fields@).take(at as int) =~= stated(fields@));
    }
    kept
}

/// Restate the text of every field under one tag.
pub fn rename(fields: &mut Vec<(u32, String)>, tag: u32, text: &str)
    ensures
        stated(final(fields)@) == renamed(stated(old(fields)@), tag, text@),
{
    let mut at: usize = 0;
    while at < fields.len()
        invariant
            at <= fields@.len(),
            fields@.len() == old(fields)@.len(),
            forall|i: int|
                0 <= i < at ==> {
                    &&& (#[trigger] fields@[i]).0 == old(fields)@[i].0
                    &&& fields@[i].1@ == if old(fields)@[i].0 == tag {
                        text@
                    } else {
                        old(fields)@[i].1@
                    }
                },
            forall|i: int| at <= i < fields@.len() ==> #[trigger] fields@[i] == old(fields)@[i],
        decreases fields@.len() - at,
    {
        if fields[at].0 == tag {
            fields.set(at, (tag, text.to_owned()));
        }
        at = at + 1;
    }
    proof {
        assert(stated(fields@) =~= renamed(stated(old(fields)@), tag, text@));
    }
}

/// The text of the first field under a tag.
pub fn find(fields: &Vec<(u32, String)>, tag: u32) -> (found: Option<String>)
    ensures
        found is Some == first_under(stated(fields@), tag) is Some,
        found matches Some(text) ==> first_under(stated(fields@), tag) == Some(text@),
{
    let mut at: usize = 0;
    proof {
        assert(stated(fields@).skip(0) =~= stated(fields@));
    }
    while at < fields.len()
        invariant
            at <= fields@.len(),
            first_under(stated(fields@), tag) == first_under(stated(fields@).skip(at as int), tag),
        decreases fields@.len() - at,
    {
        proof {
            assert(stated(fields@).skip(at as int).drop_first() =~= stated(fields@).skip(at + 1));
        }
        if fields[at].0 == tag {
            return Some(fields[at].1.clone());
        }
        at = at + 1;
    }
    None
}

/// Whether any field is under a tag.
pub fn holds(fields: &Vec<(u32, String)>, tag: u32) -> (held: bool)
    ensures
        held == states(stated(fields@), tag),
{
    let mut at: usize = 0;
    while at < fields.len()
        invariant
            at <= fields@.len(),
            forall|i: int| 0 <= i < at ==> (#[trigger] stated(fields@)[i]).0 != tag,
        decreases fields@.len() - at,
    {
        if fields[at].0 == tag {
            assert(stated(fields@)[at as int].0 == tag);
            return true;
        }
        at = at + 1;
    }
    false
}

/// The fields under none of the tags another list states.
pub fn drop_stated(fields: Vec<(u32, String)>, other: &Vec<(u32, String)>) -> (kept: Vec<
    (u32, String),
>)
    ensures
        stated(kept@) == unstated_by(stated(fields@), stated(other@)),
{
    let mut kept: Vec<(u32, String)> = Vec::new();
    let mut at: usize = 0;
    proof {
        reveal(Seq::filter);
        assert(stated(fields@).take(0) =~= Seq::empty());
        assert(stated(kept@) =~= unstated_by(stated(fields@).take(0), stated(other@)));
    }
    while at < fields.len()
        invariant
            at <= fields@.len(),
            stated(kept@) == unstated_by(stated(fields@).take(at as int), stated(other@)),
        decreases fields@.len() - at,
    {
        let ghost before = stated(fields@).take(at as int);
        let ghost next = stated(fields@).take(at + 1);
        proof {
            reveal(Seq::filter);
            assert(next.drop_last() =~= before);
            assert(next.last() == (fields@[at as int].0, fields@[at as int].1@));
        }
        if !holds(other, fields[at].0) {
            kept.push((fields[at].0, fields[at].1.clone()));
            proof {
                assert(stated(kept@) =~= unstated_by(before, stated(other@)).push(next.last()));
            }
        }
        at = at + 1;
    }
    proof {
        assert(stated(fields@).take(at as int) =~= stated(fields@));
    }
    kept
}

/// Put one list of fields after another.
pub fn extend(fields: &mut Vec<(u32, String)>, more: Vec<(u32, String)>)
    ensures
        stated(final(fields)@) == stated(old(fields)@) + stated(more@),
{
    let mut rest: Vec<(u32, String)> = more;
    fields.append(&mut rest);
    proof {
        assert(stated(fields@) =~= stated(old(fields)@) + stated(more@));
    }
}

} // verus!
