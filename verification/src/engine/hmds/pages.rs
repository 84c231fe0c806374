//! The pages a series arrives in.

use crate::engine::hmds::names::{element, element_text, find, first_place};
use crate::engine::hmds::series::Bar;
use crate::engine::hmds::ticks::{element_or_empty, element_or_nothing};
use crate::reading::{characters, text_of};
use crate::text::{joined3, texts};
use vstd::prelude::*;

verus! {

/// A piece that is found from a place on stands there or after it, and whole.
pub proof fn a_place_is_from_there_on(text: Seq<char>, piece: Seq<char>, from: int)
    ensures
        first_place(text, piece, from) matches Some(at) ==> 0 <= from <= at && at + piece.len()
            <= text.len(),
    decreases text.len() + 1 - from,
{
    if 0 <= from && from + piece.len() <= text.len() {
        a_place_is_from_there_on(text, piece, from + 1);
    }
}

/// The opening of an element.
pub open spec fn opening(name: Seq<char>) -> Seq<char> {
    seq!['<'] + name + seq!['>']
}

/// The end of an element.
pub open spec fn closing(name: Seq<char>) -> Seq<char> {
    seq!['<', '/'] + name + seq!['>']
}

/// What each element of a name holds, from a place of a document on; nothing
/// where one of them is never closed.
pub open spec fn rows(document: Seq<char>, name: Seq<char>, from: int) -> Option<Seq<Seq<char>>>
    decreases document.len() - from,
{
    proof {
        a_place_is_from_there_on(document, opening(name), from);
        if let Some(at) = first_place(document, opening(name), from) {
            a_place_is_from_there_on(document, closing(name), at + opening(name).len());
        }
    }
    match first_place(document, opening(name), from) {
        None => Some(Seq::empty()),
        Some(at) => match first_place(document, closing(name), at + opening(name).len()) {
            None => None,
            Some(end) => match rows(document, name, end + closing(name).len()) {
                None => None,
                Some(rest) => Some(
                    seq![document.subrange(at + opening(name).len(), end)] + rest,
                ),
            },
        },
    }
}

/// What each element of a name holds, where every one of them is closed.
pub fn rows_of(document: &str, name: &str) -> (held: Option<Vec<String>>)
    ensures
        held is Some <==> rows(document@, name@, 0) is Some,
        held matches Some(held) ==> rows(document@, name@, 0) == Some(texts(held@)),
{
    let text: Vec<char> = characters(document);
    let open: Vec<char> = characters(joined3("<", name, ">").as_str());
    let close: Vec<char> = characters(joined3("</", name, ">").as_str());
    proof {
        reveal_strlit("<");
        reveal_strlit(">");
        reveal_strlit("</");
        assert("<"@ =~= seq!['<']);
        assert(">"@ =~= seq!['>']);
        assert("</"@ =~= seq!['<', '/']);
    }
    let whole: usize = text.len();
    let mut held: Vec<String> = Vec::new();
    let mut from: usize = 0;
    proof {
        match rows(text@, name@, 0) {
            Some(rest) => {
                assert(texts(held@) + rest =~= rest);
            },
            None => {},
        }
    }
    loop
        invariant
            text@ == document@,
            whole == text@.len(),
            open@ == opening(name@),
            close@ == closing(name@),
            from <= whole,
            rows(document@, name@, 0) == (match rows(document@, name@, from as int) {
                Some(rest) => Some(texts(held@) + rest),
                None => None,
            }),
        decreases whole - from,
    {
        match find(&text, &open, from) {
            None => {
                proof {
                    assert(texts(held@) + Seq::<Seq<char>>::empty() =~= texts(held@));
                }
                return Some(held);
            },
            Some(at) => {
                assert(at + open@.len() <= whole);
                let start: usize = at + open.len();
                match find(&text, &close, start) {
                    None => {
                        return None;
                    },
                    Some(end) => {
                        assert(end + close@.len() <= whole);
                        let row: String = text_of(
                            vstd::slice::slice_subrange(text.as_slice(), start, end),
                        );
                        let ghost before = texts(held@);
                        held.push(row);
                        proof {
                            assert(texts(held@) =~= before.push(row@));
                            match rows(document@, name@, end + close@.len()) {
                                Some(rest) => {
                                    assert(before + (seq![row@] + rest) =~= texts(held@) + rest);
                                },
                                None => {},
                            }
                        }
                        from = end + close.len();
                    },
                }
            },
        }
    }
}

/// When a bar opened: its moment, or its day where it states no moment.
pub open spec fn opened(row: Seq<char>) -> Option<Seq<char>> {
    match element(row, "time"@) {
        Some(time) => Some(time),
        None => element(row, "date"@),
    }
}

/// Whether a row states a bar whole.
pub open spec fn states_a_bar(row: Seq<char>) -> bool {
    &&& opened(row) is Some
    &&& element(row, "open"@) is Some
    &&& element(row, "high"@) is Some
    &&& element(row, "low"@) is Some
    &&& element(row, "close"@) is Some
    &&& element(row, "weightedAvg"@) is Some
    &&& element(row, "volume"@) is Some
    &&& element(row, "count"@) is Some
}

/// Whether a bar is the one a row states.
pub open spec fn is_stated_by(bar: Bar, row: Seq<char>) -> bool {
    &&& opened(row) == Some(bar.time@)
    &&& element(row, "open"@) == Some(bar.open@)
    &&& element(row, "high"@) == Some(bar.high@)
    &&& element(row, "low"@) == Some(bar.low@)
    &&& element(row, "close"@) == Some(bar.close@)
    &&& element(row, "weightedAvg"@) == Some(bar.weighted@)
    &&& element(row, "volume"@) == Some(bar.volume@)
    &&& element(row, "count"@) == Some(bar.count@)
}

fn read_bar(row: &str) -> (bar: Option<Bar>)
    ensures
        bar is Some <==> states_a_bar(row@),
        bar matches Some(bar) ==> is_stated_by(bar, row@),
{
    let time: Option<String> = match element_text(row, "time") {
        Some(time) => Some(time),
        None => element_text(row, "date"),
    };
    match (
        time,
        element_text(row, "open"),
        element_text(row, "high"),
        element_text(row, "low"),
        element_text(row, "close"),
        element_text(row, "weightedAvg"),
        element_text(row, "volume"),
        element_text(row, "count"),
    ) {
        (
            Some(time),
            Some(open),
            Some(high),
            Some(low),
            Some(close),
            Some(weighted),
            Some(volume),
            Some(count),
        ) => Some(Bar { time, open, high, low, close, weighted, volume, count }),
        _ => None,
    }
}

/// One page of a series.
#[derive(Debug, PartialEq, Eq)]
pub struct Page {
    pub bars: Vec<Bar>,
    /// The zone its moments are in, empty where it states none.
    pub timezone: String,
}

/// Whether a reply states a page that can be read: every row of it is closed,
/// and states its bar whole.
pub open spec fn is_readable(reply: Seq<char>) -> bool {
    match rows(reply, "Bar"@, 0) {
        Some(stated) => forall|i: int| 0 <= i < stated.len() ==> states_a_bar(#[trigger] stated[i]),
        None => false,
    }
}

/// Whether a page is the one a reply states.
pub open spec fn is_page_of(page: Page, reply: Seq<char>) -> bool {
    &&& page.timezone@ == element_or_nothing(reply, "tz"@)
    &&& rows(reply, "Bar"@, 0) matches Some(stated) && stated.len() == page.bars@.len() && forall|
        i: int,
    |
        0 <= i < stated.len() ==> is_stated_by(page.bars@[i], #[trigger] stated[i])
}

/// Read a page of a series.
pub fn read_page(reply: &str) -> (page: Option<Page>)
    ensures
        page is Some <==> is_readable(reply@),
        page matches Some(page) ==> is_page_of(page, reply@),
{
    let stated: Vec<String> = match rows_of(reply, "Bar") {
        Some(stated) => stated,
        None => {
            return None;
        },
    };
    let mut bars: Vec<Bar> = Vec::new();
    let mut at: usize = 0;
    while at < stated.len()
        invariant
            rows(reply@, "Bar"@, 0) == Some(texts(stated@)),
            at <= stated@.len(),
            bars@.len() == at,
            forall|i: int| 0 <= i < at ==> is_stated_by(bars@[i], #[trigger] texts(stated@)[i]),
        decreases stated@.len() - at,
    {
        assert(texts(stated@)[at as int] == stated@[at as int]@);
        match read_bar(stated[at].as_str()) {
            Some(bar) => {
                bars.push(bar);
            },
            None => {
                proof {
                    let all = rows(reply@, "Bar"@, 0)->0;
                    assert(at < all.len() && !states_a_bar(all[at as int]));
                }
                return None;
            },
        }
        at = at + 1;
    }
    proof {
        assert forall|i: int| 0 <= i < texts(stated@).len() implies states_a_bar(
            #[trigger] texts(stated@)[i],
        ) by {
            assert(is_stated_by(bars@[i], texts(stated@)[i]));
        }
    }
    Some(Page { bars, timezone: element_or_empty(reply, "tz") })
}

} // verus!
