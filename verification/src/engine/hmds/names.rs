//! What a query states about its contract, and which query a reply names.

use crate::reading::{characters, text_of};
use crate::text::joined3;
use vstd::prelude::*;

verus! {

/// The longest spelling of a security type that is passed on.
pub const LONGEST_TYPE: usize = 8;

/// Whether a character can stand in the name of a security type.
pub open spec fn is_type_letter(c: char) -> bool {
    ('A' <= c <= 'Z') || ('a' <= c <= 'z') || ('0' <= c <= '9')
}

/// Whether a text is shaped like the name of a security type.
pub open spec fn shaped_like_a_type(stated: Seq<char>) -> bool {
    &&& stated.len() <= LONGEST_TYPE
    &&& forall|i: int| 0 <= i < stated.len() ==> is_type_letter(#[trigger] stated[i])
}

/// The security type a query states: a stock in the wire's spelling, which an
/// absent one is taken for; another as it was stated; and nothing where what
/// was stated could break the document it lands in.
pub open spec fn stated_type(stated: Seq<char>) -> Seq<char> {
    if stated.len() == 0 || stated == "STK"@ || stated == "CS"@ {
        "CS"@
    } else if shaped_like_a_type(stated) {
        stated
    } else {
        Seq::empty()
    }
}

/// The security type a query states.
pub fn hist_sec_type(sec_type: &str) -> (stated: String)
    ensures
        stated@ == stated_type(sec_type@),
{
    let chars: Vec<char> = characters(sec_type);
    if chars.len() == 0 || *sec_type == *"STK" || *sec_type == *"CS" {
        return "CS".to_owned();
    }
    if chars.len() > LONGEST_TYPE {
        return String::new();
    }
    let mut at: usize = 0;
    while at < chars.len()
        invariant
            chars@ == sec_type@,
            sec_type@.len() > 0 && sec_type@ != "STK"@ && sec_type@ != "CS"@,
            at <= chars@.len(),
            forall|i: int| 0 <= i < at ==> is_type_letter(#[trigger] sec_type@[i]),
        decreases chars@.len() - at,
    {
        let c: char = chars[at];
        if !(('A' <= c && c <= 'Z') || ('a' <= c && c <= 'z') || ('0' <= c && c <= '9')) {
            assert(!is_type_letter(sec_type@[at as int]));
            return String::new();
        }
        at = at + 1;
    }
    sec_type.to_owned()
}

/// The venue a query states: the one it was given, and the smart router where
/// it was given none.
pub open spec fn stated_venue(stated: Seq<char>) -> Seq<char> {
    if stated.len() == 0 {
        "SMART"@
    } else {
        stated
    }
}

/// The venue a query states.
pub fn hist_exchange(exchange: &str) -> (stated: String)
    ensures
        stated@ == stated_venue(exchange@),
{
    if exchange.unicode_len() == 0 {
        "SMART".to_owned()
    } else {
        exchange.to_owned()
    }
}

/// Whether a character goes on with a query's name.
pub open spec fn continues_a_name(c: char) -> bool {
    is_type_letter(c) || c == '_'
}

/// Whether a reply that states a name answers the query of a name: it states
/// that name, whole, and may state more after it.
pub open spec fn names_it(stated: Seq<char>, query: Seq<char>) -> bool {
    &&& query.len() <= stated.len()
    &&& stated.take(query.len() as int) == query
    &&& stated.len() > query.len() ==> !continues_a_name(stated[query.len() as int])
}

/// Whether what a reply states names a query.
pub fn states(stated: &str, query: &str) -> (named: bool)
    ensures
        named == names_it(stated@, query@),
{
    let stated_chars: Vec<char> = characters(stated);
    let query_chars: Vec<char> = characters(query);
    if query_chars.len() > stated_chars.len() {
        return false;
    }
    let mut at: usize = 0;
    while at < query_chars.len()
        invariant
            stated_chars@ == stated@,
            query_chars@ == query@,
            query_chars@.len() <= stated_chars@.len(),
            at <= query_chars@.len(),
            forall|i: int| 0 <= i < at ==> #[trigger] stated@[i] == query@[i],
        decreases query_chars@.len() - at,
    {
        if stated_chars[at] != query_chars[at] {
            assert(stated@.take(query@.len() as int)[at as int] != query@[at as int]);
            return false;
        }
        at = at + 1;
    }
    proof {
        assert(stated@.take(query@.len() as int) =~= query@);
    }
    if stated_chars.len() == query_chars.len() {
        return true;
    }
    let c: char = stated_chars[query_chars.len()];
    !(('A' <= c && c <= 'Z') || ('a' <= c && c <= 'z') || ('0' <= c && c <= '9') || c == '_')
}

/// Whether a piece stands in a text at a place.
pub open spec fn stands_at(text: Seq<char>, piece: Seq<char>, at: int) -> bool {
    &&& 0 <= at
    &&& at + piece.len() <= text.len()
    &&& text.subrange(at, at + piece.len()) == piece
}

/// The first place, from one on, at which a piece stands in a text.
pub open spec fn first_place(text: Seq<char>, piece: Seq<char>, from: int) -> Option<int>
    decreases text.len() + 1 - from,
{
    if from < 0 || from + piece.len() > text.len() {
        None
    } else if stands_at(text, piece, from) {
        Some(from)
    } else {
        first_place(text, piece, from + 1)
    }
}

/// What the first element of a name holds, where the document has one that is
/// closed.
pub open spec fn element(document: Seq<char>, name: Seq<char>) -> Option<Seq<char>> {
    let opening = seq!['<'] + name + seq!['>'];
    let closing = seq!['<', '/'] + name + seq!['>'];
    match first_place(document, opening, 0) {
        None => None,
        Some(at) => match first_place(document, closing, at + opening.len()) {
            None => None,
            Some(end) => Some(document.subrange(at + opening.len(), end)),
        },
    }
}

fn stands(text: &Vec<char>, piece: &Vec<char>, at: usize) -> (there: bool)
    requires
        at + piece@.len() <= text@.len(),
    ensures
        there == stands_at(text@, piece@, at as int),
{
    let end: usize = text.len();
    let mut i: usize = 0;
    while i < piece.len()
        invariant
            end == text@.len(),
            at + piece@.len() <= text@.len(),
            i <= piece@.len(),
            forall|j: int| 0 <= j < i ==> #[trigger] text@[at + j] == piece@[j],
        decreases piece@.len() - i,
    {
        if text[at + i] != piece[i] {
            assert(text@.subrange(at as int, at + piece@.len())[i as int] != piece@[i as int]);
            return false;
        }
        i = i + 1;
    }
    proof {
        assert forall|j: int| 0 <= j < piece@.len() implies text@.subrange(
            at as int,
            at + piece@.len(),
        )[j] == piece@[j] by {
            assert(text@[at + j] == piece@[j]);
        }
        assert(text@.subrange(at as int, at + piece@.len()) =~= piece@);
    }
    true
}

pub(crate) fn find(text: &Vec<char>, piece: &Vec<char>, from: usize) -> (at: Option<usize>)
    requires
        from <= text@.len(),
    ensures
        at is Some <==> first_place(text@, piece@, from as int) is Some,
        at matches Some(at) ==> first_place(text@, piece@, from as int) == Some(at as int)
            && from <= at && at + piece@.len() <= text@.len(),
{
    let mut at: usize = from;
    while at <= text.len() && piece.len() <= text.len() - at
        invariant
            from <= at,
            at <= text@.len() + 1,
            first_place(text@, piece@, from as int) == first_place(text@, piece@, at as int),
        decreases text@.len() + 1 - at,
    {
        if stands(text, piece, at) {
            return Some(at);
        }
        if at == text.len() {
            proof {
                assert(first_place(text@, piece@, at + 1) is None);
            }
            return None;
        }
        at = at + 1;
    }
    None
}

/// Whether a piece stands anywhere in a text.
pub fn contains_text(text: &str, piece: &str) -> (there: bool)
    ensures
        there == (first_place(text@, piece@, 0) is Some),
{
    find(&characters(text), &characters(piece), 0).is_some()
}

/// What the first element of a name holds.
pub fn element_text(document: &str, name: &str) -> (held: Option<String>)
    ensures
        held is Some <==> element(document@, name@) is Some,
        held matches Some(held) ==> element(document@, name@) == Some(held@),
{
    let text: Vec<char> = characters(document);
    let opening: Vec<char> = characters(joined3("<", name, ">").as_str());
    let closing: Vec<char> = characters(joined3("</", name, ">").as_str());
    proof {
        reveal_strlit("<");
        reveal_strlit(">");
        reveal_strlit("</");
        assert("<"@ =~= seq!['<']);
        assert(">"@ =~= seq!['>']);
        assert("</"@ =~= seq!['<', '/']);
    }
    match find(&text, &opening, 0) {
        None => None,
        Some(at) => {
            let whole: usize = text.len();
            assert(at + opening@.len() <= whole);
            let from: usize = at + opening.len();
            match find(&text, &closing, from) {
                None => None,
                Some(end) => {
                    let held: String = text_of(vstd::slice::slice_subrange(text.as_slice(), from, end));
                    Some(held)
                },
            }
        },
    }
}

/// Whether a reply answers the query of a name: the name it states is that
/// query's.
pub open spec fn answers_it(reply: Seq<char>, query: Seq<char>) -> bool {
    element(reply, "id"@) matches Some(stated) && names_it(stated, query)
}

/// Whether a reply answers the query of a name.
pub fn answers(reply: &str, query: &str) -> (answered: bool)
    ensures
        answered == answers_it(reply@, query@),
{
    match element_text(reply, "id") {
        None => false,
        Some(stated) => states(stated.as_str(), query),
    }
}

/// A reply to a query is not the reply to another whose name only begins the
/// same: where one reply answers two queries, they have one name, or one name
/// goes on from the other with a character no name goes on with.
pub proof fn a_reply_answers_one_name(
    reply: Seq<char>,
    first: Seq<char>,
    second: Seq<char>,
)
    requires
        answers_it(reply, first),
        answers_it(reply, second),
        first.len() <= second.len(),
        forall|i: int| 0 <= i < second.len() ==> continues_a_name(#[trigger] second[i]),
    ensures
        first == second,
{
    let stated = element(reply, "id"@)->0;
    assert(stated.take(second.len() as int) == second);
    assert(stated.take(first.len() as int) == first);
    if first.len() < second.len() {
        assert(stated.take(second.len() as int)[first.len() as int] == stated[first.len() as int]);
        assert(continues_a_name(second[first.len() as int]));
    } else {
        assert(first =~= second);
    }
}

} // verus!
