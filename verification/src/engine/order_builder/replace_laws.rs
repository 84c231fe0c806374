//! What a replacement is stated and tracked as.

use crate::engine::context::{Context, Placed};
use crate::engine::known::{Known, Said};
use crate::engine::order_builder::attr_laws::{
    an_order_states_what_a_type_states_last, what_a_type_states_last,
};
use crate::engine::order_builder::attrs::{attr_fields, two_part_mid};
use crate::engine::order_builder::cancel::{order_account, revision_name, venue_name};
use crate::engine::order_builder::fields::{
    also, also_flag, also_named, renamed, unstated_by, Stated,
};
use crate::engine::order_builder::replace::{
    lean_fields, local_symbol, record_after, replace_fields, replaced_con_id, replacement_outcome,
    restated_fields, terms_after, whole_shape, working_on, Named, Terms,
};
use crate::engine::order_builder::shape::{
    instruction_of, limit_priced, origin_name, restated, shape_fields, side_code,
};
use crate::engine::order_builder::submit::takes_trails_as_t;
use crate::engine::order_builder::submit_laws::{
    a_shape_states_its_prices, a_shape_states_its_type, prices_said, side_text,
    the_letters_of_names, type_said,
};
use crate::engine::order_builder::wire::{
    a_tag_stated_nowhere, a_tag_stated_once, group_said, more, others_keep_their_texts, says,
    silent, texts_under, the_first_field_says_the_first_text,
};
use crate::text::{digits, price_text, qty_text};
use crate::types::attrs::OrderAttrs;
use crate::types::kinds::OrderKind;
use crate::types::orders::{byte_text, ord_type_name, Order, OrderSpec, TIF_UNSTATED};
use vstd::prelude::*;

verus! {

/// Whether the message ahead of what an order carries always states a tag, and
/// states it once.
pub open spec fn lean_tag(tag: u32) -> bool {
    tag == 35 || tag == 52 || tag == 11 || tag == 41 || tag == 1 || tag == 6122 || tag == 100 || tag
        == 6210 || tag == 38 || tag == 54 || tag == 40 || tag == 55 || tag == 167 || tag == 6008
        || tag == 6088 || tag == 6211
}

spec fn account_of(record: Option<Placed>, session: Seq<char>) -> Seq<char> {
    match record {
        Some(placed) => order_account(*placed.attrs, session),
        None => session,
    }
}

spec fn origin_of(record: Option<Placed>) -> Seq<char> {
    match record {
        Some(placed) => origin_name(placed.attrs.origin),
        None => origin_name(0),
    }
}

spec fn lean_text(
    context: Context,
    session: Seq<char>,
    order_id: u64,
    orig: Order,
    named: Named,
    terms: Terms,
    record: Option<Placed>,
    version: u32,
    now: Seq<char>,
    tag: u32,
) -> Seq<char> {
    let routing = working_on(context, order_id, orig.instrument);
    if tag == 35 {
        "G"@
    } else if tag == 52 {
        now
    } else if tag == 11 {
        revision_name(order_id, version)
    } else if tag == 41 {
        venue_name(context, order_id)
    } else if tag == 1 {
        account_of(record, session)
    } else if tag == 6122 {
        origin_of(record)
    } else if tag == 100 || tag == 6210 {
        routing.1
    } else if tag == 38 {
        qty_text(named.qty as int)
    } else if tag == 54 {
        side_code(orig.side)
    } else if tag == 40 {
        ord_type_name(terms.ord_type)
    } else if tag == 55 {
        context.symbol(orig.instrument)
    } else if tag == 167 {
        routing.0
    } else if tag == 6008 {
        replaced_con_id(context, record, orig.instrument)
    } else if tag == 6088 {
        "Socket"@
    } else {
        Seq::empty()
    }
}

#[verifier::spinoff_prover]
#[verifier::rlimit(60)]
proof fn lean_says(
    context: Context,
    session: Seq<char>,
    order_id: u64,
    orig: Order,
    named: Named,
    terms: Terms,
    record: Option<Placed>,
    whole: bool,
    version: u32,
    now: Seq<char>,
    tag: u32,
)
    ensures
        ({
            let f = lean_fields(
                context,
                session,
                order_id,
                orig,
                named,
                terms,
                record,
                whole,
                version,
                now,
            );
            let none = Seq::<Seq<char>>::empty();
            &&& lean_tag(tag) ==> says(
                f,
                tag,
                lean_text(
                    context,
                    session,
                    order_id,
                    orig,
                    named,
                    terms,
                    record,
                    version,
                    now,
                    tag,
                ),
            )
            &&& tag == 44 ==> texts_under(f, tag) == more(
                none,
                !whole && limit_priced(terms.ord_type),
                price_text(named.price as int),
            )
            &&& tag == 6433 ==> texts_under(f, tag) == more(none, named.outside_rth, "1"@)
            &&& tag == 6035 ==> texts_under(f, tag) == more(
                none,
                local_symbol(context, orig.instrument).len() > 0,
                local_symbol(context, orig.instrument),
            )
            &&& tag == 59 ==> texts_under(f, tag) == more(
                none,
                terms.tif != TIF_UNSTATED,
                byte_text(terms.tif),
            )
            &&& tag == 99 ==> texts_under(f, tag) == more(
                none,
                !whole && terms.stop != 0,
                price_text(terms.stop as int),
            )
            &&& !lean_tag(tag) && tag != 44 && tag != 6433 && tag != 6035 && tag != 59 && tag != 99
                ==> silent(f, tag)
        }),
{
    broadcast use group_said;

    let routing = working_on(context, order_id, orig.instrument);
    let none = Seq::<Seq<char>>::empty();
    let f: Stated = seq![
        (35u32, "G"@),
        (52u32, now),
        (11u32, revision_name(order_id, version)),
        (41u32, venue_name(context, order_id)),
    ];
    assert(tag == 35 || tag == 52 || tag == 11 || tag == 41 ==> texts_under(f, tag) =~= seq![
        lean_text(context, session, order_id, orig, named, terms, record, version, now, tag),
    ]) by {
        a_tag_stated_once(f, 0);
        a_tag_stated_once(f, 1);
        a_tag_stated_once(f, 2);
        a_tag_stated_once(f, 3);
    }
    assert(tag != 35 && tag != 52 && tag != 11 && tag != 41 ==> texts_under(f, tag) =~= none) by {
        if tag != 35 && tag != 52 && tag != 11 && tag != 41 {
            a_tag_stated_nowhere(f, tag);
        }
    }
    let g = also(f, !whole && limit_priced(terms.ord_type), 44, price_text(named.price as int));
    assert(tag != 44 ==> texts_under(g, tag) == texts_under(f, tag));
    let account = account_of(record, session);
    let origin = origin_of(record);
    let h = also_flag(g.push((1, account)).push((6122, origin)), named.outside_rth, 6433);
    assert(tag != 1 && tag != 6122 && tag != 6433 ==> texts_under(h, tag) == texts_under(g, tag));
    assert(tag == 1 ==> texts_under(h, tag) =~= seq![account]);
    assert(tag == 6122 ==> texts_under(h, tag) =~= seq![origin]);
    let k = h.push((100, routing.1)).push((6210, routing.1)).push(
        (38, qty_text(named.qty as int)),
    ).push((54, side_code(orig.side)));
    assert(tag != 100 && tag != 6210 && tag != 38 && tag != 54 ==> texts_under(k, tag)
        == texts_under(h, tag));
    assert(tag == 100 || tag == 6210 || tag == 38 || tag == 54 ==> texts_under(k, tag) =~= seq![
        lean_text(context, session, order_id, orig, named, terms, record, version, now, tag),
    ]);
    let l = k.push((40, ord_type_name(terms.ord_type))).push(
        (55, context.symbol(orig.instrument)),
    ).push((167, routing.0));
    assert(tag != 40 && tag != 55 && tag != 167 ==> texts_under(l, tag) == texts_under(k, tag));
    assert(tag == 40 || tag == 55 || tag == 167 ==> texts_under(l, tag) =~= seq![
        lean_text(context, session, order_id, orig, named, terms, record, version, now, tag),
    ]);
    let n = also(
        also_named(l, 6035, local_symbol(context, orig.instrument)),
        terms.tif != TIF_UNSTATED,
        59,
        byte_text(terms.tif),
    );
    assert(tag != 6035 && tag != 59 ==> texts_under(n, tag) == texts_under(l, tag));
    assert(tag == 6035 ==> texts_under(n, tag) == more(
        none,
        local_symbol(context, orig.instrument).len() > 0,
        local_symbol(context, orig.instrument),
    ));
    assert(tag == 59 ==> texts_under(n, tag) == more(
        none,
        terms.tif != TIF_UNSTATED,
        byte_text(terms.tif),
    ));
    let o = n.push((6008, replaced_con_id(context, record, orig.instrument))).push(
        (6088, "Socket"@),
    ).push((6211, Seq::empty()));
    assert(tag != 6008 && tag != 6088 && tag != 6211 ==> texts_under(o, tag) == texts_under(
        n,
        tag,
    ));
    assert(tag == 6008 || tag == 6088 || tag == 6211 ==> texts_under(o, tag) =~= seq![
        lean_text(context, session, order_id, orig, named, terms, record, version, now, tag),
    ]);
}

proof fn restating_keeps(
    lean: Stated,
    kind: OrderKind,
    attrs: OrderAttrs,
    orig: Order,
    named: Named,
    trail_as_t: bool,
    parent: Option<Seq<char>>,
    tag: u32,
)
    requires
        tag != 40,
    ensures
        ({
            let again = restated(kind, named.price, named.stop_price);
            let carried = attr_fields(
                shape_fields(Seq::empty(), again, trail_as_t),
                attrs,
                again,
                orig.side,
                instruction_of(kind, trail_as_t),
                parent,
            );
            let m = restated_fields(lean, kind, attrs, orig, named, trail_as_t, parent);
            &&& !silent(lean, tag) ==> texts_under(m, tag) == texts_under(lean, tag)
            &&& silent(lean, tag) ==> texts_under(m, tag) == texts_under(carried, tag)
        }),
{
    broadcast use group_said;

    let again = restated(kind, named.price, named.stop_price);
    let carried = attr_fields(
        shape_fields(Seq::empty(), again, trail_as_t),
        attrs,
        again,
        orig.side,
        instruction_of(kind, trail_as_t),
        parent,
    );
    assert(texts_under(lean, tag) + Seq::<Seq<char>>::empty() =~= texts_under(lean, tag));
    assert(silent(lean, tag) ==> texts_under(lean, tag) + texts_under(carried, tag)
        =~= texts_under(carried, tag));
}

#[verifier::spinoff_prover]
proof fn a_replacement_keeps(
    before: Context,
    after: Context,
    known: Known,
    session: Seq<char>,
    order_id: u64,
    orig: Order,
    named: Named,
    record: Option<Placed>,
    whole: bool,
    now: Seq<char>,
    tag: u32,
)
    requires
        tag != 40,
    ensures
        ({
            let terms = terms_after(orig, named, whole_shape(record, whole));
            let lean = lean_fields(
                before,
                session,
                order_id,
                orig,
                named,
                terms,
                record,
                whole,
                after.version(order_id),
                now,
            );
            let m = replace_fields(
                before,
                after,
                known,
                session,
                order_id,
                orig,
                named,
                record,
                whole,
                now,
            );
            !silent(lean, tag) ==> texts_under(m, tag) == texts_under(lean, tag)
        }),
{
    let terms = terms_after(orig, named, whole_shape(record, whole));
    let lean = lean_fields(
        before,
        session,
        order_id,
        orig,
        named,
        terms,
        record,
        whole,
        after.version(order_id),
        now,
    );
    assert forall|
        kind: OrderKind,
        attrs: OrderAttrs,
        trail_as_t: bool,
        parent: Option<Seq<char>>,
    | !silent(lean, tag) implies #[trigger] texts_under(
        restated_fields(lean, kind, attrs, orig, named, trail_as_t, parent),
        tag,
    ) == texts_under(lean, tag) by {
        restating_keeps(lean, kind, attrs, orig, named, trail_as_t, parent, tag);
    }
}

/// A replacement states what it was asked to, each of its terms once: the name
/// it goes out under, one revision on from the last; the name the venue holds
/// the order under; the quantity it names; the side and the symbol the order
/// is tracked with; and where the order is working.
#[verifier::spinoff_prover]
pub proof fn a_replacement_is_stated_as_asked(
    before: Context,
    after: Context,
    known: Known,
    session: Seq<char>,
    said_before: Seq<Said>,
    said_after: Seq<Said>,
    order_id: u64,
    named: Named,
    statement: Option<OrderSpec>,
    m: Stated,
    now: Seq<char>,
    now_ns: u64,
)
    requires
        replacement_outcome(
            before,
            after,
            known,
            session,
            said_before,
            said_after,
            order_id,
            named,
            statement,
            Some(m),
            now,
            now_ns,
        ),
    ensures
        before.held(order_id) matches Some(orig) && {
            &&& says(m, 35, seq!['G'])
            &&& says(m, 52, now)
            &&& says(m, 38, qty_text(named.qty as int))
            &&& says(m, 54, side_text(orig.side))
            &&& before.version(order_id) < u32::MAX
            &&& says(
                m,
                11,
                digits(order_id as nat) + "."@ + digits((before.version(order_id) + 1) as nat),
            )
            &&& says(
                m,
                41,
                if before.last_clord@.dom().contains(order_id) {
                    before.last_clord@[order_id]@
                } else {
                    digits(order_id as nat) + "."@ + digits(before.version(order_id) as nat)
                },
            )
            &&& (orig.instrument as int) < before.slots@.len() ==> says(
                m,
                55,
                before.slots@[orig.instrument as int].symbol@,
            )
            &&& before.order_destination@.dom().contains(order_id) ==> {
                &&& says(m, 167, before.order_destination@[order_id].0@)
                &&& says(m, 100, before.order_destination@[order_id].1@)
                &&& says(m, 6210, before.order_destination@[order_id].1@)
            }
            &&& !before.order_destination@.dom().contains(order_id) && (orig.instrument as int)
                < before.slots@.len() ==> {
                &&& says(m, 167, before.slots@[orig.instrument as int].sec_type@)
                &&& says(m, 100, before.slots@[orig.instrument as int].destination@)
                &&& says(m, 6210, before.slots@[orig.instrument as int].destination@)
            }
            &&& named.outside_rth ==> says(m, 6433, seq!['1'])
            &&& 0 < named.tif < 128 ==> says(m, 59, seq![named.tif as char])
            &&& named.tif == 0 && 0 < orig.tif < 128 ==> says(m, 59, seq![orig.tif as char])
            &&& statement is None && before.placed(order_id) is None ==> says(m, 1, session)
            &&& statement is None ==> match before.placed(order_id) {
                Some(placed) => says(
                    m,
                    1,
                    if placed.attrs.account@.len() > 0 {
                        placed.attrs.account@
                    } else {
                        session
                    },
                ),
                None => says(m, 1, session),
            }
        },
{
    the_letters_of_names();
    let orig = before.held(order_id)->0;
    let record = record_after(before, known, order_id, statement);
    let whole = statement is Some;
    let terms = terms_after(orig, named, whole_shape(record, whole));
    let lean = lean_fields(
        before,
        session,
        order_id,
        orig,
        named,
        terms,
        record,
        whole,
        after.version(order_id),
        now,
    );
    let none = Seq::<Seq<char>>::empty();
    assert forall|tag: u32|
        tag != 40 && lean_tag(tag) implies #[trigger] says(
        m,
        tag,
        lean_text(
            before,
            session,
            order_id,
            orig,
            named,
            terms,
            record,
            after.version(order_id),
            now,
            tag,
        ),
    ) by {
        lean_says(
            before,
            session,
            order_id,
            orig,
            named,
            terms,
            record,
            whole,
            after.version(order_id),
            now,
            tag,
        );
        a_replacement_keeps(
            before,
            after,
            known,
            session,
            order_id,
            orig,
            named,
            record,
            whole,
            now,
            tag,
        );
    }
    let v = after.version(order_id);
    assert(says(m, 35, lean_text(before, session, order_id, orig, named, terms, record, v, now, 35)));
    assert(says(m, 52, lean_text(before, session, order_id, orig, named, terms, record, v, now, 52)));
    assert(says(m, 38, lean_text(before, session, order_id, orig, named, terms, record, v, now, 38)));
    assert(says(m, 54, lean_text(before, session, order_id, orig, named, terms, record, v, now, 54)));
    assert(says(m, 11, lean_text(before, session, order_id, orig, named, terms, record, v, now, 11)));
    assert(says(m, 41, lean_text(before, session, order_id, orig, named, terms, record, v, now, 41)));
    assert(says(m, 55, lean_text(before, session, order_id, orig, named, terms, record, v, now, 55)));
    assert(says(m, 167, lean_text(before, session, order_id, orig, named, terms, record, v, now, 167)));
    assert(says(m, 100, lean_text(before, session, order_id, orig, named, terms, record, v, now, 100)));
    assert(says(m, 6210, lean_text(before, session, order_id, orig, named, terms, record, v, now, 6210)));
    assert(says(m, 1, lean_text(before, session, order_id, orig, named, terms, record, v, now, 1)));
    assert forall|tag: u32|
        (tag == 6433 || tag == 59) && (#[trigger] texts_under(lean, tag)).len()
            > 0 implies texts_under(m, tag) == texts_under(lean, tag) by {
        a_replacement_keeps(
            before,
            after,
            known,
            session,
            order_id,
            orig,
            named,
            record,
            whole,
            now,
            tag,
        );
    }
    lean_says(before, session, order_id, orig, named, terms, record, whole, v, now, 6433);
    lean_says(before, session, order_id, orig, named, terms, record, whole, v, now, 59);
    if named.outside_rth {
        assert(texts_under(lean, 6433) =~= seq!["1"@]);
    }
    if terms.tif != TIF_UNSTATED {
        assert(texts_under(lean, 59) =~= seq![byte_text(terms.tif)]);
    }
}

/// The terms a replacement that states no shape whole settles on: the type it
/// names or the one the order has; the trigger of a type that is all trigger,
/// which is the price where no trigger is named.
pub open spec fn plain_terms(orig: Order, named: Named, ord_type: u8, trigger: i64) -> bool {
    let all_trigger = ord_type == 51 || ord_type == 74 || ord_type == 129;
    &&& named.ord_type != 0 ==> ord_type == named.ord_type
    &&& named.ord_type == 0 ==> ord_type == orig.ord_type
    &&& all_trigger && named.stop_price == 0 ==> trigger == named.price
    &&& all_trigger && named.stop_price != 0 ==> trigger == named.stop_price
    &&& (ord_type == 52 || ord_type == 128) && named.stop_price != 0 && (named.ord_type != 0
        || orig.stop_price != 0) ==> trigger == named.stop_price
    &&& (ord_type == 52 || ord_type == 128) && named.stop_price == 0 && ord_type == orig.ord_type
        ==> trigger == orig.stop_price
    &&& ord_type == 50 && orig.ord_type != 50 ==> trigger == 0
    &&& ord_type == 50 && orig.ord_type == 50 && orig.stop_price == 0 ==> trigger == 0
}

/// A replaced order is tracked with the quantity, the price and the time in
/// force the replacement names, on the side and the contract it was on, with
/// what it has filled, awaiting the venue's answer. What the venue held is kept
/// to be put back. Nothing is changed of any other order.
#[verifier::spinoff_prover]
pub proof fn a_replaced_order_is_tracked_as_asked(
    before: Context,
    after: Context,
    known: Known,
    session: Seq<char>,
    said_before: Seq<Said>,
    said_after: Seq<Said>,
    order_id: u64,
    named: Named,
    statement: Option<OrderSpec>,
    m: Stated,
    now: Seq<char>,
    now_ns: u64,
    other: u64,
)
    requires
        replacement_outcome(
            before,
            after,
            known,
            session,
            said_before,
            said_after,
            order_id,
            named,
            statement,
            Some(m),
            now,
            now_ns,
        ),
        other != order_id,
    ensures
        before.held(order_id) matches Some(orig) && after.held(order_id) matches Some(order) && {
            let version = (before.version(order_id) + 1) as u32;
            &&& order.order_id == order_id
            &&& order.qty == named.qty
            &&& order.side == orig.side
            &&& order.instrument == orig.instrument
            &&& order.filled == orig.filled
            &&& order.status is PendingReplace
            &&& named.tif != 0 ==> order.tif == named.tif
            &&& named.tif == 0 ==> order.tif == orig.tif
            &&& statement is None ==> order.price == named.price && plain_terms(
                orig,
                named,
                order.ord_type,
                order.stop_price,
            )
            &&& statement matches Some(whole) ==> crate::engine::order_builder::submit_laws::tracked_terms(
                whole.kind,
                order.ord_type,
                order.price,
                order.stop_price,
            )
            &&& after.version(order_id) == before.version(order_id) + 1
            &&& after.last_clord@.dom().contains(order_id)
            &&& after.last_clord@[order_id]@ == digits(order_id as nat) + "."@ + digits(
                (before.version(order_id) + 1) as nat,
            )
            &&& after.pre_replace@.dom().contains((order_id, version))
            &&& after.pre_replace@[(order_id, version)].order == orig
            &&& after.pre_replace@[(order_id, version)].record == before.placed(order_id)
            &&& statement is None && before.placed(order_id) is Some ==> after.placed(
                order_id,
            ) is Some && after.placed(order_id)->0.attrs == before.placed(order_id)->0.attrs
        },
        after.held(other) == before.held(other),
        after.placed(other) == before.placed(other),
        after.version(other) == before.version(other),
        after.last_clord@.dom().contains(other) <==> before.last_clord@.dom().contains(other),
        before.last_clord@.dom().contains(other) ==> after.last_clord@[other]
            == before.last_clord@[other],
        after.orders.keys() == before.orders.keys(),
        after.order_destination@ == before.order_destination@,
        said_after == said_before,
{
    let rest = before.last_clord@.remove(order_id);
    let rest_after = after.last_clord@.remove(order_id);
    assert(rest_after.dom().contains(other) <==> after.last_clord@.dom().contains(other));
    assert(rest.dom().contains(other) <==> before.last_clord@.dom().contains(other));
    if before.last_clord@.dom().contains(other) {
        assert(rest_after[other] == after.last_clord@[other]);
        assert(rest[other] == before.last_clord@[other]);
    }
}

/// A replacement of an order that is tracked, whose names have not run out and
/// whose type can be restated, is never refused in silence nor left out: it is
/// a message. One that is refused changes no order.
pub proof fn a_replacement_goes_or_is_refused(
    before: Context,
    after: Context,
    known: Known,
    session: Seq<char>,
    said_before: Seq<Said>,
    said_after: Seq<Said>,
    order_id: u64,
    named: Named,
    statement: Option<OrderSpec>,
    message: Option<Stated>,
    now: Seq<char>,
    now_ns: u64,
)
    requires
        replacement_outcome(
            before,
            after,
            known,
            session,
            said_before,
            said_after,
            order_id,
            named,
            statement,
            message,
            now,
            now_ns,
        ),
    ensures
        before.held(order_id) is Some && before.version(order_id) < u32::MAX && (statement is Some
            || before.placed(order_id) is Some || before.held(order_id)->0.ord_type == 50
            || before.held(order_id)->0.ord_type == 49 || before.held(order_id)->0.ord_type == 51
            || before.held(order_id)->0.ord_type == 52) ==> message is Some,
        before.held(order_id) is None ==> message is None,
        message is None ==> {
            &&& after.orders@ == before.orders@
            &&& after.submitted@ == before.submitted@
            &&& after.last_clord@ == before.last_clord@
            &&& after.modify_versions@ == before.modify_versions@
            &&& said_after.len() == said_before.len() + 2
            &&& said_after[said_before.len() as int] matches Said::Inactive {
                order_id: refused,
                op,
                ..
            } && refused == order_id && op is Modify
            &&& said_after.last() is CancelReject
        },
{
}

/// Two replacements that differ in quantity alone are stated apart, in what
/// they state as the quantity.
pub proof fn replacements_state_the_quantity_they_name(
    before: Context,
    after: Context,
    after_other: Context,
    known: Known,
    session: Seq<char>,
    said_before: Seq<Said>,
    said_after: Seq<Said>,
    said_after_other: Seq<Said>,
    order_id: u64,
    named: Named,
    qty: i64,
    statement: Option<OrderSpec>,
    m: Stated,
    other: Stated,
    now: Seq<char>,
    now_ns: u64,
)
    requires
        replacement_outcome(
            before,
            after,
            known,
            session,
            said_before,
            said_after,
            order_id,
            named,
            statement,
            Some(m),
            now,
            now_ns,
        ),
        replacement_outcome(
            before,
            after_other,
            known,
            session,
            said_before,
            said_after_other,
            order_id,
            Named { qty, ..named },
            statement,
            Some(other),
            now,
            now_ns,
        ),
        qty != named.qty,
    ensures
        texts_under(m, 38) != texts_under(other, 38),
        m != other,
{
    a_replacement_is_stated_as_asked(
        before,
        after,
        known,
        session,
        said_before,
        said_after,
        order_id,
        named,
        statement,
        m,
        now,
        now_ns,
    );
    a_replacement_is_stated_as_asked(
        before,
        after_other,
        known,
        session,
        said_before,
        said_after_other,
        order_id,
        Named { qty, ..named },
        statement,
        other,
        now,
        now_ns,
    );
    let one = texts_under(m, 38);
    let two = texts_under(other, 38);
    assert(one[0] == qty_text(named.qty as int));
    assert(two[0] == qty_text(qty as int));
    if one == two {
        crate::text_laws::a_quantity_is_written_one_way(named.qty as int, qty as int);
    }
}

/// A replacement that restates the order states, under every tag its own terms
/// are silent on, what the order carries: its shape with what the replacement
/// names written into it, and its attributes. Its type goes out under the name
/// of that shape.
#[verifier::spinoff_prover]
pub proof fn a_restated_order_states_what_it_carries(
    lean: Stated,
    kind: OrderKind,
    attrs: OrderAttrs,
    orig: Order,
    named: Named,
    trail_as_t: bool,
    parent: Option<Seq<char>>,
)
    requires
        !(kind is Attached),
        texts_under(lean, 40).len() == 1,
        silent(lean, 44) && silent(lean, 99) && silent(lean, 211) && silent(lean, 6117),
    ensures
        ({
            let again = restated(kind, named.price, named.stop_price);
            let shape = shape_fields(Seq::empty(), again, trail_as_t);
            let m = restated_fields(lean, kind, attrs, orig, named, trail_as_t, parent);
            &&& !two_part_mid(attrs, again) ==> type_said(Seq::empty(), m, again, trail_as_t)
            &&& two_part_mid(attrs, again) ==> says(m, 40, "PMID2"@)
            &&& prices_said(Seq::empty(), shape, again)
            &&& what_a_type_states_last(shape, m, attrs, again)
        }),
{
    broadcast use group_said;

    let again = restated(kind, named.price, named.stop_price);
    let shape = shape_fields(Seq::empty(), again, trail_as_t);
    let word = instruction_of(kind, trail_as_t);
    let carried = attr_fields(shape, attrs, again, orig.side, word, parent);
    let m = restated_fields(lean, kind, attrs, orig, named, trail_as_t, parent);
    assert(!(again is Attached));
    a_shape_states_its_type(Seq::empty(), again, trail_as_t);
    a_shape_states_its_prices(Seq::empty(), again, trail_as_t);
    an_order_states_what_a_type_states_last(shape, attrs, again, orig.side, word, parent);
    restating_keeps(lean, kind, attrs, orig, named, trail_as_t, parent, 44);
    restating_keeps(lean, kind, attrs, orig, named, trail_as_t, parent, 99);
    restating_keeps(lean, kind, attrs, orig, named, trail_as_t, parent, 211);
    restating_keeps(lean, kind, attrs, orig, named, trail_as_t, parent, 6117);
    the_first_field_says_the_first_text(shape, 40);
    let name = if two_part_mid(attrs, again) {
        "PMID2"@
    } else {
        texts_under(shape, 40)[0]
    };
    let lean_named = renamed(lean, 40, name);
    others_keep_their_texts(lean, 40, name, 40);
    assert(m == lean_named + unstated_by(carried, lean));
    assert(texts_under(lean_named, 40) =~= seq![name]);
    assert(texts_under(m, 40) =~= seq![name]);
    assert(texts_under(shape, 40) =~= seq![texts_under(shape, 40)[0]]);
}

/// A replacement that states a shape whole goes out as that shape: under its
/// type's name and with its own prices, and not with those of the order before.
#[verifier::spinoff_prover]
pub proof fn a_replacement_stated_whole_goes_out_as_its_shape(
    before: Context,
    after: Context,
    known: Known,
    session: Seq<char>,
    said_before: Seq<Said>,
    said_after: Seq<Said>,
    order_id: u64,
    named: Named,
    kind: OrderKind,
    attrs: OrderAttrs,
    m: Stated,
    now: Seq<char>,
    now_ns: u64,
)
    requires
        replacement_outcome(
            before,
            after,
            known,
            session,
            said_before,
            said_after,
            order_id,
            named,
            Some(OrderSpec { kind, attrs }),
            Some(m),
            now,
            now_ns,
        ),
        kind is Limit || kind is Market || kind is Stop || kind is StopLimit,
    ensures
        kind matches OrderKind::Limit { price } ==> says(m, 40, seq!['2']) && says(
            m,
            44,
            price_text(price as int),
        ) && silent(m, 99),
        kind matches OrderKind::Stop { stop_price } ==> says(m, 40, seq!['3']) && says(
            m,
            99,
            price_text(stop_price as int),
        ) && silent(m, 44),
        kind matches OrderKind::StopLimit { price, stop_price } ==> says(m, 40, seq!['4']) && says(
            m,
            44,
            price_text(price as int),
        ) && says(m, 99, price_text(stop_price as int)),
        kind is Market ==> says(m, 40, seq!['1']) && silent(m, 44) && silent(m, 99),
{
    let statement = Some(OrderSpec { kind, attrs });
    let orig = before.held(order_id)->0;
    let record = record_after(before, known, order_id, statement);
    let terms = terms_after(orig, named, whole_shape(record, true));
    let v = after.version(order_id);
    let lean = lean_fields(before, session, order_id, orig, named, terms, record, true, v, now);
    lean_says(before, session, order_id, orig, named, terms, record, true, v, now, 40);
    lean_says(before, session, order_id, orig, named, terms, record, true, v, now, 44);
    lean_says(before, session, order_id, orig, named, terms, record, true, v, now, 99);
    lean_says(before, session, order_id, orig, named, terms, record, true, v, now, 211);
    lean_says(before, session, order_id, orig, named, terms, record, true, v, now, 6117);
    let trail_as_t = takes_trails_as_t(known);
    assert(record->0.kind == kind);
    assert(restated(kind, named.price, named.stop_price) == kind);
    assert forall|carried: OrderAttrs, parent: Option<Seq<char>>|
        #![trigger restated_fields(lean, kind, carried, orig, named, trail_as_t, parent)]
        type_said(
            Seq::empty(),
            restated_fields(lean, kind, carried, orig, named, trail_as_t, parent),
            kind,
            trail_as_t,
        ) && what_a_type_states_last(
            shape_fields(Seq::empty(), kind, trail_as_t),
            restated_fields(lean, kind, carried, orig, named, trail_as_t, parent),
            carried,
            kind,
        ) by {
        a_restated_order_states_what_it_carries(
            lean,
            kind,
            carried,
            orig,
            named,
            trail_as_t,
            parent,
        );
    }
    a_shape_states_its_prices(Seq::empty(), kind, trail_as_t);
}

} // verus!
