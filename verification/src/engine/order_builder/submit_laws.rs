//! What a new order is stated and tracked as.

use crate::engine::context::Context;
use crate::engine::known::Known;
use crate::engine::order_builder::attr_laws::{
    an_order_states_what_a_type_states_last, attribute_tag, attributes_say_nothing_else,
    what_a_type_states_last,
};
use crate::engine::order_builder::attrs::{attr_fields, two_part_mid};
use crate::engine::order_builder::fields::{without, Stated};
use crate::engine::order_builder::identity::identity_fields;
use crate::engine::order_builder::identity_laws::{
    a_message_names_its_contract, a_name_is_said_behind_the_rest, names_the_contract,
};
use crate::engine::order_builder::shape::{instruction_of, shape_fields, stated_prices};
use crate::engine::order_builder::submit::{
    ladder_fields, level_fields, opening_fields, parent_name, routing_fields, submission_recorded,
    submit_fields, takes_trails_as_t,
};
use crate::engine::order_builder::wire::{
    a_tag_stated_nowhere, a_tag_stated_once, group_said, more, others_keep_their_texts, says, silent, texts_under,
};
use crate::text::{decimal, digits, hundredths, price_text, qty_text};
use crate::types::attrs::OrderAttrs;
use crate::types::kinds::{AttachedPrice, OrderKind, Side};
use crate::types::orders::InstrumentId;
use vstd::prelude::*;

verus! {

/// How a side is written: a one where it buys, a two where it sells, a five
/// where it sells short.
pub open spec fn side_text(side: Side) -> Seq<char> {
    match side {
        Side::Buy => seq!['1'],
        Side::Sell => seq!['2'],
        Side::ShortSell => seq!['5'],
    }
}

/// A time in force, or a type of one character, as it is written.
pub open spec fn letter(byte: u8) -> Seq<char> {
    seq![byte as char]
}

/// Whether a shape states a tag: its type, its prices and their companions, or
/// a price of a child's own list.
pub open spec fn shape_tag(kind: OrderKind, tag: u32) -> bool {
    ||| tag == 40 || tag == 44 || tag == 99 || tag == 211 || tag == 6268 || tag == 6370
    ||| tag == 6941 || tag == 6938 || tag == 6939 || tag == 6942 || tag == 6580
    ||| (kind matches OrderKind::Attached { prices, .. } && exists|i: int|
        0 <= i < prices@.len() && (#[trigger] prices@[i]).tag == tag)
}

proof fn prices_say_only_their_own(prices: Seq<AttachedPrice>, tag: u32)
    requires
        forall|i: int| 0 <= i < prices.len() ==> (#[trigger] prices[i]).tag != tag,
    ensures
        texts_under(stated_prices(prices), tag) == Seq::<Seq<char>>::empty(),
    decreases prices.len(),
{
    if prices.len() > 0 {
        prices_say_only_their_own(prices.drop_last(), tag);
        assert(stated_prices(prices).drop_last() =~= stated_prices(prices.drop_last()));
        assert(prices[prices.len() - 1].tag != tag);
    }
}

/// A shape says nothing under the tags that are not its own.
#[verifier::spinoff_prover]
pub proof fn a_shape_keeps(f: Stated, kind: OrderKind, trail_as_t: bool, tag: u32)
    requires
        !shape_tag(kind, tag),
    ensures
        texts_under(shape_fields(f, kind, trail_as_t), tag) == texts_under(f, tag),
{
    broadcast use group_said;

    match kind {
        OrderKind::Attached { prices, .. } => {
            prices_say_only_their_own(prices@, tag);
            assert(texts_under(f, tag) + Seq::<Seq<char>>::empty() =~= texts_under(f, tag));
        },
        _ => {},
    }
}

/// What the type of a shape goes out as. A trailing stop goes out under a name
/// of its own where the venue takes it.
pub open spec fn type_said(before: Stated, after: Stated, kind: OrderKind, trail_as_t: bool) -> bool {
    let name = match kind {
        OrderKind::Attached { ord_type, .. } => ord_type@,
        OrderKind::Market => seq!['1'],
        OrderKind::Limit { .. } => seq!['2'],
        OrderKind::Stop { .. } => seq!['3'],
        OrderKind::StopLimit { .. } => seq!['4'],
        OrderKind::AdjustableStop { .. } => seq!['3'],
        OrderKind::TrailingStop { .. } => if trail_as_t {
            seq!['T']
        } else {
            seq!['P']
        },
        OrderKind::TrailPct { .. } => if trail_as_t {
            seq!['T']
        } else {
            seq!['P']
        },
        OrderKind::TrailingStopLimit { .. } => seq!['T', 'S', 'L'],
        OrderKind::Moc => seq!['5'],
        OrderKind::Loc { .. } => seq!['B'],
        OrderKind::Mit { .. } => seq!['J'],
        OrderKind::Lit { .. } => seq!['L', 'T'],
        OrderKind::Mtl => seq!['K'],
        OrderKind::MktPrt => seq!['U'],
        OrderKind::StpPrt { .. } => seq!['S', 'P'],
        OrderKind::MidPrice { .. } => seq!['M', 'I', 'D', 'P', 'X'],
        OrderKind::SnapMkt { .. } => seq!['S', 'M', 'K', 'T'],
        OrderKind::SnapMid { .. } => seq!['S', 'M', 'I', 'D'],
        OrderKind::SnapPri { .. } => seq!['S', 'R', 'E', 'L'],
        OrderKind::PegMkt { .. } => seq!['P'],
        OrderKind::PegMid { .. } => seq!['P'],
        OrderKind::Rel { .. } => seq!['P'],
        OrderKind::PassiveRel { .. } => seq!['P', 'S', 'V', 'R'],
        OrderKind::PegBest { .. } => seq!['E', '2', 'M'],
        OrderKind::PegBench { .. } => seq!['P', 'B'],
        OrderKind::Adaptive { .. } => seq!['2'],
        OrderKind::Algo { .. } => seq!['2'],
    };
    texts_under(after, 40) == texts_under(before, 40).push(name)
}

/// The limit, the trigger, and the trail or the offset a shape goes out with.
pub open spec fn prices_said(before: Stated, after: Stated, kind: OrderKind) -> bool {
    let limit = match kind {
        OrderKind::Limit { price } => Some(price),
        OrderKind::StopLimit { price, .. } => Some(price),
        OrderKind::Loc { price } => Some(price),
        OrderKind::Lit { price, .. } => Some(price),
        OrderKind::PegBest { price } => Some(price),
        OrderKind::Adaptive { price, .. } => Some(price),
        OrderKind::Algo { price, .. } => Some(price),
        OrderKind::Rel { price_cap, .. } => if price_cap != 0 {
            Some(price_cap)
        } else {
            None
        },
        _ => None,
    };
    let trigger = match kind {
        OrderKind::Stop { stop_price } => Some(price_text(stop_price as int)),
        OrderKind::StopLimit { stop_price, .. } => Some(price_text(stop_price as int)),
        OrderKind::AdjustableStop { stop_price, .. } => Some(price_text(stop_price as int)),
        OrderKind::Mit { stop_price } => Some(price_text(stop_price as int)),
        OrderKind::Lit { stop_price, .. } => Some(price_text(stop_price as int)),
        OrderKind::StpPrt { stop_price } => Some(price_text(stop_price as int)),
        OrderKind::TrailingStop { trail_amt, .. } => Some(price_text(trail_amt as int)),
        OrderKind::TrailingStopLimit { trail_amt, .. } => Some(price_text(trail_amt as int)),
        OrderKind::TrailPct { trail_pct, .. } => Some(hundredths(trail_pct as nat)),
        OrderKind::PegBench { starting_price, .. } => Some(price_text(starting_price as int)),
        _ => None,
    };
    let offset = match kind {
        OrderKind::TrailingStop { trail_amt, .. } => Some(price_text(trail_amt as int)),
        OrderKind::TrailingStopLimit { trail_amt, .. } => Some(price_text(trail_amt as int)),
        OrderKind::TrailPct { trail_pct, .. } => Some(hundredths(trail_pct as nat)),
        OrderKind::SnapMkt { offset } => Some(price_text(offset as int)),
        OrderKind::SnapMid { offset } => Some(price_text(offset as int)),
        OrderKind::SnapPri { offset } => Some(price_text(offset as int)),
        OrderKind::Rel { offset, .. } => Some(price_text(offset as int)),
        _ => None,
    };
    &&& texts_under(after, 44) == more(
        texts_under(before, 44),
        limit is Some,
        price_text(limit->0 as int),
    )
    &&& texts_under(after, 99) == more(texts_under(before, 99), trigger is Some, trigger->0)
    &&& texts_under(after, 211) == more(texts_under(before, 211), offset is Some, offset->0)
}

/// What a trail, and a peg to a benchmark, state beside their prices.
pub open spec fn companions_said(before: Stated, after: Stated, kind: OrderKind) -> bool {
    &&& texts_under(after, 6268) == more(
        texts_under(before, 6268),
        kind is TrailingStop || kind is TrailingStopLimit || kind is TrailPct,
        if kind is TrailPct {
            seq!['1', '0', '0']
        } else {
            seq!['0']
        },
    )
    &&& kind matches OrderKind::TrailingStopLimit { lmt_offset, .. } ==> texts_under(after, 6370)
        == texts_under(before, 6370).push(price_text(lmt_offset as int))
    &&& kind matches OrderKind::PegBench {
        ref_con_id,
        is_peg_decrease,
        pegged_change_amount,
        ref_change_amount,
        stock_ref_price,
        ref_exchange,
        ..
    } ==> {
        &&& texts_under(after, 6941) == texts_under(before, 6941).push(decimal(ref_con_id as int))
        &&& pegged_change_amount > i64::MIN ==> texts_under(after, 6938) == texts_under(
            before,
            6938,
        ).push(
            price_text(
                if is_peg_decrease {
                    -pegged_change_amount
                } else {
                    pegged_change_amount as int
                },
            ),
        )
        &&& texts_under(after, 6939) == texts_under(before, 6939).push(
            price_text(ref_change_amount as int),
        )
        &&& texts_under(after, 6942) == texts_under(before, 6942).push(ref_exchange@)
        &&& texts_under(after, 6580) == texts_under(before, 6580).push(
            price_text(stock_ref_price as int),
        )
    }
}

/// The letters of the names a message is made of.
pub proof fn the_letters_of_names()
    ensures
        "0"@ == seq!['0'],
        "1"@ == seq!['1'],
        "2"@ == seq!['2'],
        "3"@ == seq!['3'],
        "4"@ == seq!['4'],
        "5"@ == seq!['5'],
        "B"@ == seq!['B'],
        "D"@ == seq!['D'],
        "F"@ == seq!['F'],
        "G"@ == seq!['G'],
        "J"@ == seq!['J'],
        "K"@ == seq!['K'],
        "P"@ == seq!['P'],
        "T"@ == seq!['T'],
        "U"@ == seq!['U'],
        "LT"@ == seq!['L', 'T'],
        "SP"@ == seq!['S', 'P'],
        "PB"@ == seq!['P', 'B'],
        "TSL"@ == seq!['T', 'S', 'L'],
        "E2M"@ == seq!['E', '2', 'M'],
        "100"@ == seq!['1', '0', '0'],
        "SMKT"@ == seq!['S', 'M', 'K', 'T'],
        "SMID"@ == seq!['S', 'M', 'I', 'D'],
        "SREL"@ == seq!['S', 'R', 'E', 'L'],
        "PSVR"@ == seq!['P', 'S', 'V', 'R'],
        "MIDPX"@ == seq!['M', 'I', 'D', 'P', 'X'],
{
    reveal_strlit("0");
    reveal_strlit("1");
    reveal_strlit("2");
    reveal_strlit("3");
    reveal_strlit("4");
    reveal_strlit("5");
    reveal_strlit("B");
    reveal_strlit("D");
    reveal_strlit("F");
    reveal_strlit("G");
    reveal_strlit("J");
    reveal_strlit("K");
    reveal_strlit("P");
    reveal_strlit("T");
    reveal_strlit("U");
    reveal_strlit("LT");
    reveal_strlit("SP");
    reveal_strlit("PB");
    reveal_strlit("TSL");
    reveal_strlit("E2M");
    reveal_strlit("100");
    reveal_strlit("SMKT");
    reveal_strlit("SMID");
    reveal_strlit("SREL");
    reveal_strlit("PSVR");
    reveal_strlit("MIDPX");
    assert("0"@ =~= seq!['0'] && "1"@ =~= seq!['1'] && "2"@ =~= seq!['2'] && "3"@ =~= seq!['3']);
    assert("4"@ =~= seq!['4'] && "5"@ =~= seq!['5'] && "B"@ =~= seq!['B'] && "D"@ =~= seq!['D']);
    assert("F"@ =~= seq!['F'] && "G"@ =~= seq!['G'] && "J"@ =~= seq!['J'] && "K"@ =~= seq!['K']);
    assert("P"@ =~= seq!['P'] && "T"@ =~= seq!['T'] && "U"@ =~= seq!['U']);
    assert("LT"@ =~= seq!['L', 'T'] && "SP"@ =~= seq!['S', 'P'] && "PB"@ =~= seq!['P', 'B']);
    assert("TSL"@ =~= seq!['T', 'S', 'L'] && "E2M"@ =~= seq!['E', '2', 'M']);
    assert("100"@ =~= seq!['1', '0', '0']);
    assert("SMKT"@ =~= seq!['S', 'M', 'K', 'T'] && "SMID"@ =~= seq!['S', 'M', 'I', 'D']);
    assert("SREL"@ =~= seq!['S', 'R', 'E', 'L'] && "PSVR"@ =~= seq!['P', 'S', 'V', 'R']);
    assert("MIDPX"@ =~= seq!['M', 'I', 'D', 'P', 'X']);
}

/// A shape states its type once, under that type's own name.
#[verifier::spinoff_prover]
#[verifier::rlimit(60)]
pub proof fn a_shape_states_its_type(f: Stated, kind: OrderKind, trail_as_t: bool)
    requires
        !(kind is Attached),
    ensures
        type_said(f, shape_fields(f, kind, trail_as_t), kind, trail_as_t),
{
    broadcast use group_said;

    the_letters_of_names();
}

/// A shape states the prices and offsets of its type, and no other's.
#[verifier::spinoff_prover]
#[verifier::rlimit(60)]
pub proof fn a_shape_states_its_prices(f: Stated, kind: OrderKind, trail_as_t: bool)
    requires
        !(kind is Attached),
    ensures
        prices_said(f, shape_fields(f, kind, trail_as_t), kind),
{
    broadcast use group_said;

}

/// A trail states the unit it is in, and a peg what it is pegged to and how
/// far it moves.
#[verifier::spinoff_prover]
#[verifier::rlimit(60)]
pub proof fn a_shape_states_its_companions(f: Stated, kind: OrderKind, trail_as_t: bool)
    requires
        !(kind is Attached),
    ensures
        companions_said(f, shape_fields(f, kind, trail_as_t), kind),
{
    broadcast use group_said;

    the_letters_of_names();
}

/// Whether what names a contract is stated under a tag.
pub open spec fn identity_tag(tag: u32) -> bool {
    tag == 6008 || tag == 200 || tag == 541 || tag == 48 || tag == 22 || tag == 6058 || tag == 6035
        || tag == 202 || tag == 201 || tag == 231
}

/// What names a contract says nothing under the other tags.
#[verifier::spinoff_prover]
pub proof fn an_identity_keeps(
    f: Stated,
    context: Context,
    instrument: InstrumentId,
    attached: Option<i64>,
    tag: u32,
)
    requires
        !identity_tag(tag),
    ensures
        texts_under(identity_fields(f, context, instrument, attached), tag) == texts_under(f, tag),
{
    broadcast use group_said;

    let con_id = match attached {
        Some(con_id) => Some(con_id),
        None => context.con_id(instrument),
    };
    let g = match con_id {
        Some(con_id) => crate::engine::order_builder::fields::also(
            f,
            con_id != 0,
            6008,
            decimal(con_id as int),
        ),
        None => f,
    };
    assert(texts_under(g, tag) == texts_under(f, tag));
}

spec fn routing_tag(tag: u32) -> bool {
    tag == 6121 || tag == 6119 || tag == 6088 || tag == 204 || tag == 6122 || tag == 6211 || tag
        == 100 || tag == 6210 || tag == 15
}

#[verifier::spinoff_prover]
proof fn routing_keeps(
    f: Stated,
    context: Context,
    known: Known,
    instrument: InstrumentId,
    attrs: OrderAttrs,
    tag: u32,
)
    requires
        !identity_tag(tag),
        !routing_tag(tag),
    ensures
        texts_under(routing_fields(f, context, known, instrument, attrs), tag) == texts_under(
            f,
            tag,
        ),
{
    broadcast use group_said;

    let attached = crate::engine::order_builder::submit::family_contract(attrs);
    let named = identity_fields(f, context, instrument, attached);
    an_identity_keeps(f, context, instrument, attached, tag);
}

#[verifier::spinoff_prover]
proof fn routing_says(
    f: Stated,
    context: Context,
    known: Known,
    instrument: InstrumentId,
    attrs: OrderAttrs,
)
    requires
        silent(f, 100) && silent(f, 6210) && silent(f, 15) && silent(f, 6121) && silent(f, 6119),
        silent(f, 6122),
    ensures
        ({
            let m = routing_fields(f, context, known, instrument, attrs);
            let slot = context.slots@[instrument as int];
            &&& (instrument as int) < context.slots@.len() ==> says(m, 100, slot.destination@)
                && says(m, 6210, slot.destination@)
            &&& (instrument as int) < context.slots@.len() && slot.currency is Some ==> says(
                m,
                15,
                slot.currency->0@,
            )
            &&& attrs.origin == 0 ==> says(m, 6122, seq!['c'])
            &&& attrs.attached matches Some(attached) ==> attached.api_identity matches Some(
                (one, other),
            ) ==> says(m, 6121, decimal(one as int)) && says(m, 6119, decimal(other as int))
        }),
{
    broadcast use group_said;

    reveal_strlit("c");
    assert("c"@ =~= seq!['c']);
    let attached = crate::engine::order_builder::submit::family_contract(attrs);
    let named = identity_fields(f, context, instrument, attached);
    an_identity_keeps(f, context, instrument, attached, 100);
    an_identity_keeps(f, context, instrument, attached, 6210);
    an_identity_keeps(f, context, instrument, attached, 15);
    an_identity_keeps(f, context, instrument, attached, 6121);
    an_identity_keeps(f, context, instrument, attached, 6119);
    an_identity_keeps(f, context, instrument, attached, 6122);
    let m = routing_fields(f, context, known, instrument, attrs);
    let slot = context.slots@[instrument as int];
    if (instrument as int) < context.slots@.len() {
        assert(texts_under(m, 100) =~= seq![slot.destination@]);
        assert(texts_under(m, 6210) =~= seq![slot.destination@]);
        if slot.currency is Some {
            assert(texts_under(m, 15) =~= seq![slot.currency->0@]);
        }
    }
    if attrs.origin == 0 {
        assert(texts_under(m, 6122) =~= seq![seq!['c']]);
    }
    if attrs.attached is Some && attrs.attached->0.api_identity is Some {
        let (one, other) = attrs.attached->0.api_identity->0;
        assert(texts_under(m, 6121) =~= seq![decimal(one as int)]);
        assert(texts_under(m, 6119) =~= seq![decimal(other as int)]);
    }
}

proof fn levels_keep(f: Stated, levels: Seq<(String, String)>, tag: u32)
    requires
        tag != 6447 && tag != 6448,
    ensures
        texts_under(level_fields(f, levels), tag) == texts_under(f, tag),
    decreases levels.len(),
{
    broadcast use group_said;

    if levels.len() > 0 {
        levels_keep(f, levels.drop_last(), tag);
    }
}

/// A ladder stated as a table states how many levels it has, and the price and
/// the quantity of each, in order, and no restart.
pub proof fn a_ladder_states_each_level(f: Stated, attrs: OrderAttrs, table: Vec<(String, String)>)
    requires
        attrs.scale is Some && attrs.scale->0.table == Some(table),
        silent(f, 6450) && silent(f, 6447) && silent(f, 6448),
    ensures
        ({
            let m = ladder_fields(f, attrs);
            &&& says(m, 6450, digits(table@.len()))
            &&& texts_under(m, 6447) == table@.map_values(|level: (String, String)| level.1@)
            &&& texts_under(m, 6448) == table@.map_values(|level: (String, String)| level.0@)
            &&& silent(m, 6461)
        }),
{
    broadcast use group_said;

    let g = without(f, 6461).push((6450u32, digits(table@.len())));
    levels_keep(g, table@, 6450);
    levels_keep(g, table@, 6461);
    each_level_is_said(g, table@);
    let m = ladder_fields(f, attrs);
    assert(texts_under(m, 6450) =~= seq![digits(table@.len())]);
    assert(texts_under(m, 6447) =~= table@.map_values(|level: (String, String)| level.1@));
    assert(texts_under(m, 6448) =~= table@.map_values(|level: (String, String)| level.0@));
}

proof fn each_level_is_said(f: Stated, levels: Seq<(String, String)>)
    ensures
        texts_under(level_fields(f, levels), 6447) == texts_under(f, 6447) + levels.map_values(
            |level: (String, String)| level.1@,
        ),
        texts_under(level_fields(f, levels), 6448) == texts_under(f, 6448) + levels.map_values(
            |level: (String, String)| level.0@,
        ),
    decreases levels.len(),
{
    broadcast use group_said;

    if levels.len() > 0 {
        each_level_is_said(f, levels.drop_last());
    }
    assert(texts_under(level_fields(f, levels), 6447) =~= texts_under(f, 6447) + levels.map_values(
        |level: (String, String)| level.1@,
    ));
    assert(texts_under(level_fields(f, levels), 6448) =~= texts_under(f, 6448) + levels.map_values(
        |level: (String, String)| level.0@,
    ));
}

proof fn a_ladder_keeps(f: Stated, attrs: OrderAttrs, tag: u32)
    requires
        tag != 6461 && tag != 6450 && tag != 6447 && tag != 6448,
    ensures
        texts_under(ladder_fields(f, attrs), tag) == texts_under(f, tag),
{
    broadcast use group_said;

    match attrs.scale {
        Some(scale) => match scale.table {
            Some(table) => {
                levels_keep(
                    without(f, 6461).push((6450u32, digits(table@.len()))),
                    table@,
                    tag,
                );
            },
            None => {},
        },
        None => {},
    }
}

/// Behind its contract and its route, a new order says under the tags that are
/// no attribute's what it said before.
#[verifier::spinoff_prover]
proof fn the_rest_keeps(
    context: Context,
    known: Known,
    session: Seq<char>,
    order_id: u64,
    instrument: InstrumentId,
    side: Side,
    qty: i64,
    kind: OrderKind,
    tif: u8,
    attrs: OrderAttrs,
    now: Seq<char>,
    tag: u32,
)
    requires
        tag != 8262 && tag != 6461 && tag != 6450 && tag != 6447 && tag != 6448,
    ensures
        ({
            let f = opening_fields(
                context,
                known,
                session,
                order_id,
                instrument,
                side,
                qty,
                kind,
                tif,
                attrs,
                now,
            );
            let g = attr_fields(
                routing_fields(f, context, known, instrument, attrs),
                attrs,
                kind,
                side,
                instruction_of(kind, takes_trails_as_t(known)),
                parent_name(context, attrs),
            );
            let m = submit_fields(
                context,
                known,
                session,
                order_id,
                instrument,
                side,
                qty,
                kind,
                tif,
                attrs,
                now,
            );
            &&& tag != 40 || !two_part_mid(attrs, kind) ==> texts_under(m, tag) == texts_under(
                g,
                tag,
            )
            &&& !attribute_tag(tag) ==> texts_under(g, tag) == texts_under(
                routing_fields(f, context, known, instrument, attrs),
                tag,
            )
        }),
{
    broadcast use group_said;

    let f = opening_fields(
        context,
        known,
        session,
        order_id,
        instrument,
        side,
        qty,
        kind,
        tif,
        attrs,
        now,
    );
    let routed = routing_fields(f, context, known, instrument, attrs);
    let word = instruction_of(kind, takes_trails_as_t(known));
    let parent = parent_name(context, attrs);
    let g = attr_fields(routed, attrs, kind, side, word, parent);
    if !attribute_tag(tag) {
        attributes_say_nothing_else(routed, attrs, kind, side, word, parent, tag);
    }
    let h = if two_part_mid(attrs, kind) {
        crate::engine::order_builder::fields::renamed(g, 40, "PMID2"@)
    } else {
        g
    };
    let k = crate::engine::order_builder::fields::also(
        h,
        crate::engine::order_builder::submit::prices_its_hedge(attrs, kind, known),
        8262,
        "1"@,
    );
    a_ladder_keeps(k, attrs, tag);
}

/// A new order is stated as it was asked for, each of its terms once: what the
/// message is, the order's own name, the account, the contract's symbol, the
/// side, the quantity, the time in force, the moment, and where it goes.
#[verifier::spinoff_prover]
pub proof fn a_new_order_is_stated_as_asked(
    context: Context,
    known: Known,
    session: Seq<char>,
    order_id: u64,
    instrument: InstrumentId,
    side: Side,
    qty: i64,
    kind: OrderKind,
    tif: u8,
    attrs: OrderAttrs,
    now: Seq<char>,
)
    requires
        (instrument as int) < context.slots@.len(),
        tif < 128,
        lists_no_term(kind),
    ensures
        ({
            let m = submit_fields(
                context,
                known,
                session,
                order_id,
                instrument,
                side,
                qty,
                kind,
                tif,
                attrs,
                now,
            );
            let slot = context.slots@[instrument as int];
            &&& says(m, 35, seq!['D'])
            &&& says(m, 52, now) && says(m, 60, now)
            &&& says(
                m,
                11,
                digits(order_id as nat) + "."@ + digits(context.version(order_id) as nat),
            )
            &&& says(
                m,
                1,
                if attrs.account@.len() > 0 {
                    attrs.account@
                } else {
                    session
                },
            )
            &&& says(m, 55, slot.symbol@)
            &&& says(m, 54, side_text(side))
            &&& says(m, 38, qty_text(qty as int))
            &&& says(m, 59, letter(tif))
            &&& says(m, 167, slot.sec_type@)
            &&& says(m, 100, slot.destination@) && says(m, 6210, slot.destination@)
            &&& slot.currency is Some ==> says(m, 15, slot.currency->0@)
            &&& attrs.attached matches Some(attached) ==> attached.api_identity matches Some(
                (one, other),
            ) ==> says(m, 6121, decimal(one as int)) && says(m, 6119, decimal(other as int))
        }),
{
    the_letters_of_names();
    let f = opening_fields(
        context,
        known,
        session,
        order_id,
        instrument,
        side,
        qty,
        kind,
        tif,
        attrs,
        now,
    );
    the_opening_says(
        context,
        known,
        session,
        order_id,
        instrument,
        side,
        qty,
        kind,
        tif,
        attrs,
        now,
    );
    routing_says(f, context, known, instrument, attrs);
    assert forall|tag: u32|
        tag == 35 || tag == 52 || tag == 11 || tag == 1 || tag == 55 || tag == 54 || tag == 38
            || tag == 59 || tag == 60 || tag == 167 implies #[trigger] texts_under(
        submit_fields(
            context,
            known,
            session,
            order_id,
            instrument,
            side,
            qty,
            kind,
            tif,
            attrs,
            now,
        ),
        tag,
    ) == texts_under(f, tag) by {
        the_rest_keeps(
            context,
            known,
            session,
            order_id,
            instrument,
            side,
            qty,
            kind,
            tif,
            attrs,
            now,
            tag,
        );
        routing_keeps(f, context, known, instrument, attrs, tag);
    }
    assert forall|tag: u32|
        tag == 100 || tag == 6210 || tag == 15 || tag == 6121 || tag
            == 6119 implies #[trigger] texts_under(
        submit_fields(
            context,
            known,
            session,
            order_id,
            instrument,
            side,
            qty,
            kind,
            tif,
            attrs,
            now,
        ),
        tag,
    ) == texts_under(routing_fields(f, context, known, instrument, attrs), tag) by {
        the_rest_keeps(
            context,
            known,
            session,
            order_id,
            instrument,
            side,
            qty,
            kind,
            tif,
            attrs,
            now,
            tag,
        );
    }
}

#[verifier::spinoff_prover]
proof fn the_opening_says(
    context: Context,
    known: Known,
    session: Seq<char>,
    order_id: u64,
    instrument: InstrumentId,
    side: Side,
    qty: i64,
    kind: OrderKind,
    tif: u8,
    attrs: OrderAttrs,
    now: Seq<char>,
)
    requires
        (instrument as int) < context.slots@.len(),
        tif < 128,
        lists_no_term(kind),
    ensures
        ({
            let f = opening_fields(
                context,
                known,
                session,
                order_id,
                instrument,
                side,
                qty,
                kind,
                tif,
                attrs,
                now,
            );
            let slot = context.slots@[instrument as int];
            &&& says(f, 35, seq!['D'])
            &&& says(f, 52, now) && says(f, 60, now)
            &&& says(
                f,
                11,
                digits(order_id as nat) + "."@ + digits(context.version(order_id) as nat),
            )
            &&& says(
                f,
                1,
                if attrs.account@.len() > 0 {
                    attrs.account@
                } else {
                    session
                },
            )
            &&& says(f, 55, slot.symbol@)
            &&& says(f, 54, side_text(side))
            &&& says(f, 38, qty_text(qty as int))
            &&& says(f, 59, letter(tif))
            &&& says(f, 167, slot.sec_type@)
            &&& silent(f, 100) && silent(f, 6210) && silent(f, 15) && silent(f, 6121)
            &&& silent(f, 6119) && silent(f, 6122)
        }),
{
    broadcast use group_said;

    the_letters_of_names();
    let start: Stated = seq![
        (35u32, "D"@),
        (52u32, now),
        (
            11u32,
            crate::engine::order_builder::cancel::revision_name(
                order_id,
                context.version(order_id),
            ),
        ),
        (1u32, crate::engine::order_builder::cancel::order_account(attrs, session)),
        (55u32, context.symbol(instrument)),
        (54u32, crate::engine::order_builder::shape::side_code(side)),
        (38u32, qty_text(qty as int)),
    ];
    let shaped = shape_fields(start, kind, takes_trails_as_t(known));
    assert forall|tag: u32|
        tag == 35 || tag == 52 || tag == 11 || tag == 1 || tag == 55 || tag == 54 || tag == 38
            || tag == 59 || tag == 60 || tag == 167 || tag == 100 || tag == 6210 || tag == 15 || tag
            == 6121 || tag == 6119 || tag == 6122 implies #[trigger] texts_under(shaped, tag)
        == texts_under(start, tag) by {
        assert(!shape_tag(kind, tag));
        a_shape_keeps(start, kind, takes_trails_as_t(known), tag);
    }
    a_tag_stated_once(start, 0);
    a_tag_stated_once(start, 1);
    a_tag_stated_once(start, 2);
    a_tag_stated_once(start, 3);
    a_tag_stated_once(start, 4);
    a_tag_stated_once(start, 5);
    a_tag_stated_once(start, 6);
    a_tag_stated_nowhere(start, 59);
    a_tag_stated_nowhere(start, 60);
    a_tag_stated_nowhere(start, 167);
    a_tag_stated_nowhere(start, 100);
    a_tag_stated_nowhere(start, 6210);
    a_tag_stated_nowhere(start, 15);
    a_tag_stated_nowhere(start, 6121);
    a_tag_stated_nowhere(start, 6119);
    a_tag_stated_nowhere(start, 6122);
    let f = opening_fields(
        context,
        known,
        session,
        order_id,
        instrument,
        side,
        qty,
        kind,
        tif,
        attrs,
        now,
    );
    assert(texts_under(f, 59) =~= seq![letter(tif)]);
    assert(texts_under(f, 60) =~= seq![now]);
    assert(texts_under(f, 167) =~= seq![context.slots@[instrument as int].sec_type@]);
}

/// Whether the prices a child lists are under none of the tags every order is
/// stated under.
pub open spec fn lists_no_term(kind: OrderKind) -> bool {
    forall|tag: u32|
        #![trigger shape_tag(kind, tag)]
        tag == 35 || tag == 52 || tag == 11 || tag == 1 || tag == 55 || tag == 54 || tag == 38
            || tag == 59 || tag == 60 || tag == 167 || tag == 100 || tag == 6210 || tag == 15
            || tag == 6121 || tag == 6119 || tag == 6122 ==> !shape_tag(kind, tag)
}

/// A new order states the side it is on: a one exactly where it buys, a two
/// exactly where it sells, and a five exactly where it sells short. It is
/// tracked on that side.
pub proof fn a_new_order_is_on_the_side_it_states(
    after: Context,
    context: Context,
    known: Known,
    session: Seq<char>,
    order_id: u64,
    instrument: InstrumentId,
    side: Side,
    qty: i64,
    kind: OrderKind,
    tif: u8,
    attrs: OrderAttrs,
    now: Seq<char>,
)
    requires
        (instrument as int) < context.slots@.len(),
        tif < 128,
        lists_no_term(kind),
        submission_recorded(context, after, order_id, instrument, side, qty, kind, tif, attrs),
    ensures
        ({
            let m = submit_fields(context, known, session, order_id, instrument, side, qty, kind, tif, attrs, now);
            &&& says(m, 54, seq!['1']) <==> side is Buy
            &&& says(m, 54, seq!['2']) <==> side is Sell
            &&& says(m, 54, seq!['5']) <==> side is ShortSell
            &&& after.orders@.dom().contains(order_id)
            &&& says(m, 54, side_text(after.orders@[order_id].side))
        }),
{
    a_new_order_is_stated_as_asked(context, known, session, order_id, instrument, side, qty, kind, tif, attrs, now);
    let m = submit_fields(context, known, session, order_id, instrument, side, qty, kind, tif, attrs, now);
    let said = texts_under(m, 54);
    assert(said[0] == side_text(side));
    assert(said[0][0] == side_text(side)[0]);
    if says(m, 54, seq!['1']) {
        assert(said[0] == seq!['1']);
    }
    if says(m, 54, seq!['2']) {
        assert(said[0] == seq!['2']);
    }
    if says(m, 54, seq!['5']) {
        assert(said[0] == seq!['5']);
    }
    assert(seq!['1'][0] == '1' && seq!['2'][0] == '2' && seq!['5'][0] == '5');
}

/// Two new orders on different sides are never stated alike.
pub proof fn orders_on_different_sides_are_stated_apart(
    context: Context,
    known: Known,
    session: Seq<char>,
    order_id: u64,
    instrument: InstrumentId,
    side: Side,
    qty: i64,
    kind: OrderKind,
    tif: u8,
    attrs: OrderAttrs,
    now: Seq<char>,
    other: Side,
)
    requires
        (instrument as int) < context.slots@.len(),
        tif < 128,
        lists_no_term(kind),
        side != other,
    ensures
        submit_fields(context, known, session, order_id, instrument, side, qty, kind, tif, attrs, now) != submit_fields(
            context, known, session, order_id, instrument, other, qty, kind, tif, attrs, now,
        ),
{
    a_new_order_is_stated_as_asked(context, known, session, order_id, instrument, side, qty, kind, tif, attrs, now);
    a_new_order_is_stated_as_asked(
        context, known, session, order_id, instrument, other, qty, kind, tif, attrs, now,
    );
    let one = texts_under(submit_fields(context, known, session, order_id, instrument, side, qty, kind, tif, attrs, now), 54);
    let two = texts_under(
        submit_fields(
            context, known, session, order_id, instrument, other, qty, kind, tif, attrs, now,
        ),
        54,
    );
    assert(one[0][0] == side_text(side)[0]);
    assert(two[0][0] == side_text(other)[0]);
}

/// The type, the price and the trigger an order of a shape is tracked under.
/// Types the wire has one character for are tracked under it.
pub open spec fn tracked_terms(kind: OrderKind, ord_type: u8, price: i64, trigger: i64) -> bool {
    match kind {
        OrderKind::Attached { .. } => true,
        OrderKind::Market => ord_type == 49 && price == 0 && trigger == 0,
        OrderKind::Limit { price: limit } => ord_type == 50 && price == limit && trigger == 0,
        OrderKind::Stop { stop_price } => ord_type == 51 && price == stop_price && trigger
            == stop_price,
        OrderKind::StopLimit { price: limit, stop_price } => ord_type == 52 && price == limit
            && trigger == stop_price,
        OrderKind::TrailingStop { .. } => ord_type == 80 && price == 0 && trigger == 0,
        OrderKind::TrailingStopLimit { lmt_offset, .. } => ord_type == 130 && price == lmt_offset
            && trigger == 0,
        OrderKind::TrailPct { .. } => ord_type == 80 && price == 0 && trigger == 0,
        OrderKind::Moc => ord_type == 53 && price == 0 && trigger == 0,
        OrderKind::Loc { price: limit } => ord_type == 66 && price == limit && trigger == 0,
        OrderKind::Mit { stop_price } => ord_type == 74 && price == stop_price && trigger
            == stop_price,
        OrderKind::Lit { price: limit, stop_price } => ord_type == 128 && price == limit && trigger
            == stop_price,
        OrderKind::PegBench { price: limit, .. } => ord_type == 133 && price == limit && trigger
            == 0,
        OrderKind::Mtl => ord_type == 75 && price == 0 && trigger == 0,
        OrderKind::MktPrt => ord_type == 85 && price == 0 && trigger == 0,
        OrderKind::StpPrt { stop_price } => ord_type == 129 && price == 0 && trigger == stop_price,
        OrderKind::MidPrice { price_cap } => ord_type == 139 && price == price_cap && trigger == 0,
        OrderKind::SnapMkt { offset } => ord_type == 134 && price == 0 && trigger == offset,
        OrderKind::SnapMid { offset } => ord_type == 135 && price == 0 && trigger == offset,
        OrderKind::SnapPri { offset } => ord_type == 136 && price == 0 && trigger == offset,
        OrderKind::PegMkt { offset, .. } => ord_type == 131 && price == 0 && trigger == offset,
        OrderKind::PegMid { offset, .. } => ord_type == 132 && price == 0 && trigger == offset,
        OrderKind::Rel { offset, price_cap } => ord_type == 80 && price == price_cap && trigger
            == offset,
        OrderKind::PassiveRel { offset, .. } => ord_type == 137 && price == 0 && trigger == offset,
        OrderKind::PegBest { price: limit } => ord_type == 138 && price == limit && trigger == 0,
        OrderKind::AdjustableStop { stop_price, .. } => ord_type == 51 && price == 0 && trigger
            == stop_price,
        OrderKind::Adaptive { price: limit, .. } => ord_type == 50 && price == limit && trigger
            == 0,
        OrderKind::Algo { price: limit, .. } => ord_type == 50 && price == limit && trigger == 0,
    }
}

/// A new order is tracked under the terms it was asked with, unfilled and not
/// yet taken, with how it was placed and where it goes. No other order, record
/// or destination changes, and no order's names do.
pub proof fn a_new_order_is_tracked_as_asked(
    before: Context,
    after: Context,
    order_id: u64,
    instrument: InstrumentId,
    side: Side,
    qty: i64,
    kind: OrderKind,
    tif: u8,
    attrs: OrderAttrs,
    other: u64,
)
    requires
        (instrument as int) < before.slots@.len(),
        submission_recorded(before, after, order_id, instrument, side, qty, kind, tif, attrs),
        other != order_id,
    ensures
        after.held(order_id) matches Some(order) && {
            &&& order.order_id == order_id
            &&& order.instrument == instrument
            &&& order.side == side
            &&& order.qty == qty
            &&& order.tif == tif
            &&& order.filled == 0
            &&& order.status is PendingSubmit
            &&& tracked_terms(kind, order.ord_type, order.price, order.stop_price)
        },
        after.placed(order_id) matches Some(placed) && placed.kind == kind && *placed.attrs
            == attrs,
        after.order_destination@.dom().contains(order_id),
        after.order_destination@[order_id].0@ == before.slots@[instrument as int].sec_type@,
        after.order_destination@[order_id].1@ == before.slots@[instrument as int].destination@,
        after.held(other) == before.held(other),
        after.placed(other) == before.placed(other),
        after.order_destination@.dom().contains(other)
            <==> before.order_destination@.dom().contains(other),
        before.order_destination@.dom().contains(other) ==> after.order_destination@[other]
            == before.order_destination@[other],
        after.version(other) == before.version(other),
        after.version(order_id) == before.version(order_id),
        after.last_clord@ == before.last_clord@,
        before.held(order_id) is None ==> after.orders.keys() == before.orders.keys().push(order_id),
{
    let rest = before.order_destination@.remove(order_id);
    let rest_after = after.order_destination@.remove(order_id);
    assert(rest_after.dom().contains(other) <==> after.order_destination@.dom().contains(other));
    assert(rest.dom().contains(other) <==> before.order_destination@.dom().contains(other));
    if before.order_destination@.dom().contains(other) {
        assert(rest_after[other] == after.order_destination@[other]);
        assert(rest[other] == before.order_destination@[other]);
    }
}

/// What a new order states under the tags of its type: the name of the type,
/// its prices and its offset, and behind them the cap, the offset and the first
/// trigger of the types that state those last. A midpoint peg in two parts goes
/// out under a name of its own.
#[verifier::spinoff_prover]
pub proof fn a_new_order_states_its_type_and_prices(
    context: Context,
    known: Known,
    session: Seq<char>,
    order_id: u64,
    instrument: InstrumentId,
    side: Side,
    qty: i64,
    kind: OrderKind,
    tif: u8,
    attrs: OrderAttrs,
    now: Seq<char>,
)
    requires
        !(kind is Attached),
    ensures
        ({
            let m = submit_fields(context, known, session, order_id, instrument, side, qty, kind, tif, attrs, now);
            let shape = shape_fields(Seq::empty(), kind, takes_trails_as_t(known));
            &&& !two_part_mid(attrs, kind) ==> type_said(
                Seq::empty(),
                m,
                kind,
                takes_trails_as_t(known),
            )
            &&& two_part_mid(attrs, kind) ==> says(m, 40, "PMID2"@)
            &&& prices_said(Seq::empty(), shape, kind)
            &&& what_a_type_states_last(shape, m, attrs, kind)
        }),
{
    let trails = takes_trails_as_t(known);
    let f = opening_fields(context, known, session, order_id, instrument, side, qty, kind, tif, attrs, now);
    let start: Stated = seq![
        (35u32, "D"@),
        (52u32, now),
        (
            11u32,
            crate::engine::order_builder::cancel::revision_name(
                order_id,
                context.version(order_id),
            ),
        ),
        (1u32, crate::engine::order_builder::cancel::order_account(attrs, session)),
        (55u32, context.symbol(instrument)),
        (54u32, crate::engine::order_builder::shape::side_code(side)),
        (38u32, qty_text(qty as int)),
    ];
    let shaped = shape_fields(start, kind, trails);
    let shape = shape_fields(Seq::empty(), kind, trails);
    a_tag_stated_nowhere(start, 40);
    a_tag_stated_nowhere(start, 44);
    a_tag_stated_nowhere(start, 99);
    a_tag_stated_nowhere(start, 211);
    a_tag_stated_nowhere(start, 6117);
    a_shape_states_its_type(start, kind, trails);
    a_shape_states_its_prices(start, kind, trails);
    a_shape_states_its_type(Seq::empty(), kind, trails);
    a_shape_states_its_prices(Seq::empty(), kind, trails);
    a_shape_keeps(start, kind, trails, 6117);
    a_shape_keeps(Seq::empty(), kind, trails, 6117);
    let routed = routing_fields(f, context, known, instrument, attrs);
    let word = instruction_of(kind, trails);
    let parent = parent_name(context, attrs);
    an_order_states_what_a_type_states_last(routed, attrs, kind, side, word, parent);
    let g = attr_fields(routed, attrs, kind, side, word, parent);
    let m = submit_fields(context, known, session, order_id, instrument, side, qty, kind, tif, attrs, now);
    assert forall|tag: u32|
        tag == 40 || tag == 44 || tag == 99 || tag == 211 || tag == 6117 implies #[trigger] texts_under(
        routed,
        tag,
    ) == texts_under(shape, tag) by {
        routing_keeps(f, context, known, instrument, attrs, tag);
        the_opening_ends(context, known, session, order_id, instrument, side, qty, kind, tif, attrs, now, tag);
    }
    assert forall|tag: u32|
        tag == 44 || tag == 99 || tag == 211 || tag == 6117 implies #[trigger] texts_under(m, tag)
        == texts_under(g, tag) by {
        the_rest_keeps(context, known, session, order_id, instrument, side, qty, kind, tif, attrs, now, tag);
    }
    the_rest_keeps(context, known, session, order_id, instrument, side, qty, kind, tif, attrs, now, 40);
    if two_part_mid(attrs, kind) {
        the_type_is_renamed(context, known, session, order_id, instrument, side, qty, kind, tif, attrs, now);
        assert(texts_under(m, 40) =~= seq!["PMID2"@]);
    }
}

proof fn the_opening_ends(
    context: Context,
    known: Known,
    session: Seq<char>,
    order_id: u64,
    instrument: InstrumentId,
    side: Side,
    qty: i64,
    kind: OrderKind,
    tif: u8,
    attrs: OrderAttrs,
    now: Seq<char>,
    tag: u32,
)
    requires
        tag != 59 && tag != 60 && tag != 167,
    ensures
        texts_under(opening_fields(context, known, session, order_id, instrument, side, qty, kind, tif, attrs, now), tag) == texts_under(
            shape_fields(
                seq![
                    (35u32, "D"@),
                    (52u32, now),
                    (
                        11u32,
                        crate::engine::order_builder::cancel::revision_name(
                            order_id,
                            context.version(order_id),
                        ),
                    ),
                    (1u32, crate::engine::order_builder::cancel::order_account(attrs, session)),
                    (55u32, context.symbol(instrument)),
                    (54u32, crate::engine::order_builder::shape::side_code(side)),
                    (38u32, qty_text(qty as int)),
                ],
                kind,
                takes_trails_as_t(known),
            ),
            tag,
        ),
{
    broadcast use group_said;

}

proof fn the_type_is_renamed(
    context: Context,
    known: Known,
    session: Seq<char>,
    order_id: u64,
    instrument: InstrumentId,
    side: Side,
    qty: i64,
    kind: OrderKind,
    tif: u8,
    attrs: OrderAttrs,
    now: Seq<char>,
)
    requires
        two_part_mid(attrs, kind),
    ensures
        ({
            let f = opening_fields(context, known, session, order_id, instrument, side, qty, kind, tif, attrs, now);
            let g = attr_fields(
                routing_fields(f, context, known, instrument, attrs),
                attrs,
                kind,
                side,
                instruction_of(kind, takes_trails_as_t(known)),
                parent_name(context, attrs),
            );
            let m = submit_fields(context, known, session, order_id, instrument, side, qty, kind, tif, attrs, now);
            texts_under(m, 40) == texts_under(g, 40).map_values(|one: Seq<char>| "PMID2"@)
        }),
{
    broadcast use group_said;

    let f = opening_fields(context, known, session, order_id, instrument, side, qty, kind, tif, attrs, now);
    let g = attr_fields(
        routing_fields(f, context, known, instrument, attrs),
        attrs,
        kind,
        side,
        instruction_of(kind, takes_trails_as_t(known)),
        parent_name(context, attrs),
    );
    let h = crate::engine::order_builder::fields::renamed(g, 40, "PMID2"@);
    let k = crate::engine::order_builder::fields::also(
        h,
        crate::engine::order_builder::submit::prices_its_hedge(attrs, kind, known),
        8262,
        "1"@,
    );
    others_keep_their_texts(g, 40, "PMID2"@, 40);
    a_ladder_keeps(k, attrs, 40);
}

/// A new order names the contract its slot holds, or the one its family
/// resolved to, by its number and by the terms of its kind.
#[verifier::spinoff_prover]
pub proof fn a_new_order_names_its_contract(
    context: Context,
    known: Known,
    session: Seq<char>,
    order_id: u64,
    instrument: InstrumentId,
    side: Side,
    qty: i64,
    kind: OrderKind,
    tif: u8,
    attrs: OrderAttrs,
    now: Seq<char>,
)
    requires
        !(kind is Attached),
        (instrument as int) < context.slots@.len(),
        context.slots@[instrument as int].identity is Some,
    ensures
        ({
            let slot = context.slots@[instrument as int];
            let family = if attrs.attached is Some {
                attrs.attached->0.contract_id
            } else {
                None
            };
            names_the_contract(
                submit_fields(context, known, session, order_id, instrument, side, qty, kind, tif, attrs, now),
                if family is Some {
                    family
                } else {
                    slot.con_id
                },
                slot.identity->0,
                slot.sec_type@,
            )
        }),
{
    let family = crate::engine::order_builder::submit::family_contract(attrs);
    let named = identity_fields(Seq::empty(), context, instrument, family);
    a_message_names_its_contract(Seq::empty(), context, instrument, family);
    let m = submit_fields(context, known, session, order_id, instrument, side, qty, kind, tif, attrs, now);
    assert forall|tag: u32| identity_tag(tag) && tag != 231 implies #[trigger] texts_under(m, tag)
        == texts_under(named, tag) by {
        let f = opening_fields(context, known, session, order_id, instrument, side, qty, kind, tif, attrs, now);
        the_rest_keeps(context, known, session, order_id, instrument, side, qty, kind, tif, attrs, now, tag);
        the_opening_ends(context, known, session, order_id, instrument, side, qty, kind, tif, attrs, now, tag);
        let start: Stated = seq![
            (35u32, "D"@),
            (52u32, now),
            (
                11u32,
                crate::engine::order_builder::cancel::revision_name(
                    order_id,
                    context.version(order_id),
                ),
            ),
            (1u32, crate::engine::order_builder::cancel::order_account(attrs, session)),
            (55u32, context.symbol(instrument)),
            (54u32, crate::engine::order_builder::shape::side_code(side)),
            (38u32, qty_text(qty as int)),
        ];
        a_tag_stated_nowhere(start, tag);
        a_shape_keeps(start, kind, takes_trails_as_t(known), tag);
        a_name_is_said_behind_the_rest(f, context, instrument, family, tag);
        routing_keeps_the_name(f, context, known, instrument, attrs, tag);
        assert(texts_under(f, tag) + texts_under(named, tag) =~= texts_under(named, tag));
    }
}

#[verifier::spinoff_prover]
proof fn routing_keeps_the_name(
    f: Stated,
    context: Context,
    known: Known,
    instrument: InstrumentId,
    attrs: OrderAttrs,
    tag: u32,
)
    requires
        tag != 231,
        !routing_tag(tag),
    ensures
        texts_under(routing_fields(f, context, known, instrument, attrs), tag) == texts_under(
            identity_fields(
                f,
                context,
                instrument,
                crate::engine::order_builder::submit::family_contract(attrs),
            ),
            tag,
        ),
{
    broadcast use group_said;

}

} // verus!
