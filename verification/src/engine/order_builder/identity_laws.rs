//! What names a contract in a message.

use crate::engine::context::{Context, OrderIdentity};
use crate::engine::order_builder::fields::{also, also_named, Stated};
use crate::engine::order_builder::identity::{
    expiry_tag, identity_fields, identity_terms, right_code,
};
use crate::engine::order_builder::wire::{group_said, says, silent, texts_under};
use crate::text::{all_digits, decimal, small_letters};
use crate::types::orders::InstrumentId;
use vstd::prelude::*;

verus! {

/// Whether a security is named by its local symbol: a future, a forward, an
/// index, a bond, a contract for difference, a coin or a warrant.
pub open spec fn goes_by_its_local_symbol(sec_type: Seq<char>) -> bool {
    sec_type == "FUT"@ || sec_type == "FWD"@ || sec_type == "IND"@ || sec_type == "BOND"@
        || sec_type == "CFD"@ || sec_type == "CRYPTO"@ || sec_type == "WAR"@
}

/// Whether a message names a contract as its slot does.
///
/// Its number stands under the tag for that, where it has one that is not
/// nought. A future states its month and is named by its local symbol, and so
/// is a bond, which states no month. An option states its day or its month,
/// its class, its strike where that is above nought, and its right; a call is a
/// one and a put a nought. What is empty is not stated.
pub open spec fn names_the_contract(
    m: Stated,
    con_id: Option<i64>,
    identity: OrderIdentity,
    sec_type: Seq<char>,
) -> bool {
    let by_local = goes_by_its_local_symbol(sec_type);
    let dated = !by_local || sec_type == "FUT"@ || sec_type == "FWD"@ || sec_type == "WAR"@;
    let expiry = identity.expiry@;
    &&& match con_id {
        Some(number) => if number != 0 {
            says(m, 6008, decimal(number as int))
        } else {
            silent(m, 6008)
        },
        None => silent(m, 6008),
    }
    &&& dated && all_digits(expiry) && expiry.len() == 8 ==> says(m, 541, expiry) && silent(m, 200)
    &&& dated && all_digits(expiry) && expiry.len() == 6 ==> says(m, 200, expiry) && silent(m, 541)
    &&& !dated ==> silent(m, 200) && silent(m, 541)
    &&& by_local && identity.local_symbol@.len() > 0 ==> says(m, 48, identity.local_symbol@)
        && says(m, 22, seq!['1', '0', '1']) && silent(m, 6035)
    &&& by_local ==> silent(m, 6058)
    &&& !by_local && identity.local_symbol@.len() > 0 ==> says(m, 6035, identity.local_symbol@)
        && silent(m, 48)
    &&& !by_local && identity.trading_class@.len() > 0 ==> says(m, 6058, identity.trading_class@)
    &&& identity.strike_reads is Above ==> says(m, 202, identity.strike@)
    &&& !(identity.strike_reads is Above) ==> silent(m, 202)
    &&& identity.right@ == seq!['C'] || identity.right@ == seq!['c'] || identity.right@ == seq![
        '1',
    ] || identity.right@ == seq!['C', 'A', 'L', 'L'] ==> says(m, 201, seq!['1'])
    &&& identity.right@ == seq!['P'] || identity.right@ == seq!['p'] || identity.right@ == seq![
        '0',
    ] || identity.right@ == seq!['P', 'U', 'T'] ==> says(m, 201, seq!['0'])
    &&& identity.right@.len() == 0 ==> silent(m, 201)
}

/// Whether a message states the multiplier of a contract, where it has one.
pub open spec fn states_the_multiplier(m: Stated, identity: OrderIdentity) -> bool {
    &&& identity.multiplier@.len() > 0 ==> says(m, 231, identity.multiplier@)
    &&& identity.multiplier@.len() == 0 ==> silent(m, 231)
}

proof fn a_right_is_written()
    ensures
        right_code(seq!['C']) == Some(seq!['1']),
        right_code(seq!['c']) == Some(seq!['1']),
        right_code(seq!['1']) == Some(seq!['1']),
        right_code(seq!['C', 'A', 'L', 'L']) == Some(seq!['1']),
        right_code(seq!['P']) == Some(seq!['0']),
        right_code(seq!['p']) == Some(seq!['0']),
        right_code(seq!['0']) == Some(seq!['0']),
        right_code(seq!['P', 'U', 'T']) == Some(seq!['0']),
        right_code(Seq::empty()) is None,
{
    reveal_strlit("c");
    reveal_strlit("call");
    reveal_strlit("1");
    reveal_strlit("p");
    reveal_strlit("put");
    reveal_strlit("0");
    assert("1"@ =~= seq!['1']);
    assert("0"@ =~= seq!['0']);
    assert(small_letters(seq!['C']) =~= "c"@);
    assert(small_letters(seq!['c']) =~= "c"@);
    assert(small_letters(seq!['1']) =~= "1"@);
    assert(small_letters(seq!['C', 'A', 'L', 'L']) =~= "call"@);
    assert(small_letters(seq!['P']) =~= "p"@);
    assert(small_letters(seq!['p']) =~= "p"@);
    assert(small_letters(seq!['0']) =~= "0"@);
    assert(small_letters(seq!['P', 'U', 'T']) =~= "put"@);
    assert("p"@[0] == 'p' && "c"@[0] == 'c' && "1"@[0] == '1' && "0"@[0] == '0');
    assert("put"@.len() == 3 && "call"@.len() == 4 && "p"@.len() == 1 && "c"@.len() == 1);
    assert(small_letters(Seq::empty()).len() == 0);
}

/// Whether nothing yet names a contract.
pub open spec fn names_nothing(f: Stated) -> bool {
    silent(f, 6008) && silent(f, 200) && silent(f, 541) && silent(f, 48) && silent(f, 22) && silent(
        f,
        6058,
    ) && silent(f, 6035) && silent(f, 202) && silent(f, 201) && silent(f, 231)
}

/// A message names the contract its slot holds, by its number and by the terms
/// of its kind.
#[verifier::spinoff_prover]
#[verifier::rlimit(60)]
pub proof fn a_message_names_its_contract(
    f: Stated,
    context: Context,
    instrument: InstrumentId,
    attached: Option<i64>,
)
    requires
        names_nothing(f),
        (instrument as int) < context.slots@.len(),
        context.slots@[instrument as int].identity is Some,
    ensures
        ({
            let slot = context.slots@[instrument as int];
            names_the_contract(
                identity_fields(f, context, instrument, attached),
                if attached is Some {
                    attached
                } else {
                    slot.con_id
                },
                slot.identity->0,
                slot.sec_type@,
            ) && states_the_multiplier(
                identity_fields(f, context, instrument, attached),
                slot.identity->0,
            )
        }),
{
    broadcast use group_said;

    a_right_is_written();
    reveal_strlit("101");
    assert("101"@ =~= seq!['1', '0', '1']);
    let slot = context.slots@[instrument as int];
    let identity = slot.identity->0;
    let con_id = if attached is Some {
        attached
    } else {
        slot.con_id
    };
    let none = Seq::<Seq<char>>::empty();
    let g = match con_id {
        Some(number) => also(f, number != 0, 6008, decimal(number as int)),
        None => f,
    };
    assert forall|tag: u32| tag != 6008 implies #[trigger] texts_under(g, tag) == texts_under(
        f,
        tag,
    ) by {}
    let by_local = goes_by_its_local_symbol(slot.sec_type@);
    let dated = crate::engine::order_builder::identity::states_contract_month(slot.sec_type@)
        || !by_local;
    let h = if dated {
        match expiry_tag(identity.expiry@) {
            Some(tag) => g.push((tag, identity.expiry@)),
            None => g,
        }
    } else {
        g
    };
    assert forall|tag: u32| tag != 200 && tag != 541 implies #[trigger] texts_under(h, tag)
        == texts_under(g, tag) by {}
    let k = if by_local {
        if identity.local_symbol@.len() > 0 {
            h.push((48, identity.local_symbol@)).push((22, "101"@))
        } else {
            h
        }
    } else {
        also_named(also_named(h, 6058, identity.trading_class@), 6035, identity.local_symbol@)
    };
    assert forall|tag: u32|
        tag != 48 && tag != 22 && tag != 6058 && tag != 6035 implies #[trigger] texts_under(k, tag)
        == texts_under(h, tag) by {}
    let l = also(k, identity.strike_reads is Above, 202, identity.strike@);
    assert forall|tag: u32| tag != 202 implies #[trigger] texts_under(l, tag) == texts_under(k, tag)
        by {}
    let n = match right_code(identity.right@) {
        Some(code) => l.push((201, code)),
        None => l,
    };
    assert forall|tag: u32| tag != 201 implies #[trigger] texts_under(n, tag) == texts_under(l, tag)
        by {}
    let m = also_named(n, 231, identity.multiplier@);
    assert forall|tag: u32| tag != 231 implies #[trigger] texts_under(m, tag) == texts_under(n, tag)
        by {}
    assert(m == identity_fields(f, context, instrument, attached));
    assert(texts_under(f, 6008) =~= none && texts_under(f, 200) =~= none && texts_under(f, 541)
        =~= none && texts_under(f, 48) =~= none && texts_under(f, 22) =~= none);
    assert(texts_under(f, 6058) =~= none && texts_under(f, 6035) =~= none && texts_under(f, 202)
        =~= none && texts_under(f, 201) =~= none && texts_under(f, 231) =~= none);
    assert(texts_under(m, 6008) == texts_under(g, 6008));
    assert(texts_under(m, 200) == texts_under(h, 200));
    assert(texts_under(m, 541) == texts_under(h, 541));
    assert(texts_under(m, 48) == texts_under(k, 48));
    assert(texts_under(m, 22) == texts_under(k, 22));
    assert(texts_under(m, 6058) == texts_under(k, 6058));
    assert(texts_under(m, 6035) == texts_under(k, 6035));
    assert(texts_under(m, 202) == texts_under(l, 202));
    assert(texts_under(m, 201) == texts_under(n, 201));
    if identity.right@.len() == 0 {
        assert(identity.right@ =~= Seq::empty());
    }
    let e = identity.expiry@;
    if dated && all_digits(e) && e.len() == 8 {
        assert(texts_under(h, 541) =~= seq![e]);
    }
    if dated && all_digits(e) && e.len() == 6 {
        assert(texts_under(h, 200) =~= seq![e]);
    }
}

/// What names a contract is the same whatever a message says ahead of it.
pub proof fn a_name_is_said_behind_the_rest(
    f: Stated,
    context: Context,
    instrument: InstrumentId,
    attached: Option<i64>,
    tag: u32,
)
    ensures
        texts_under(identity_fields(f, context, instrument, attached), tag) == texts_under(f, tag)
            + texts_under(identity_fields(Seq::empty(), context, instrument, attached), tag),
{
    let named = identity_fields(Seq::empty(), context, instrument, attached);
    assert(identity_fields(f, context, instrument, attached) =~= f + named) by {
        a_name_follows(f, context, instrument, attached);
    }
    crate::engine::order_builder::wire::both_are_said(f, named, tag);
}

#[verifier::spinoff_prover]
#[verifier::rlimit(40)]
proof fn a_name_follows(
    f: Stated,
    context: Context,
    instrument: InstrumentId,
    attached: Option<i64>,
)
    ensures
        identity_fields(f, context, instrument, attached) == f + identity_fields(
            Seq::empty(),
            context,
            instrument,
            attached,
        ),
{
    let none: Stated = Seq::empty();
    assert(f + none =~= f);
    assert forall|g: Stated, field: (u32, Seq<char>)| #[trigger] (f + g).push(field) == f + g.push(
        field,
    ) by {
        assert((f + g).push(field) =~= f + g.push(field));
    }
    let con_id = match attached {
        Some(con_id) => Some(con_id),
        None => context.con_id(instrument),
    };
    let h = match con_id {
        Some(number) => also(none, number != 0, 6008, decimal(number as int)),
        None => none,
    };
    let fh = match con_id {
        Some(number) => also(f, number != 0, 6008, decimal(number as int)),
        None => f,
    };
    assert(fh == f + h);
    assert forall|g: Stated, identity: OrderIdentity, sec_type: Seq<char>| #[trigger] identity_terms(
        f + g,
        identity,
        sec_type,
    ) == f + identity_terms(g, identity, sec_type) by {
        the_terms_follow(f, g, identity, sec_type);
    }
}

#[verifier::spinoff_prover]
#[verifier::rlimit(40)]
proof fn the_terms_follow(f: Stated, g: Stated, identity: OrderIdentity, sec_type: Seq<char>)
    ensures
        identity_terms(f + g, identity, sec_type) == f + identity_terms(g, identity, sec_type),
{
    assert forall|g: Stated, field: (u32, Seq<char>)| #[trigger] (f + g).push(field) == f + g.push(
        field,
    ) by {
        assert((f + g).push(field) =~= f + g.push(field));
    }
}

} // verus!
