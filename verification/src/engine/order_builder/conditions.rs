//! The conditions an order waits on, as its message states them.

use crate::engine::order_builder::fields::{also_flag, put, put_flag, stated, Stated};
use crate::text::{
    decimal, digits, format_price, int_text, joined, joined3, price_text, texts, uint_text,
};
use crate::types::attrs::{OrderAttrs, OrderCondition};
use vstd::prelude::*;

verus! {

/// How a condition joins the next one: `a` or `o` as its caller joined them,
/// and `n` on the last, which joins nothing.
pub open spec fn conjunction(condition: OrderCondition, last: bool) -> Seq<char> {
    if last {
        "n"@
    } else if condition.joins_with_and() {
        "a"@
    } else {
        "o"@
    }
}

/// Which side of its figure a condition holds on.
pub open spec fn operator(is_more: bool) -> Seq<char> {
    if is_more {
        ">="@
    } else {
        "<="@
    }
}

/// An exchange as an execution condition names it: every exchange is `*`.
pub open spec fn execution_venue(exchange: Seq<char>) -> Seq<char> {
    if exchange == "SMART"@ || exchange == "BEST"@ {
        "*"@
    } else {
        exchange
    }
}

/// What an execution condition matches.
pub open spec fn execution_pattern(
    symbol: Seq<char>,
    exchange: Seq<char>,
    sec_type: Seq<char>,
) -> Seq<char> {
    "symbol="@ + symbol + ";exchange="@ + execution_venue(exchange) + ";securityType="@ + sec_type
        + ";"@
}

/// The eleven texts of a condition, each in its place and empty where the
/// condition has no use for it: its type, how it joins the next, its operator,
/// its contract, its exchange, its trigger method, its price, its time, its
/// percent, its volume, and what an execution matches.
pub open spec fn condition_row(condition: OrderCondition, last: bool) -> Seq<Seq<char>> {
    let none = Seq::<char>::empty();
    let joins = conjunction(condition, last);
    match condition {
        OrderCondition::Price { con_id, exchange, price, is_more, trigger_method, .. } => seq![
            "1"@,
            joins,
            operator(is_more),
            decimal(con_id as int),
            exchange@,
            decimal(trigger_method as int),
            price_text(price as int),
            none,
            none,
            none,
            none,
        ],
        OrderCondition::Time { time, is_more, .. } => seq![
            "3"@,
            joins,
            operator(is_more),
            none,
            none,
            none,
            none,
            time@,
            none,
            none,
            none,
        ],
        OrderCondition::Margin { percent, is_more, .. } => seq![
            "4"@,
            joins,
            operator(is_more),
            none,
            none,
            none,
            none,
            none,
            decimal(percent as int),
            none,
            none,
        ],
        OrderCondition::Execution { symbol, exchange, sec_type, .. } => seq![
            "5"@,
            joins,
            none,
            none,
            none,
            none,
            none,
            none,
            none,
            none,
            execution_pattern(symbol@, exchange@, sec_type@),
        ],
        OrderCondition::Volume { con_id, exchange, volume, is_more, .. } => seq![
            "6"@,
            joins,
            operator(is_more),
            decimal(con_id as int),
            exchange@,
            none,
            none,
            none,
            none,
            decimal(volume as int),
            none,
        ],
        OrderCondition::PercentChange { con_id, exchange, percent, is_more, .. } => seq![
            "7"@,
            joins,
            operator(is_more),
            decimal(con_id as int),
            exchange@,
            none,
            none,
            none,
            percent@,
            none,
            none,
        ],
    }
}

/// The rows of the first few conditions of a list, one after another.
pub open spec fn condition_rows(conditions: Seq<OrderCondition>, upto: nat) -> Seq<Seq<char>>
    decreases upto,
{
    if upto == 0 {
        Seq::empty()
    } else {
        condition_rows(conditions, (upto - 1) as nat) + condition_row(
            conditions[upto - 1],
            upto == conditions.len(),
        )
    }
}

/// How many conditions there are, and then the row of each.
pub open spec fn condition_strings(conditions: Seq<OrderCondition>) -> Seq<Seq<char>> {
    seq![digits(conditions.len())] + condition_rows(conditions, conditions.len())
}

fn conjunction_of(condition: &OrderCondition, last: bool) -> (joins: String)
    ensures
        joins@ == conjunction(*condition, last),
{
    if last {
        "n".to_owned()
    } else if condition.is_conjunction_connection() {
        "a".to_owned()
    } else {
        "o".to_owned()
    }
}

fn operator_of(is_more: bool) -> (text: String)
    ensures
        text@ == operator(is_more),
{
    if is_more {
        ">=".to_owned()
    } else {
        "<=".to_owned()
    }
}

fn empty() -> (text: String)
    ensures
        text@ == Seq::<char>::empty(),
{
    String::new()
}

fn execution_text(symbol: &String, exchange: &String, sec_type: &String) -> (text: String)
    ensures
        text@ == execution_pattern(symbol@, exchange@, sec_type@),
{
    let named: String = joined3("symbol=", symbol.as_str(), ";exchange=");
    let venue: &str = if *exchange.as_str() == *"SMART" || *exchange.as_str() == *"BEST" {
        "*"
    } else {
        exchange.as_str()
    };
    let venued: String = joined3(named.as_str(), venue, ";securityType=");
    joined3(venued.as_str(), sec_type.as_str(), ";")
}

/// The eleven texts of a condition.
fn row_of(condition: &OrderCondition, last: bool) -> (row: Vec<String>)
    ensures
        texts(row@) == condition_row(*condition, last),
        row@.len() == 11,
{
    let joins: String = conjunction_of(condition, last);
    let row: Vec<String> = match condition {
        OrderCondition::Price { con_id, exchange, price, is_more, trigger_method, .. } => vec![
            "1".to_owned(),
            joins,
            operator_of(*is_more),
            int_text(*con_id),
            exchange.clone(),
            int_text(*trigger_method as i64),
            format_price(*price),
            empty(),
            empty(),
            empty(),
            empty(),
        ],
        OrderCondition::Time { time, is_more, .. } => vec![
            "3".to_owned(),
            joins,
            operator_of(*is_more),
            empty(),
            empty(),
            empty(),
            empty(),
            time.clone(),
            empty(),
            empty(),
            empty(),
        ],
        OrderCondition::Margin { percent, is_more, .. } => vec![
            "4".to_owned(),
            joins,
            operator_of(*is_more),
            empty(),
            empty(),
            empty(),
            empty(),
            empty(),
            int_text(*percent as i64),
            empty(),
            empty(),
        ],
        OrderCondition::Execution { symbol, exchange, sec_type, .. } => vec![
            "5".to_owned(),
            joins,
            empty(),
            empty(),
            empty(),
            empty(),
            empty(),
            empty(),
            empty(),
            empty(),
            execution_text(symbol, exchange, sec_type),
        ],
        OrderCondition::Volume { con_id, exchange, volume, is_more, .. } => vec![
            "6".to_owned(),
            joins,
            operator_of(*is_more),
            int_text(*con_id),
            exchange.clone(),
            empty(),
            empty(),
            empty(),
            empty(),
            int_text(*volume),
            empty(),
        ],
        OrderCondition::PercentChange { con_id, exchange, percent, is_more, .. } => vec![
            "7".to_owned(),
            joins,
            operator_of(*is_more),
            int_text(*con_id),
            exchange.clone(),
            empty(),
            empty(),
            empty(),
            percent.clone(),
            empty(),
            empty(),
        ],
    };
    proof {
        assert(texts(row@) =~= condition_row(*condition, last));
    }
    row
}

/// How many conditions there are, and then the eleven texts of each.
pub fn build_condition_strings(conditions: &Vec<OrderCondition>) -> (out: Vec<String>)
    ensures
        texts(out@) == condition_strings(conditions@),
{
    let mut out: Vec<String> = Vec::new();
    out.push(uint_text(conditions.len() as u64));
    let mut at: usize = 0;
    proof {
        assert(texts(out@) =~= seq![digits(conditions@.len())] + condition_rows(conditions@, 0));
    }
    while at < conditions.len()
        invariant
            at <= conditions@.len(),
            texts(out@) == seq![digits(conditions@.len())] + condition_rows(
                conditions@,
                at as nat,
            ),
        decreases conditions@.len() - at,
    {
        let mut row: Vec<String> = row_of(&conditions[at], at == conditions.len() - 1);
        let ghost before = texts(out@);
        let ghost added = texts(row@);
        out.append(&mut row);
        at = at + 1;
        proof {
            assert(texts(out@) =~= before + added);
            assert(texts(out@) =~= seq![digits(conditions@.len())] + condition_rows(
                conditions@,
                at as nat,
            ));
        }
    }
    out
}

/// The rows of a list are eleven texts each, and the row of a condition stands
/// in its condition's place.
proof fn each_row_in_its_place(conditions: Seq<OrderCondition>, upto: nat, i: nat, k: nat)
    requires
        i < upto <= conditions.len(),
        k < 11,
    ensures
        condition_rows(conditions, upto).len() == 11 * upto,
        condition_rows(conditions, upto)[11 * i as int + k as int] == condition_row(
            conditions[i as int],
            i + 1 == conditions.len(),
        )[k as int],
    decreases upto,
{
    rows_are_eleven_texts(conditions, upto);
    rows_are_eleven_texts(conditions, (upto - 1) as nat);
    if i + 1 < upto {
        each_row_in_its_place(conditions, (upto - 1) as nat, i, k);
    }
}

proof fn rows_are_eleven_texts(conditions: Seq<OrderCondition>, upto: nat)
    requires
        upto <= conditions.len(),
    ensures
        condition_rows(conditions, upto).len() == 11 * upto,
    decreases upto,
{
    if upto > 0 {
        rows_are_eleven_texts(conditions, (upto - 1) as nat);
    }
}

/// The fields of a condition, in the places the venue reads them.
pub open spec fn row_fields(f: Stated, row: Seq<Seq<char>>) -> Stated {
    f.push((6222, row[0])).push((6137, row[1])).push((6126, row[2])).push((6123, row[3])).push(
        (6124, row[4]),
    ).push((6127, row[5])).push((6125, row[6])).push((6223, row[7])).push((6245, row[8])).push(
        (6263, row[9]),
    ).push((6246, row[10]))
}

/// The fields of the first few conditions of a list.
pub open spec fn conditions_upto(f: Stated, conditions: Seq<OrderCondition>, upto: nat) -> Stated
    decreases upto,
{
    if upto == 0 {
        f
    } else {
        row_fields(
            conditions_upto(f, conditions, (upto - 1) as nat),
            condition_row(conditions[upto - 1], upto == conditions.len()),
        )
    }
}

/// How many conditions an order has, whether it is cancelled where they fail,
/// whether they count the hours outside the regular session, whether they
/// count the overnight session, and each of them. An order with no conditions
/// states none of it.
pub open spec fn condition_fields(f: Stated, attrs: OrderAttrs) -> Stated {
    let conditions = attrs.conditions@;
    if conditions.len() == 0 {
        f
    } else {
        let f = f.push((6136, digits(conditions.len())));
        let f = also_flag(f, attrs.conditions_cancel_order, 6128);
        let f = also_flag(f, attrs.conditions_ignore_rth, 6151);
        let f = also_flag(f, attrs.conditions_include_overnight, 8612);
        conditions_upto(f, conditions, conditions.len())
    }
}

fn push_row(fields: &mut Vec<(u32, String)>, strings: &Vec<String>, base: usize)
    requires
        base + 10 < strings.len(),
    ensures
        stated(final(fields)@) == row_fields(
            stated(old(fields)@),
            texts(strings@).subrange(base as int, base + 11),
        ),
{
    proof {
        let row = texts(strings@).subrange(base as int, base + 11);
        assert forall|k: int| 0 <= k < 11 implies #[trigger] row[k] == strings@[base + k]@ by {
            assert(row[k] == texts(strings@)[base + k]);
        }
    }
    put(fields, 6222, strings[base].clone());
    put(fields, 6137, strings[base + 1].clone());
    put(fields, 6126, strings[base + 2].clone());
    put(fields, 6123, strings[base + 3].clone());
    put(fields, 6124, strings[base + 4].clone());
    put(fields, 6127, strings[base + 5].clone());
    put(fields, 6125, strings[base + 6].clone());
    put(fields, 6223, strings[base + 7].clone());
    put(fields, 6245, strings[base + 8].clone());
    put(fields, 6263, strings[base + 9].clone());
    put(fields, 6246, strings[base + 10].clone());
}

/// State the conditions an order waits on.
pub fn push_conditions(fields: &mut Vec<(u32, String)>, attrs: &OrderAttrs)
    ensures
        stated(final(fields)@) == condition_fields(stated(old(fields)@), *attrs),
{
    let conditions: &Vec<OrderCondition> = &attrs.conditions;
    if conditions.len() == 0 {
        return;
    }
    let strings: Vec<String> = build_condition_strings(conditions);
    proof {
        rows_are_eleven_texts(conditions@, conditions@.len());
        assert(texts(strings@).len() == strings@.len());
        assert(texts(strings@)[0] == strings@[0]@);
    }
    put(fields, 6136, strings[0].clone());
    put_flag(fields, attrs.conditions_cancel_order, 6128);
    put_flag(fields, attrs.conditions_ignore_rth, 6151);
    put_flag(fields, attrs.conditions_include_overnight, 8612);
    let ghost start = stated(fields@);
    let mut at: usize = 0;
    let mut base: usize = 1;
    while at < conditions.len()
        invariant
            at <= conditions@.len(),
            base == 1 + 11 * at,
            strings.len() == 1 + 11 * conditions@.len(),
            texts(strings@) == condition_strings(conditions@),
            stated(fields@) == conditions_upto(start, conditions@, at as nat),
        decreases conditions@.len() - at,
    {
        proof {
            let row = texts(strings@).subrange(base as int, base + 11);
            let expected = condition_row(conditions@[at as int], at + 1 == conditions@.len());
            rows_are_eleven_texts(conditions@, conditions@.len());
            assert forall|k: int| 0 <= k < 11 implies #[trigger] row[k] == expected[k] by {
                each_row_in_its_place(conditions@, conditions@.len(), at as nat, k as nat);
            }
            assert(row =~= expected);
        }
        push_row(fields, &strings, base);
        at = at + 1;
        base = base + 11;
    }
}

} // verus!
