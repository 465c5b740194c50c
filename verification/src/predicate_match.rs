//! Whether a record meets a predicate. Numbers are compared by the caller
//! (as floating-point values, which this library does not hold): each term
//! is given how its two numbers compare, where both are numbers.
use vstd::prelude::*;
use std::cmp::Ordering;
use crate::chat_log::order_of_text;
use crate::json::{JsonNumberView, JsonValue, JsonView, json_eq, opt_json_view};
use crate::order::{chars_lt, lemma_lex_irreflexive, lemma_lex_trichotomy, lex_lt};
use crate::predicate_fields::{
    RecordPredicate, RecordPredicateOp, RecordPredicateTerm, path_lookup, value_at_field_path,
};
use crate::records::DbRecord;
use crate::text::{chars_contains, chars_eq, chars_of, chars_starts_with, has_substring, split_char, starts_with};

verus! {

/// How a field's value and a term's value compare: numbers as the caller
/// compared them, strings in string order, anything else not at all.
pub open spec fn value_order(a: JsonView, e: JsonView, number_order: Option<Ordering>) -> Option<Ordering> {
    match (a, e) {
        (JsonView::Number(_), JsonView::Number(_)) => number_order,
        (JsonView::String(x), JsonView::String(y)) => Some(order_of_text(x, y)),
        _ => None,
    }
}

/// A field's value contains a term's value: as a substring of a string, or
/// as an item of an array.
pub open spec fn value_contains(a: JsonView, e: JsonView) -> bool {
    match (a, e) {
        (JsonView::String(x), JsonView::String(y)) => has_substring(x, y),
        (JsonView::Array(items), _) => items.contains(e),
        _ => false,
    }
}

/// Whether a term holds of the value its field reaches (`actual`).
pub open spec fn term_holds(
    actual: Option<JsonView>,
    op: RecordPredicateOp,
    expected: Option<JsonView>,
    number_order: Option<Ordering>,
) -> bool {
    match op {
        RecordPredicateOp::Exists => {
            let want = match expected {
                Some(JsonView::Bool(b)) => b,
                _ => true,
            };
            (actual is Some) == want
        },
        _ => match (actual, expected) {
            (Some(a), Some(e)) => match op {
                RecordPredicateOp::Eq => a == e,
                RecordPredicateOp::Ne => a != e,
                RecordPredicateOp::Lt => value_order(a, e, number_order) == Some(Ordering::Less),
                RecordPredicateOp::Lte => value_order(a, e, number_order) is Some && value_order(a, e, number_order)
                    != Some(Ordering::Greater),
                RecordPredicateOp::Gt => value_order(a, e, number_order) == Some(Ordering::Greater),
                RecordPredicateOp::Gte => value_order(a, e, number_order) is Some && value_order(a, e, number_order)
                    != Some(Ordering::Less),
                RecordPredicateOp::Contains => value_contains(a, e),
                RecordPredicateOp::StartsWith => match (a, e) {
                    (JsonView::String(x), JsonView::String(y)) => starts_with(x, y),
                    _ => false,
                },
                RecordPredicateOp::Exists => false,
            },
            _ => false,
        },
    }
}

/// The order terms on two strings follow string order: `lt` holds where the
/// field's string sorts before the term's, `lte` where it sorts before or is
/// equal, `gt` and `gte` the other way round; `eq` and `ne` compare the
/// strings and `startsWith` tests a prefix. No number comparison enters.
pub proof fn string_terms_follow_string_order(x: Seq<char>, y: Seq<char>, number_order: Option<Ordering>)
    ensures
        ({
            let a = Some(JsonView::String(x));
            let e = Some(JsonView::String(y));
            &&& term_holds(a, RecordPredicateOp::Lt, e, number_order) == lex_lt(x, y)
            &&& term_holds(a, RecordPredicateOp::Lte, e, number_order) == (lex_lt(x, y) || x == y)
            &&& term_holds(a, RecordPredicateOp::Gt, e, number_order) == lex_lt(y, x)
            &&& term_holds(a, RecordPredicateOp::Gte, e, number_order) == (lex_lt(y, x) || x == y)
            &&& term_holds(a, RecordPredicateOp::Eq, e, number_order) == (x == y)
            &&& term_holds(a, RecordPredicateOp::Ne, e, number_order) == (x != y)
            &&& term_holds(a, RecordPredicateOp::StartsWith, e, number_order)
                == y.is_prefix_of(x)
        }),
{
    lemma_lex_trichotomy(x, y);
    lemma_lex_irreflexive(x);
    if x == y {
        assert(JsonView::String(x) == JsonView::String(y));
    } else {
        assert(JsonView::String(x) != JsonView::String(y));
    }
}

/// The order terms on two numbers follow the comparison the caller gives:
/// `lt` where the field's number is less, `lte` where it is less or equal,
/// `gt` where greater, `gte` where greater or equal; none holds where no
/// comparison is given.
pub proof fn number_terms_follow_the_given_order(n: JsonNumberView, m: JsonNumberView, number_order: Option<Ordering>)
    ensures
        ({
            let a = Some(JsonView::Number(n));
            let e = Some(JsonView::Number(m));
            &&& term_holds(a, RecordPredicateOp::Lt, e, number_order) == (number_order == Some(Ordering::Less))
            &&& term_holds(a, RecordPredicateOp::Lte, e, number_order)
                == (number_order == Some(Ordering::Less) || number_order == Some(Ordering::Equal))
            &&& term_holds(a, RecordPredicateOp::Gt, e, number_order) == (number_order == Some(Ordering::Greater))
            &&& term_holds(a, RecordPredicateOp::Gte, e, number_order)
                == (number_order == Some(Ordering::Greater) || number_order == Some(Ordering::Equal))
        }),
{
    match number_order {
        Some(Ordering::Less) => {},
        Some(Ordering::Equal) => {},
        Some(Ordering::Greater) => {},
        None => {},
    }
}

/// How the terms relate to each other on values that are present: `lte` is
/// `lt` or equal in order, `gte` is `gt` or equal in order; on comparable
/// values `gte` is the negation of `lt` and `lte` that of `gt`; `ne` is the
/// negation of `eq`. A term other than `exists` never holds of a field the
/// record does not have.
pub proof fn predicate_terms_relate(a: Option<JsonView>, e: Option<JsonView>, number_order: Option<Ordering>)
    ensures
        a is Some && e is Some ==> {
            let o = value_order(a->Some_0, e->Some_0, number_order);
            &&& term_holds(a, RecordPredicateOp::Lte, e, number_order)
                == (term_holds(a, RecordPredicateOp::Lt, e, number_order) || o == Some(Ordering::Equal))
            &&& term_holds(a, RecordPredicateOp::Gte, e, number_order)
                == (term_holds(a, RecordPredicateOp::Gt, e, number_order) || o == Some(Ordering::Equal))
            &&& o is Some ==> term_holds(a, RecordPredicateOp::Gte, e, number_order)
                == !term_holds(a, RecordPredicateOp::Lt, e, number_order)
            &&& o is Some ==> term_holds(a, RecordPredicateOp::Lte, e, number_order)
                == !term_holds(a, RecordPredicateOp::Gt, e, number_order)
            &&& term_holds(a, RecordPredicateOp::Ne, e, number_order)
                == !term_holds(a, RecordPredicateOp::Eq, e, number_order)
        },
        a is None ==> !term_holds(a, RecordPredicateOp::Eq, e, number_order)
            && !term_holds(a, RecordPredicateOp::Ne, e, number_order)
            && !term_holds(a, RecordPredicateOp::Lt, e, number_order)
            && !term_holds(a, RecordPredicateOp::Lte, e, number_order)
            && !term_holds(a, RecordPredicateOp::Gt, e, number_order)
            && !term_holds(a, RecordPredicateOp::Gte, e, number_order)
            && !term_holds(a, RecordPredicateOp::Contains, e, number_order)
            && !term_holds(a, RecordPredicateOp::StartsWith, e, number_order),
{
    if a is Some && e is Some {
        match value_order(a->Some_0, e->Some_0, number_order) {
            Some(Ordering::Less) => {},
            Some(Ordering::Equal) => {},
            Some(Ordering::Greater) => {},
            None => {},
        }
    }
}

/// `exists` holds where the field is present, or, with a boolean value,
/// where its presence is that value; `contains` holds of a string that has
/// the term's string somewhere in it and of an array that has the term's
/// value as an item.
pub proof fn exists_and_contains_terms(a: Option<JsonView>, e: Option<JsonView>, number_order: Option<Ordering>)
    ensures
        term_holds(a, RecordPredicateOp::Exists, e, number_order) == match e {
            Some(JsonView::Bool(b)) => (a is Some) == b,
            _ => a is Some,
        },
        forall|x: Seq<char>, y: Seq<char>|
            a == Some(JsonView::String(x)) && e == Some(JsonView::String(y)) ==> (term_holds(
                a,
                RecordPredicateOp::Contains,
                e,
                number_order,
            ) <==> exists|i: int| 0 <= i && i + y.len() <= x.len() && #[trigger] x.subrange(i, i + y.len()) == y),
        forall|items: Seq<JsonView>|
            a == Some(JsonView::Array(items)) && e is Some ==> (term_holds(a, RecordPredicateOp::Contains, e, number_order)
                <==> items.contains(e->Some_0)),
{
}

fn text_order(x: &String, y: &String) -> (o: Ordering)
    ensures
        o == order_of_text(x@, y@),
{
    let a = chars_of(x.as_str());
    let b = chars_of(y.as_str());
    if chars_lt(a.as_slice(), b.as_slice()) {
        Ordering::Less
    } else if chars_eq(a.as_slice(), b.as_slice()) {
        Ordering::Equal
    } else {
        Ordering::Greater
    }
}

fn order_values(a: &JsonValue, e: &JsonValue, number_order: Option<Ordering>) -> (o: Option<Ordering>)
    ensures
        o == value_order(a@, e@, number_order),
{
    match (a, e) {
        (JsonValue::Number(_), JsonValue::Number(_)) => number_order,
        (JsonValue::String(x), JsonValue::String(y)) => Some(text_order(x, y)),
        _ => None,
    }
}

fn contains_value(a: &JsonValue, e: &JsonValue) -> (b: bool)
    ensures
        b == value_contains(a@, e@),
{
    match (a, e) {
        (JsonValue::String(x), JsonValue::String(y)) => {
            let xs = chars_of(x.as_str());
            let ys = chars_of(y.as_str());
            chars_contains(xs.as_slice(), ys.as_slice())
        },
        (JsonValue::Array(items), _) => {
            let ghost av = a@;
            let mut i: usize = 0;
            while i < items.len()
                invariant
                    i <= items@.len(),
                    *a == JsonValue::Array(*items),
                    av == a@,
                    forall|j: int| 0 <= j < i ==> (#[trigger] items@[j])@ != e@,
                decreases items@.len() - i,
            {
                if json_eq(&items[i], e) {
                    assert(av->Array_0[i as int] == e@);
                    return true;
                }
                i = i + 1;
            }
            assert forall|j: int| 0 <= j < av->Array_0.len() implies av->Array_0[j] != e@ by {
                assert(av->Array_0[j] == items@[j]@);
            }
            false
        },
        _ => false,
    }
}

/// Whether the record meets one term, given how the numbers compare.
pub fn record_matches_predicate_term(
    record: &DbRecord,
    term: &RecordPredicateTerm,
    number_order: Option<Ordering>,
) -> (b: bool)
    ensures
        b == term_holds(
            path_lookup(record.value@, split_char(term.field@, '.')),
            term.op,
            opt_json_view(term.value),
            number_order,
        ),
{
    let actual = value_at_field_path(&record.value, term.field.as_str());
    match term.op {
        RecordPredicateOp::Exists => {
            let want = match &term.value {
                Some(JsonValue::Bool(b)) => *b,
                _ => true,
            };
            actual.is_some() == want
        },
        _ => match (actual, &term.value) {
            (Some(a), Some(e)) => match term.op {
                RecordPredicateOp::Eq => json_eq(a, e),
                RecordPredicateOp::Ne => !json_eq(a, e),
                RecordPredicateOp::Lt => match order_values(a, e, number_order) {
                    Some(Ordering::Less) => true,
                    _ => false,
                },
                RecordPredicateOp::Lte => match order_values(a, e, number_order) {
                    Some(Ordering::Less) => true,
                    Some(Ordering::Equal) => true,
                    _ => false,
                },
                RecordPredicateOp::Gt => match order_values(a, e, number_order) {
                    Some(Ordering::Greater) => true,
                    _ => false,
                },
                RecordPredicateOp::Gte => match order_values(a, e, number_order) {
                    Some(Ordering::Greater) => true,
                    Some(Ordering::Equal) => true,
                    _ => false,
                },
                RecordPredicateOp::Contains => contains_value(a, e),
                RecordPredicateOp::StartsWith => match (a, e) {
                    (JsonValue::String(x), JsonValue::String(y)) => {
                        let xs = chars_of(x.as_str());
                        let ys = chars_of(y.as_str());
                        chars_starts_with(xs.as_slice(), ys.as_slice())
                    },
                    _ => false,
                },
                RecordPredicateOp::Exists => false,
            },
            _ => false,
        },
    }
}

/// The number comparison given for term `i`, none where none is given.
pub open spec fn order_at(orders: Seq<Option<Ordering>>, i: int) -> Option<Ordering> {
    if 0 <= i < orders.len() {
        orders[i]
    } else {
        None
    }
}

/// Whether the record meets a predicate: every term holds (with no predicate,
/// every record does). `number_orders[i]` tells how the numbers of term `i`
/// compare.
pub fn record_matches_predicate(
    record: &DbRecord,
    predicate: Option<&RecordPredicate>,
    number_orders: &Vec<Option<Ordering>>,
) -> (b: bool)
    ensures
        b == match predicate {
            None => true,
            Some(p) => forall|i: int|
                0 <= i < p.all@.len() ==> term_holds(
                    path_lookup(record.value@, split_char((#[trigger] p.all@[i]).field@, '.')),
                    p.all@[i].op,
                    opt_json_view(p.all@[i].value),
                    order_at(number_orders@, i),
                ),
        },
{
    match predicate {
        None => true,
        Some(p) => {
            let mut i: usize = 0;
            let ghost mut k: int = 0;
            while i < p.all.len()
                invariant
                    i <= p.all@.len(),
                    k == i,
                    predicate == Some(p),
                    forall|j: int|
                        0 <= j < i ==> term_holds(
                            path_lookup(record.value@, split_char((#[trigger] p.all@[j]).field@, '.')),
                            p.all@[j].op,
                            opt_json_view(p.all@[j].value),
                            order_at(number_orders@, j),
                        ),
                decreases p.all@.len() - i,
            {
                let order = if i < number_orders.len() {
                    number_orders[i]
                } else {
                    None
                };
                if !record_matches_predicate_term(record, &p.all[i], order) {
                    assert(order == order_at(number_orders@, k));
                    assert(!term_holds(
                        path_lookup(record.value@, split_char(p.all@[k].field@, '.')),
                        p.all@[k].op,
                        opt_json_view(p.all@[k].value),
                        order_at(number_orders@, k),
                    ));
                    return false;
                }
                i = i + 1;
                proof {
                    k = k + 1;
                }
            }
            true
        },
    }
}

} // verus!
