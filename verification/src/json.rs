//! A JSON document as plain values, and its mathematical view.
use vstd::prelude::*;
use crate::text::{chars_eq, chars_of};
use crate::order::{chars_lt, lex_lt};

verus! {

broadcast use vstd::std_specs::vec::axiom_vec_index_decreases;

/// A JSON number, as `serde_json` keeps it: a non-negative integer, a negative
/// integer, or a floating-point value held by its shortest decimal text.
#[derive(Debug)]
pub enum JsonNumber {
    PosInt(u64),
    NegInt(i64),
    Float(String),
}

/// A JSON value. Object members are kept sorted by key, each key once, as
/// `serde_json`'s default map keeps them.
#[derive(Debug)]
pub enum JsonValue {
    Null,
    Bool(bool),
    Number(JsonNumber),
    String(String),
    Array(Vec<JsonValue>),
    Object(Vec<(String, JsonValue)>),
}

pub enum JsonNumberView {
    PosInt(u64),
    NegInt(i64),
    Float(Seq<char>),
}

/// The mathematical value of a JSON document.
pub enum JsonView {
    Null,
    Bool(bool),
    Number(JsonNumberView),
    String(Seq<char>),
    Array(Seq<JsonView>),
    Object(Seq<(Seq<char>, JsonView)>),
}

pub open spec fn number_view(n: JsonNumber) -> JsonNumberView {
    match n {
        JsonNumber::PosInt(u) => JsonNumberView::PosInt(u),
        JsonNumber::NegInt(i) => JsonNumberView::NegInt(i),
        JsonNumber::Float(s) => JsonNumberView::Float(s@),
    }
}

pub open spec fn json_view(v: JsonValue) -> JsonView
    decreases v,
{
    match v {
        JsonValue::Null => JsonView::Null,
        JsonValue::Bool(b) => JsonView::Bool(b),
        JsonValue::Number(n) => JsonView::Number(number_view(n)),
        JsonValue::String(s) => JsonView::String(s@),
        JsonValue::Array(a) => JsonView::Array(
            Seq::new(a.len() as nat, |i: int| if 0 <= i < a.len() { json_view(a[i]) } else { JsonView::Null }),
        ),
        JsonValue::Object(m) => JsonView::Object(
            Seq::new(
                m.len() as nat,
                |i: int|
                    if 0 <= i < m.len() {
                        (m[i].0@, json_view(m[i].1))
                    } else {
                        (Seq::empty(), JsonView::Null)
                    },
            ),
        ),
    }
}

impl View for JsonValue {
    type V = JsonView;

    open spec fn view(&self) -> JsonView {
        json_view(*self)
    }
}

/// The view of an optional JSON value.
pub open spec fn opt_json_view(v: Option<JsonValue>) -> Option<JsonView> {
    match v {
        Some(j) => Some(j@),
        None => None,
    }
}

fn number_eq(a: &JsonNumber, b: &JsonNumber) -> (r: bool)
    ensures
        r == (number_view(*a) == number_view(*b)),
{
    match (a, b) {
        (JsonNumber::PosInt(x), JsonNumber::PosInt(y)) => *x == *y,
        (JsonNumber::NegInt(x), JsonNumber::NegInt(y)) => *x == *y,
        (JsonNumber::Float(x), JsonNumber::Float(y)) => {
            let xc = chars_of(x.as_str());
            let yc = chars_of(y.as_str());
            chars_eq(xc.as_slice(), yc.as_slice())
        },
        _ => false,
    }
}

fn str_same(a: &String, b: &String) -> (r: bool)
    ensures
        r == (a@ == b@),
{
    let ac = chars_of(a.as_str());
    let bc = chars_of(b.as_str());
    chars_eq(ac.as_slice(), bc.as_slice())
}

/// Whether two JSON values are equal, as `serde_json::Value`'s `==` decides.
pub fn json_eq(a: &JsonValue, b: &JsonValue) -> (r: bool)
    ensures
        r == (a@ == b@),
    decreases a,
{
    match (a, b) {
        (JsonValue::Null, JsonValue::Null) => true,
        (JsonValue::Bool(x), JsonValue::Bool(y)) => *x == *y,
        (JsonValue::Number(x), JsonValue::Number(y)) => number_eq(x, y),
        (JsonValue::String(x), JsonValue::String(y)) => str_same(x, y),
        (JsonValue::Array(xs), JsonValue::Array(ys)) => {
            let ghost av = a@;
            let ghost bv = b@;
            if xs.len() != ys.len() {
                assert(av->Array_0.len() != bv->Array_0.len());
                return false;
            }
            let mut i: usize = 0;
            while i < xs.len()
                invariant
                    xs.len() == ys.len(),
                    i <= xs.len(),
                    *a == JsonValue::Array(*xs),
                    *b == JsonValue::Array(*ys),
                    av == json_view(*a),
                    bv == json_view(*b),
                    forall|j: int| 0 <= j < i ==> json_view(xs@[j]) == json_view(ys@[j]),
                decreases xs.len() - i,
            {
                assert(decreases_to!(*xs => xs[i as int]));
                if !json_eq(&xs[i], &ys[i]) {
                    assert(av->Array_0[i as int] != bv->Array_0[i as int]);
                    return false;
                }
                i = i + 1;
            }
            assert(av->Array_0 =~= bv->Array_0);
            true
        },
        (JsonValue::Object(xs), JsonValue::Object(ys)) => {
            let ghost av = a@;
            let ghost bv = b@;
            if xs.len() != ys.len() {
                assert(av->Object_0.len() != bv->Object_0.len());
                return false;
            }
            let mut i: usize = 0;
            while i < xs.len()
                invariant
                    xs.len() == ys.len(),
                    i <= xs.len(),
                    *a == JsonValue::Object(*xs),
                    *b == JsonValue::Object(*ys),
                    av == json_view(*a),
                    bv == json_view(*b),
                    forall|j: int|
                        0 <= j < i ==> xs@[j].0@ == ys@[j].0@ && json_view(xs@[j].1) == json_view(ys@[j].1),
                decreases xs.len() - i,
            {
                if !str_same(&xs[i].0, &ys[i].0) {
                    assert(av->Object_0[i as int] != bv->Object_0[i as int]);
                    return false;
                }
                assert(decreases_to!(*xs => xs[i as int]));
                if !json_eq(&xs[i].1, &ys[i].1) {
                    assert(av->Object_0[i as int] != bv->Object_0[i as int]);
                    return false;
                }
                i = i + 1;
            }
            assert(av->Object_0 =~= bv->Object_0);
            true
        },
        _ => false,
    }
}

/// A copy of a JSON value.
pub fn json_copy(v: &JsonValue) -> (r: JsonValue)
    ensures
        r@ == v@,
    decreases v,
{
    match v {
        JsonValue::Null => JsonValue::Null,
        JsonValue::Bool(b) => JsonValue::Bool(*b),
        JsonValue::Number(n) => JsonValue::Number(
            match n {
                JsonNumber::PosInt(u) => JsonNumber::PosInt(*u),
                JsonNumber::NegInt(i) => JsonNumber::NegInt(*i),
                JsonNumber::Float(s) => JsonNumber::Float(s.clone()),
            },
        ),
        JsonValue::String(s) => JsonValue::String(s.clone()),
        JsonValue::Array(xs) => {
            let mut out: Vec<JsonValue> = Vec::new();
            let mut i: usize = 0;
            while i < xs.len()
                invariant
                    i <= xs.len(),
                    out.len() == i,
                    *v == JsonValue::Array(*xs),
                    forall|j: int| 0 <= j < i ==> json_view(out@[j]) == json_view(xs@[j]),
                decreases xs.len() - i,
            {
                assert(decreases_to!(*xs => xs[i as int]));
                assert(decreases_to!(*v => v->Array_0));
                let c = json_copy(&xs[i]);
                out.push(c);
                i = i + 1;
            }
            let r = JsonValue::Array(out);
            assert(r@->Array_0 =~= v@->Array_0);
            r
        },
        JsonValue::Object(xs) => {
            let mut out: Vec<(String, JsonValue)> = Vec::new();
            let mut i: usize = 0;
            while i < xs.len()
                invariant
                    i <= xs.len(),
                    out.len() == i,
                    *v == JsonValue::Object(*xs),
                    forall|j: int|
                        0 <= j < i ==> out@[j].0@ == xs@[j].0@ && json_view(out@[j].1) == json_view(xs@[j].1),
                decreases xs.len() - i,
            {
                assert(decreases_to!(*xs => xs[i as int]));
                assert(decreases_to!(*v => v->Object_0));
                let c = json_copy(&xs[i].1);
                out.push((xs[i].0.clone(), c));
                i = i + 1;
            }
            let r = JsonValue::Object(out);
            assert(r@->Object_0 =~= v@->Object_0);
            r
        },
    }
}


/// The members of an object, as values.
pub open spec fn members_view(m: Seq<(String, JsonValue)>) -> Seq<(Seq<char>, JsonView)> {
    Seq::new(m.len(), |i: int| (m[i].0@, json_view(m[i].1)))
}

/// `Map::insert` on an object's members kept sorted by key: the member of
/// key `k` gets the value `v`, in the place that keeps the keys sorted.
pub open spec fn obj_insert(m: Seq<(Seq<char>, JsonView)>, k: Seq<char>, v: JsonView) -> Seq<(Seq<char>, JsonView)>
    decreases m.len(),
{
    if m.len() == 0 {
        seq![(k, v)]
    } else if m[0].0 == k {
        seq![(k, v)] + m.drop_first()
    } else if lex_lt(k, m[0].0) {
        seq![(k, v)] + m
    } else {
        seq![m[0]] + obj_insert(m.drop_first(), k, v)
    }
}

proof fn lemma_obj_insert_at(m: Seq<(Seq<char>, JsonView)>, k: Seq<char>, v: JsonView, i: int)
    requires
        0 <= i <= m.len(),
        forall|j: int| 0 <= j < i ==> m[j].0 != k && !lex_lt(k, #[trigger] m[j].0),
        i < m.len() ==> (m[i].0 == k || lex_lt(k, m[i].0)),
    ensures
        obj_insert(m, k, v) == if i < m.len() && m[i].0 == k {
            m.take(i) + seq![(k, v)] + m.skip(i + 1)
        } else {
            m.take(i) + seq![(k, v)] + m.skip(i)
        },
    decreases i,
{
    if i == 0 {
        if m.len() > 0 && m[0].0 == k {
            assert(m.take(0) + seq![(k, v)] + m.skip(1) =~= seq![(k, v)] + m.drop_first());
        } else if m.len() > 0 {
            assert(m.take(0) + seq![(k, v)] + m.skip(0) =~= seq![(k, v)] + m);
        } else {
            assert(m.take(0) + seq![(k, v)] + m.skip(0) =~= seq![(k, v)]);
        }
    } else {
        let t = m.drop_first();
        assert forall|j: int| 0 <= j < i - 1 implies t[j].0 != k && !lex_lt(k, #[trigger] t[j].0) by {
            assert(t[j] == m[j + 1]);
        }
        lemma_obj_insert_at(t, k, v, i - 1);
        assert(m[0].0 != k && !lex_lt(k, m[0].0));
        if i < m.len() && m[i].0 == k {
            assert(seq![m[0]] + (t.take(i - 1) + seq![(k, v)] + t.skip(i)) =~= m.take(i) + seq![(k, v)] + m.skip(i + 1));
        } else {
            assert(seq![m[0]] + (t.take(i - 1) + seq![(k, v)] + t.skip(i - 1)) =~= m.take(i) + seq![(k, v)] + m.skip(i));
        }
    }
}

/// Sets the member `key` of an object's members (kept sorted by key) to
/// `value`.
#[verifier::loop_isolation(false)]
pub fn object_insert(members: &mut Vec<(String, JsonValue)>, key: String, value: JsonValue)
    ensures
        members_view(final(members)@) == obj_insert(members_view(old(members)@), key@, value@),
{
    let ghost m = members_view(members@);
    let kc = chars_of(key.as_str());
    let mut i: usize = 0;
    while i < members.len()
        invariant
            i <= members@.len(),
            m == members_view(members@),
            kc@ == key@,
            forall|j: int| 0 <= j < i ==> m[j].0 != key@ && !lex_lt(key@, #[trigger] m[j].0),
        decreases members@.len() - i,
    {
        let c = chars_of(members[i].0.as_str());
        if chars_eq(c.as_slice(), kc.as_slice()) || chars_lt(kc.as_slice(), c.as_slice()) {
            break;
        }
        i = i + 1;
    }
    proof {
        lemma_obj_insert_at(m, key@, value@, i as int);
    }
    let ghost kv = key@;
    let ghost vv = value@;
    let replace = if i < members.len() {
        let c = chars_of(members[i].0.as_str());
        chars_eq(c.as_slice(), kc.as_slice())
    } else {
        false
    };
    if replace {
        members.set(i, (key, value));
        assert(members_view(members@) =~= m.take(i as int) + seq![(kv, vv)] + m.skip(i + 1));
    } else {
        members.insert(i, (key, value));
        assert(members_view(members@) =~= m.take(i as int) + seq![(kv, vv)] + m.skip(i as int));
    }
}

/// The object with the given members.
pub proof fn lemma_object_view(m: Vec<(String, JsonValue)>)
    ensures
        JsonValue::Object(m)@ == JsonView::Object(members_view(m@)),
{
    assert(members_view(m@) =~= (JsonValue::Object(m)@)->Object_0);
}

} // verus!
