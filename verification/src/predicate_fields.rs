//! Record predicates: which field paths a predicate may name, and the value
//! that a field path reaches in a record's document.
use vstd::prelude::*;
use crate::api_error::{ApiError, ApiErrorKind};
use crate::json::{JsonValue, JsonView, lemma_object_view, members_view};
use crate::continuation::member;
use crate::scopes::{first_error, lemma_first_error_stable};
use crate::text::{chars_eq, chars_of, owned, split_char, split_chars};

verus! {

/// The comparison a predicate term makes.
#[derive(PartialEq, Eq, Structural, Clone, Copy)]
pub enum RecordPredicateOp {
    Eq,
    Ne,
    Lt,
    Lte,
    Gt,
    Gte,
    Contains,
    StartsWith,
    Exists,
}

/// A term of a predicate: a field path, a comparison and the value compared
/// with.
pub struct RecordPredicateTerm {
    pub field: String,
    pub op: RecordPredicateOp,
    pub value: Option<JsonValue>,
}

/// A predicate: all of its terms must hold.
pub struct RecordPredicate {
    pub all: Vec<RecordPredicateTerm>,
}

/// A character that a field path component may hold.
pub open spec fn field_char(c: char) -> bool {
    ||| ('a' <= c && c <= 'z')
    ||| ('A' <= c && c <= 'Z')
    ||| ('0' <= c && c <= '9')
    ||| c == '_'
    ||| c == '-'
}

/// A component of a field path: 1 to 64 of those characters.
pub open spec fn valid_component(c: Seq<char>) -> bool {
    &&& 0 < c.len() <= 64
    &&& forall|i: int| 0 <= i < c.len() ==> field_char(#[trigger] c[i])
}

/// A field path: 1 to 256 characters, its dot-separated components each
/// valid (so the path is ASCII and its byte length is its length).
pub open spec fn valid_field(f: Seq<char>) -> bool {
    &&& 0 < f.len() <= 256
    &&& forall|i: int| 0 <= i < split_char(f, '.').len() ==> valid_component(#[trigger] split_char(f, '.')[i])
}

/// The error of a term, if any.
pub open spec fn term_error(t: RecordPredicateTerm) -> Option<Seq<char>> {
    if !valid_field(t.field@) {
        Some("invalid predicate field"@)
    } else if t.op != RecordPredicateOp::Exists && t.value is None {
        Some("predicate term requires value"@)
    } else {
        None
    }
}

/// The error of a predicate: too many terms, else its first term's error.
pub open spec fn predicate_error(p: RecordPredicate) -> Option<Seq<char>> {
    if p.all@.len() > 32 {
        Some("record predicate supports at most 32 all terms"@)
    } else {
        first_error(|i: int| term_error(p.all@[i]), p.all@.len() as int)
    }
}

fn component_ok(c: &Vec<char>) -> (b: bool)
    ensures
        b == valid_component(c@),
{
    if c.len() == 0 || c.len() > 64 {
        return false;
    }
    let mut i: usize = 0;
    while i < c.len()
        invariant
            i <= c@.len(),
            forall|j: int| 0 <= j < i ==> field_char(#[trigger] c@[j]),
        decreases c@.len() - i,
    {
        let x = c[i];
        let ok = ('a' <= x && x <= 'z') || ('A' <= x && x <= 'Z') || ('0' <= x && x <= '9') || x == '_' || x == '-';
        if !ok {
            return false;
        }
        i = i + 1;
    }
    true
}

fn field_ok(field: &String) -> (b: bool)
    ensures
        b == valid_field(field@),
{
    let f = chars_of(field.as_str());
    if f.len() == 0 || f.len() > 256 {
        return false;
    }
    let parts = split_chars(f.as_slice(), '.');
    let ghost all = split_char(f@, '.');
    let mut i: usize = 0;
    while i < parts.len()
        invariant
            i <= parts@.len(),
            parts@.len() == all.len(),
            all == split_char(field@, '.'),
            forall|j: int| 0 <= j < parts@.len() ==> #[trigger] parts@[j]@ == all[j],
            forall|j: int| 0 <= j < i ==> valid_component(#[trigger] all[j]),
        decreases parts@.len() - i,
    {
        if !component_ok(&parts[i]) {
            assert(!valid_component(all[i as int]));
            return false;
        }
        i = i + 1;
    }
    true
}

/// Checks a predicate: at most 32 terms, each naming a valid field path and
/// carrying a value unless it only asks whether the field exists.
pub fn validate_record_predicate(predicate: &RecordPredicate) -> (r: Result<(), ApiError>)
    ensures
        match r {
            Ok(()) => predicate_error(*predicate) is None,
            Err(e) => e.kind == ApiErrorKind::BadRequest && predicate_error(*predicate) == Some(e.message@),
        },
{
    if predicate.all.len() > 32 {
        return Err(ApiError::bad_request(owned("record predicate supports at most 32 all terms")));
    }
    let ghost errs = |i: int| term_error(predicate.all@[i]);
    let mut i: usize = 0;
    while i < predicate.all.len()
        invariant
            i <= predicate.all@.len(),
            predicate.all@.len() <= 32,
            errs == (|i: int| term_error(predicate.all@[i])),
            first_error(errs, i as int) is None,
        decreases predicate.all@.len() - i,
    {
        let term = &predicate.all[i];
        if !field_ok(&term.field) {
            proof {
                assert(errs(i as int) == Some("invalid predicate field"@));
                lemma_first_error_stable(errs, i + 1, predicate.all@.len() as int);
            }
            return Err(ApiError::bad_request(owned("invalid predicate field")));
        }
        if term.op != RecordPredicateOp::Exists && term.value.is_none() {
            proof {
                assert(errs(i as int) == Some("predicate term requires value"@));
                lemma_first_error_stable(errs, i + 1, predicate.all@.len() as int);
            }
            return Err(ApiError::bad_request(owned("predicate term requires value")));
        }
        i = i + 1;
    }
    Ok(())
}

/// The value that the dot-separated `path` reaches from `v`: each component
/// names a member of an object; none where a step is not an object or lacks
/// the member.
pub open spec fn path_lookup(v: JsonView, comps: Seq<Seq<char>>) -> Option<JsonView>
    decreases comps.len(),
{
    if comps.len() == 0 {
        Some(v)
    } else {
        match v {
            JsonView::Object(m) => match member(m, comps[0]) {
                Some(x) => path_lookup(x, comps.drop_first()),
                None => None,
            },
            _ => None,
        }
    }
}

fn find_member<'a>(members: &'a Vec<(String, JsonValue)>, key: &Vec<char>) -> (r: Option<&'a JsonValue>)
    ensures
        match r {
            Some(x) => member(members_view(members@), key@) == Some(x@),
            None => member(members_view(members@), key@) is None,
        },
{
    let ghost m = members_view(members@);
    let mut i: usize = 0;
    assert(m.skip(0) =~= m);
    while i < members.len()
        invariant
            i <= members@.len(),
            m == members_view(members@),
            member(m, key@) == member(m.skip(i as int), key@),
        decreases members@.len() - i,
    {
        assert(m.skip(i as int).drop_first() =~= m.skip(i + 1));
        assert(m.skip(i as int)[0] == m[i as int]);
        let name = chars_of(members[i].0.as_str());
        if chars_eq(name.as_slice(), key.as_slice()) {
            return Some(&members[i].1);
        }
        i = i + 1;
    }
    assert(m.skip(i as int).len() == 0);
    None
}

/// The value that `field_path` reaches in `value`.
pub fn value_at_field_path<'a>(value: &'a JsonValue, field_path: &str) -> (r: Option<&'a JsonValue>)
    ensures
        match r {
            Some(x) => path_lookup(value@, split_char(field_path@, '.')) == Some(x@),
            None => path_lookup(value@, split_char(field_path@, '.')) is None,
        },
{
    let f = chars_of(field_path);
    let parts = split_chars(f.as_slice(), '.');
    let ghost comps = split_char(field_path@, '.');
    let mut cur: &JsonValue = value;
    let mut i: usize = 0;
    assert(comps.skip(0) =~= comps);
    while i < parts.len()
        invariant
            i <= parts@.len(),
            parts@.len() == comps.len(),
            comps == split_char(field_path@, '.'),
            forall|j: int| 0 <= j < parts@.len() ==> #[trigger] parts@[j]@ == comps[j],
            path_lookup(value@, comps) == path_lookup(cur@, comps.skip(i as int)),
        decreases parts@.len() - i,
    {
        assert(comps.skip(i as int)[0] == comps[i as int]);
        assert(comps.skip(i as int).drop_first() =~= comps.skip(i + 1));
        match cur {
            JsonValue::Object(members) => {
                proof {
                    lemma_object_view(*members);
                }
                match find_member(members, &parts[i]) {
                    Some(x) => {
                        cur = x;
                    },
                    None => {
                        return None;
                    },
                }
            },
            _ => {
                return None;
            },
        }
        i = i + 1;
    }
    assert(comps.skip(i as int).len() == 0);
    Some(cur)
}

} // verus!
