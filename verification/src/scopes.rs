//! Scope lists of behavior manifests: their validation and the checks that a
//! table, object, channel, user or event name lies within them.
use vstd::prelude::*;
use crate::text::{chars_starts_with, cat3, cat5, cat7, chars_count, chars_ends_with, blank, chars_blank, chars_eq, chars_of, count_char, ends_with, push_str_chars, starts_with, string_from_chars};
use crate::error::BehaviorError;

verus! {

/// The views of a list of strings.
pub open spec fn views(values: Seq<String>) -> Seq<Seq<char>> {
    values.map_values(|v: String| v@)
}

pub open spec fn star() -> Seq<char> {
    seq!['*']
}

/// Whether a scope entry admits `value`: `*` admits everything, an entry
/// admits itself, and `p*` with a non-empty `p` admits every value that
/// starts with `p`.
pub open spec fn wildcard_scope_matches(scope: Seq<char>, value: Seq<char>) -> bool {
    ||| scope == star()
    ||| scope == value
    ||| (ends_with(scope, star()) && scope.len() > 1 && starts_with(
        value,
        scope.drop_last(),
    ))
}

pub open spec fn msg_not_allowed(behavior: Seq<char>, action: Seq<char>, value: Seq<char>) -> Seq<char> {
    "behavior '"@ + behavior + "' is not allowed to "@ + action + " '"@ + value + "'"@
}

pub open spec fn msg_empty_value(label: Seq<char>) -> Seq<char> {
    "behavior manifest "@ + label + " must not contain empty values"@
}

pub open spec fn msg_duplicate_value(label: Seq<char>, value: Seq<char>) -> Seq<char> {
    "behavior manifest "@ + label + " contains duplicate value '"@ + value + "'"@
}

pub open spec fn msg_bad_wildcard(label: Seq<char>) -> Seq<char> {
    "behavior manifest "@ + label + " wildcard must be '*' or a trailing prefix wildcard"@
}

pub open spec fn msg_empty_wildcard_prefix(label: Seq<char>) -> Seq<char> {
    "behavior manifest "@ + label + " wildcard prefix must not be empty"@
}

/// What is wrong with entry `i` of a plain scope list, if anything.
pub open spec fn scope_entry_error(label: Seq<char>, values: Seq<Seq<char>>, i: int) -> Option<
    Seq<char>,
> {
    let v = values[i];
    if blank(v) {
        Some(msg_empty_value(label))
    } else if values.subrange(0, i).contains(v) {
        Some(msg_duplicate_value(label, v))
    } else {
        None
    }
}

/// What is wrong with entry `i` of a wildcard scope list, if anything.
pub open spec fn wildcard_entry_error(label: Seq<char>, values: Seq<Seq<char>>, i: int) -> Option<
    Seq<char>,
> {
    let v = values[i];
    let stars = count_char(v, '*');
    if blank(v) {
        Some(msg_empty_value(label))
    } else if stars > 0 && v != star() && (stars != 1 || !ends_with(v, star())) {
        Some(msg_bad_wildcard(label))
    } else if v != star() && ends_with(v, star()) && v.len() == 1 {
        Some(msg_empty_wildcard_prefix(label))
    } else if values.subrange(0, i).contains(v) {
        Some(msg_duplicate_value(label, v))
    } else {
        None
    }
}

/// The outcome of checking a list entry by entry: the first entry's error.
pub open spec fn first_error(errors: spec_fn(int) -> Option<Seq<char>>, n: int) -> Option<
    Seq<char>,
>
    decreases n,
{
    if n <= 0 {
        None
    } else {
        match first_error(errors, n - 1) {
            Some(e) => Some(e),
            None => errors(n - 1),
        }
    }
}

pub open spec fn result_matches(r: Result<(), BehaviorError>, expected: Option<Seq<char>>) -> bool {
    match r {
        Ok(()) => expected is None,
        Err(e) => expected == Some(e.message@),
    }
}

/// Whether `values[0..i]` holds `values[i]`.
pub(crate) fn occurs_before(values: &[String], i: usize) -> (r: bool)
    requires
        i < values@.len(),
    ensures
        r == views(values@).subrange(0, i as int).contains(values@[i as int]@),
{
    let target = chars_of(values[i].as_str());
    let mut j: usize = 0;
    while j < i
        invariant
            i < values@.len(),
            j <= i,
            target@ == values@[i as int]@,
            forall|k: int| 0 <= k < j ==> values@[k]@ != values@[i as int]@,
        decreases i - j,
    {
        let other = chars_of(values[j].as_str());
        if chars_eq(other.as_slice(), target.as_slice()) {
            proof {
                let w = views(values@).subrange(0, i as int);
                assert(w[j as int] == values@[i as int]@);
            }
            return true;
        }
        j = j + 1;
    }
    proof {
        let w = views(values@).subrange(0, i as int);
        assert forall|k: int| 0 <= k < w.len() implies w[k] != values@[i as int]@ by {
            assert(w[k] == values@[k]@);
        }
    }
    false
}

/// Once an entry has failed, later entries do not change the outcome.
pub proof fn lemma_first_error_stable(errors: spec_fn(int) -> Option<Seq<char>>, i: int, n: int)
    requires
        0 <= i <= n,
        first_error(errors, i) is Some,
    ensures
        first_error(errors, n) == first_error(errors, i),
    decreases n - i,
{
    if n > i {
        lemma_first_error_stable(errors, i, n - 1);
    }
}

/// Checks a plain scope list: no blank entry and no entry twice. The first
/// offending entry decides the error.
pub fn validate_scope_list(label: &str, values: &[String]) -> (r: Result<(), BehaviorError>)
    ensures
        result_matches(
            r,
            first_error(|i: int| scope_entry_error(label@, views(values@), i), values@.len() as int),
        ),
{
    let ghost errs = |i: int| scope_entry_error(label@, views(values@), i);
    let mut i: usize = 0;
    while i < values.len()
        invariant
            i <= values@.len(),
            errs == (|i: int| scope_entry_error(label@, views(values@), i)),
            first_error(errs, i as int) is None,
        decreases values@.len() - i,
    {
        let v = chars_of(values[i].as_str());
        assert(views(values@)[i as int] == values@[i as int]@);
        if chars_blank(v.as_slice()) {
            let e = BehaviorError::new(cat3("behavior manifest ", label, " must not contain empty values"));
            proof {
                lemma_first_error_stable(errs, i + 1, values@.len() as int);
            }
            return Err(e);
        }
        if occurs_before(values, i) {
            let e = BehaviorError::new(
                cat5("behavior manifest ", label, " contains duplicate value '", values[i].as_str(), "'"),
            );
            proof {
                lemma_first_error_stable(errs, i + 1, values@.len() as int);
            }
            return Err(e);
        }
        i = i + 1;
    }
    Ok(())
}

/// The outcome of validating a plain scope list.
pub open spec fn scope_list_outcome(label: Seq<char>, values: Seq<Seq<char>>) -> Option<Seq<char>> {
    first_error(|i: int| scope_entry_error(label, values, i), values.len() as int)
}

/// The outcome of validating a wildcard scope list.
pub open spec fn wildcard_list_outcome(label: Seq<char>, values: Seq<Seq<char>>) -> Option<
    Seq<char>,
> {
    first_error(|i: int| wildcard_entry_error(label, values, i), values.len() as int)
}

/// The first of two checks that fails.
pub open spec fn either(first: Option<Seq<char>>, second: Option<Seq<char>>) -> Option<Seq<char>> {
    match first {
        Some(e) => Some(e),
        None => second,
    }
}

fn is_star(v: &[char]) -> (r: bool)
    ensures
        r == (v@ == star()),
{
    let r = v.len() == 1 && v[0] == '*';
    assert(r ==> v@ =~= star());
    r
}

/// Checks a wildcard scope list: entries are non-blank, a wildcard is `*` or
/// one trailing `*` after a non-empty prefix, and no entry occurs twice. The
/// first offending entry decides the error.
pub fn validate_wildcard_scope_list(label: &str, values: &[String]) -> (r: Result<(), BehaviorError>)
    ensures
        result_matches(r, wildcard_list_outcome(label@, views(values@))),
{
    let ghost errs = |i: int| wildcard_entry_error(label@, views(values@), i);
    let mut i: usize = 0;
    while i < values.len()
        invariant
            i <= values@.len(),
            errs == (|i: int| wildcard_entry_error(label@, views(values@), i)),
            first_error(errs, i as int) is None,
        decreases values@.len() - i,
    {
        let v = chars_of(values[i].as_str());
        assert(views(values@)[i as int] == values@[i as int]@);
        let stars = chars_count(v.as_slice(), '*');
        let star_only = is_star(v.as_slice());
        let mut one_star: Vec<char> = Vec::new();
        one_star.push('*');
        assert(one_star@ =~= star());
        let ends_star = chars_ends_with(v.as_slice(), one_star.as_slice());
        let err: Option<String> = if chars_blank(v.as_slice()) {
            Some(cat3("behavior manifest ", label, " must not contain empty values"))
        } else if stars > 0 && !star_only && (stars != 1 || !ends_star) {
            Some(
                cat3(
                    "behavior manifest ",
                    label,
                    " wildcard must be '*' or a trailing prefix wildcard",
                ),
            )
        } else if !star_only && ends_star && v.len() == 1 {
            Some(cat3("behavior manifest ", label, " wildcard prefix must not be empty"))
        } else if occurs_before(values, i) {
            Some(cat5("behavior manifest ", label, " contains duplicate value '", values[i].as_str(), "'"))
        } else {
            None
        };
        match err {
            Some(m) => {
                proof {
                    lemma_first_error_stable(errs, i + 1, values@.len() as int);
                }
                return Err(BehaviorError::new(m));
            },
            None => {},
        }
        i = i + 1;
    }
    Ok(())
}

/// Whether a scope entry admits a value (see `wildcard_scope_matches`).
pub fn wildcard_scope_matches_exec(scope: &str, value: &str) -> (r: bool)
    ensures
        r == wildcard_scope_matches(scope@, value@),
{
    let sc = chars_of(scope);
    let va = chars_of(value);
    if is_star(sc.as_slice()) || chars_eq(sc.as_slice(), va.as_slice()) {
        return true;
    }
    let n = sc.len();
    if n > 1 && sc[n - 1] == '*' {
        let mut prefix: Vec<char> = Vec::new();
        let mut i: usize = 0;
        while i < n - 1
            invariant
                n == sc@.len(),
                n > 1,
                i <= n - 1,
                prefix@ == sc@.subrange(0, i as int),
            decreases n - 1 - i,
        {
            prefix.push(sc[i]);
            i = i + 1;
            assert(prefix@ =~= sc@.subrange(0, i as int));
        }
        assert(prefix@ =~= sc@.drop_last());
        assert(ends_with(sc@, star())) by {
            assert(sc@.subrange(n - 1, n as int) =~= star());
        }
        chars_starts_with(va.as_slice(), prefix.as_slice())
    } else {
        proof {
            if ends_with(sc@, star()) {
                assert(sc@.subrange(sc@.len() - 1, sc@.len() as int)[0] == sc@[sc@.len() - 1]);
            }
        }
        false
    }
}

/// Some entry of `allowed` equals `value`.
pub open spec fn scope_contains(allowed: Seq<Seq<char>>, value: Seq<char>) -> bool {
    allowed.contains(value)
}

/// Some entry of `allowed` admits `value` as a wildcard scope.
pub open spec fn wildcard_scope_contains(allowed: Seq<Seq<char>>, value: Seq<char>) -> bool {
    exists|i: int| 0 <= i < allowed.len() && wildcard_scope_matches(#[trigger] allowed[i], value)
}

/// Accepts `value` when `allowed` lists it; otherwise the behavior is not
/// allowed to do `action` on it.
pub fn ensure_scope_contains(behavior: &str, action: &str, value: &str, allowed: &[String]) -> (r:
    Result<(), BehaviorError>)
    ensures
        match r {
            Ok(()) => scope_contains(views(allowed@), value@),
            Err(e) => !scope_contains(views(allowed@), value@) && e.message@ == msg_not_allowed(
                behavior@,
                action@,
                value@,
            ),
        },
{
    let target = chars_of(value);
    let mut i: usize = 0;
    while i < allowed.len()
        invariant
            i <= allowed@.len(),
            target@ == value@,
            forall|k: int| 0 <= k < i ==> allowed@[k]@ != value@,
        decreases allowed@.len() - i,
    {
        let a = chars_of(allowed[i].as_str());
        if chars_eq(a.as_slice(), target.as_slice()) {
            assert(views(allowed@)[i as int] == value@);
            return Ok(());
        }
        i = i + 1;
    }
    proof {
        assert forall|k: int| 0 <= k < views(allowed@).len() implies views(allowed@)[k] != value@ by {
            assert(views(allowed@)[k] == allowed@[k]@);
        }
    }
    Err(BehaviorError::new(cat7("behavior '", behavior, "' is not allowed to ", action, " '", value, "'")))
}

/// Accepts `value` when some entry of `allowed` admits it as a wildcard scope;
/// otherwise the behavior is not allowed to do `action` on it.
pub fn ensure_wildcard_scope_contains(
    behavior: &str,
    action: &str,
    value: &str,
    allowed: &[String],
) -> (r: Result<(), BehaviorError>)
    ensures
        match r {
            Ok(()) => wildcard_scope_contains(views(allowed@), value@),
            Err(e) => !wildcard_scope_contains(views(allowed@), value@) && e.message@
                == msg_not_allowed(behavior@, action@, value@),
        },
{
    let mut i: usize = 0;
    while i < allowed.len()
        invariant
            i <= allowed@.len(),
            forall|k: int| 0 <= k < i ==> !wildcard_scope_matches(allowed@[k]@, value@),
        decreases allowed@.len() - i,
    {
        if wildcard_scope_matches_exec(allowed[i].as_str(), value) {
            assert(views(allowed@)[i as int] == allowed@[i as int]@);
            return Ok(());
        }
        i = i + 1;
    }
    proof {
        assert forall|k: int| 0 <= k < views(allowed@).len() implies !wildcard_scope_matches(
            #[trigger] views(allowed@)[k],
            value@,
        ) by {
            assert(views(allowed@)[k] == allowed@[k]@);
        }
    }
    Err(BehaviorError::new(cat7("behavior '", behavior, "' is not allowed to ", action, " '", value, "'")))
}


/// A scope list that holds `*` admits every value.
pub proof fn star_scope_admits_every_value(allowed: Seq<Seq<char>>, value: Seq<char>)
    requires
        allowed.contains(star()),
    ensures
        wildcard_scope_contains(allowed, value),
{
    let i = choose|i: int| 0 <= i < allowed.len() && allowed[i] == star();
    assert(wildcard_scope_matches(allowed[i], value));
}

/// A prefix entry `p*` admits exactly the values that start with `p` (beside
/// `p*` itself).
pub proof fn prefix_scope_admits_its_prefix(prefix: Seq<char>, value: Seq<char>)
    requires
        prefix.len() > 0,
        !prefix.contains('*'),
    ensures
        wildcard_scope_matches(prefix + star(), value) <==> (starts_with(value, prefix) || value == prefix + star()),
{
    let scope = prefix + star();
    assert(scope.drop_last() =~= prefix);
    assert(ends_with(scope, star())) by {
        assert(scope.subrange(scope.len() - 1, scope.len() as int) =~= star());
    }
    assert(scope != star()) by {
        assert(scope.len() > 1);
    }
}

} // verus!
