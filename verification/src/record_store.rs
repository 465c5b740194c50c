//! Which names may stand as a component of a record's storage path.
use vstd::prelude::*;
use crate::text::chars_of;

verus! {

/// A control character: below the space, or DEL.
pub open spec fn is_control(c: char) -> bool {
    (c as u32) < 0x20 || (c as u32) == 0x7f
}

/// A character that cannot stand in a path component.
pub open spec fn forbidden_in_component(c: char) -> bool {
    c == '/' || c == '\\' || is_control(c)
}

/// A table name, record key or index name that can stand as one component of a
/// storage path: not empty, not `.` or `..`, with no slash, backslash or
/// control character.
pub open spec fn safe_component(s: Seq<char>) -> bool {
    &&& s.len() > 0
    &&& s != seq!['.']
    &&& s != seq!['.', '.']
    &&& forall|i: int| 0 <= i < s.len() ==> !forbidden_in_component(#[trigger] s[i])
}

fn char_forbidden(c: char) -> (b: bool)
    ensures
        b == forbidden_in_component(c),
{
    let n = c as u32;
    c == '/' || c == '\\' || n < 0x20 || n == 0x7f
}

/// Whether `s` is a safe path component.
pub fn ensure_safe_record_component(s: &str) -> (b: bool)
    ensures
        b == safe_component(s@),
{
    let v = chars_of(s);
    let n = v.len();
    if n == 0 {
        return false;
    }
    if n == 1 && v[0] == '.' {
        assert(s@ =~= seq!['.']);
        return false;
    }
    if n == 2 && v[0] == '.' && v[1] == '.' {
        assert(s@ =~= seq!['.', '.']);
        return false;
    }
    let mut i: usize = 0;
    while i < n
        invariant
            n == v@.len(),
            v@ == s@,
            i <= n,
            forall|j: int| 0 <= j < i ==> !forbidden_in_component(#[trigger] s@[j]),
        decreases n - i,
    {
        if char_forbidden(v[i]) {
            return false;
        }
        i = i + 1;
    }
    assert(s@ != seq!['.']) by {
        if s@ =~= seq!['.'] {
            assert(v@[0] == '.');
        }
    }
    assert(s@ != seq!['.', '.']) by {
        if s@ =~= seq!['.', '.'] {
            assert(v@[0] == '.' && v@[1] == '.');
        }
    }
    true
}

} // verus!
