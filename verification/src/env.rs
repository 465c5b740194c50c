//! A snapshot of process environment variables, and the typed readings that
//! configuration takes from it.
use vstd::prelude::*;
use crate::text::{
    ascii_lowercase, ascii_lowercase_chars, chars_eq, chars_of, parse_unsigned,
    parse_unsigned_chars, trim, trim_chars,
};

verus! {

/// The environment as name/value pairs. A name is looked up at its first
/// occurrence.
pub struct EnvVars {
    pub vars: Vec<(String, String)>,
}

/// The value of `name` in `vars`, if set.
pub open spec fn env_lookup(vars: Seq<(String, String)>, name: Seq<char>) -> Option<Seq<char>>
    decreases vars.len(),
{
    if vars.len() == 0 {
        None
    } else if vars[0].0@ == name {
        Some(vars[0].1@)
    } else {
        env_lookup(vars.drop_first(), name)
    }
}

/// A boolean setting: `1`, `true`, `yes`, `on` and `0`, `false`, `no`, `off`,
/// in any ASCII case, around surrounding whitespace.
pub open spec fn parse_bool_setting(value: Seq<char>) -> Option<bool> {
    let v = ascii_lowercase(trim(value));
    if v == "1"@ || v == "true"@ || v == "yes"@ || v == "on"@ {
        Some(true)
    } else if v == "0"@ || v == "false"@ || v == "no"@ || v == "off"@ {
        Some(false)
    } else {
        None
    }
}

/// `value.trim().parse::<u64>()`.
pub open spec fn parse_trimmed_u64(value: Seq<char>) -> Option<nat> {
    parse_unsigned(trim(value), u64::MAX as nat)
}

fn words_eq(v: &[char], word: &str) -> (r: bool)
    ensures
        r == (v@ == word@),
{
    let w = chars_of(word);
    chars_eq(v, w.as_slice())
}

/// Reads a boolean setting (see `parse_bool_setting`).
pub fn parse_bool_value(value: &str) -> (r: Option<bool>)
    ensures
        r == parse_bool_setting(value@),
{
    let c = chars_of(value);
    let t = trim_chars(c.as_slice());
    let v = ascii_lowercase_chars(t.as_slice());
    let s = v.as_slice();
    if words_eq(s, "1") || words_eq(s, "true") || words_eq(s, "yes") || words_eq(s, "on") {
        Some(true)
    } else if words_eq(s, "0") || words_eq(s, "false") || words_eq(s, "no") || words_eq(s, "off") {
        Some(false)
    } else {
        None
    }
}

/// Reads an unsigned number no larger than `max`, without trimming.
pub fn parse_unsigned_value(value: &str, max: u64) -> (r: Option<u64>)
    ensures
        match r {
            Some(v) => parse_unsigned(value@, max as nat) == Some(v as nat),
            None => parse_unsigned(value@, max as nat) is None,
        },
{
    let c = chars_of(value);
    parse_unsigned_chars(c.as_slice(), max)
}

/// Reads an unsigned number no larger than `max` after trimming whitespace.
pub fn parse_trimmed_unsigned_value(value: &str, max: u64) -> (r: Option<u64>)
    ensures
        match r {
            Some(v) => parse_unsigned(trim(value@), max as nat) == Some(v as nat),
            None => parse_unsigned(trim(value@), max as nat) is None,
        },
{
    let c = chars_of(value);
    let t = trim_chars(c.as_slice());
    parse_unsigned_chars(t.as_slice(), max)
}

impl EnvVars {
    /// The value of `name`, if set.
    pub fn get(&self, name: &str) -> (r: Option<&String>)
        ensures
            match r {
                Some(v) => env_lookup(self.vars@, name@) == Some(v@),
                None => env_lookup(self.vars@, name@) is None,
            },
    {
        let n = chars_of(name);
        let mut i: usize = 0;
        assert(self.vars@.subrange(0, self.vars@.len() as int) =~= self.vars@);
        while i < self.vars.len()
            invariant
                i <= self.vars@.len(),
                n@ == name@,
                env_lookup(self.vars@, name@) == env_lookup(self.vars@.subrange(i as int, self.vars@.len() as int), name@),
            decreases self.vars@.len() - i,
        {
            let k = chars_of(self.vars[i].0.as_str());
            proof {
                let rest = self.vars@.subrange(i as int, self.vars@.len() as int);
                assert(rest.drop_first() =~= self.vars@.subrange(i + 1, self.vars@.len() as int));
                assert(rest[0] == self.vars@[i as int]);
            }
            if chars_eq(k.as_slice(), n.as_slice()) {
                return Some(&self.vars[i].1);
            }
            i = i + 1;
        }
        None
    }
}

} // verus!
