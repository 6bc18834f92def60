//! Placeholder extrapolation of default values.
//!
//! A default string may embed `${NAME}` placeholders.  Each placeholder —
//! from a `${` to the first following `}`, the name trimmed of spaces — is
//! replaced by looking the name up in the variable store; a name the store
//! lacks fails with `Missing(NAME)`.  Resolution is a single left-to-right
//! pass: substituted text is never scanned again, and a `${` with no later
//! `}` is kept verbatim.

use vstd::prelude::*;

use crate::errors::{Error, SpecError};
use crate::store::Store;
use crate::text::{find_char, lemma_find_char, spec_find_char};

verus! {

/// A string with its leading spaces dropped.
pub open spec fn spec_trim_start(s: Seq<char>) -> Seq<char>
    decreases s.len(),
{
    if s.len() > 0 && s[0] == ' ' {
        spec_trim_start(s.drop_first())
    } else {
        s
    }
}

/// A string with its trailing spaces dropped.
pub open spec fn spec_trim_end(s: Seq<char>) -> Seq<char>
    decreases s.len(),
{
    if s.len() > 0 && s.last() == ' ' {
        spec_trim_end(s.drop_last())
    } else {
        s
    }
}

/// A string with spaces dropped from both ends.
pub open spec fn spec_trim(s: Seq<char>) -> Seq<char> {
    spec_trim_end(spec_trim_start(s))
}

pub fn trim(s: &str) -> (r: String)
    ensures
        r@ == spec_trim(s@),
{
    let n = s.unicode_len();
    proof {
        assert(s@.skip(0) =~= s@);
    }
    let mut a: usize = 0;
    while a < n && s.get_char(a) == ' '
        invariant
            a <= n,
            n == s@.len(),
            spec_trim_start(s@) == spec_trim_start(s@.skip(a as int)),
        decreases n - a,
    {
        proof {
            assert(s@.skip(a as int).drop_first() =~= s@.skip(a as int + 1));
        }
        a = a + 1;
    }
    proof {
        if a == n {
            assert(s@.skip(a as int) =~= Seq::<char>::empty());
        }
        assert(spec_trim_start(s@) == s@.skip(a as int));
    }
    let mut b: usize = n;
    while b > a && s.get_char(b - 1) == ' '
        invariant
            a <= b <= n,
            n == s@.len(),
            spec_trim_end(s@.skip(a as int)) == spec_trim_end(s@.subrange(a as int, b as int)),
        decreases b,
    {
        proof {
            assert(s@.subrange(a as int, b as int).drop_last() =~= s@.subrange(
                a as int,
                b as int - 1,
            ));
            assert(s@.subrange(a as int, b as int).last() == s@[b - 1]);
        }
        b = b - 1;
    }
    proof {
        if b == a {
            assert(s@.subrange(a as int, b as int) =~= Seq::<char>::empty());
        }
        assert(spec_trim_end(s@.subrange(a as int, b as int)) == s@.subrange(a as int, b as int));
    }
    s.substring_char(a, b).to_owned()
}

/// The first position at or after `from` where a `${` placeholder opens.
pub open spec fn spec_find_opening(s: Seq<char>, from: int) -> Option<int>
    decreases s.len() - from,
{
    if from + 2 > s.len() {
        None
    } else if s[from] == '$' && s[from + 1] == '{' {
        Some(from)
    } else {
        spec_find_opening(s, from + 1)
    }
}

/// Where [`spec_find_opening`] points.
pub proof fn lemma_find_opening(s: Seq<char>, from: int)
    requires
        0 <= from,
    ensures
        match spec_find_opening(s, from) {
            Some(i) => from <= i && i + 2 <= s.len() && s[i] == '$' && s[i + 1] == '{',
            None => true,
        },
    decreases s.len() - from,
{
    if from + 2 <= s.len() && !(s[from] == '$' && s[from + 1] == '{') {
        lemma_find_opening(s, from + 1);
    }
}

pub fn find_opening(s: &str, from: usize) -> (r: Option<usize>)
    ensures
        match r {
            Some(i) => spec_find_opening(s@, from as int) == Some(i as int),
            None => spec_find_opening(s@, from as int) is None,
        },
{
    let n = s.unicode_len();
    let mut i: usize = from;
    while i < n && i + 1 < n
        invariant
            from <= i,
            n == s@.len(),
            spec_find_opening(s@, from as int) == spec_find_opening(s@, i as int),
        decreases n - i,
    {
        if s.get_char(i) == '$' && s.get_char(i + 1) == '{' {
            return Some(i);
        }
        i = i + 1;
    }
    None
}

/// The result of one substitution pass over `s`, looking placeholder
/// names up in `vars`.
pub open spec fn spec_extrapolate(s: Seq<char>, vars: Map<Seq<char>, Seq<char>>) -> Result<
    Seq<char>,
    SpecError,
>
    decreases s.len(),
    via spec_extrapolate_decreases
{
    match spec_find_opening(s, 0) {
        None => Ok(s),
        Some(i) => {
            let rest = s.skip(i + 2);
            match spec_find_char(rest, '}', 0) {
                None => Ok(s),
                Some(j) => {
                    let name = spec_trim(rest.take(j));
                    if !vars.contains_key(name) {
                        Err(SpecError::Missing(name))
                    } else {
                        match spec_extrapolate(rest.skip(j + 1), vars) {
                            Ok(t) => Ok(s.take(i) + vars[name] + t),
                            Err(e) => Err(e),
                        }
                    }
                },
            }
        },
    }
}

#[via_fn]
proof fn spec_extrapolate_decreases(s: Seq<char>, vars: Map<Seq<char>, Seq<char>>) {
    lemma_find_opening(s, 0);
    match spec_find_opening(s, 0) {
        Some(i) => {
            lemma_find_char(s.skip(i + 2), '}', 0);
        },
        None => {},
    }
}

/// A string with no opening `${` extrapolates to itself.
pub proof fn lemma_extrapolate_plain(s: Seq<char>, vars: Map<Seq<char>, Seq<char>>)
    requires
        spec_find_opening(s, 0) is None,
    ensures
        spec_extrapolate(s, vars) == Ok::<Seq<char>, SpecError>(s),
{
}

/// One substitution pass over `s`: each `${NAME}` placeholder is replaced
/// by the value of `NAME` in `vars`.
pub fn extrapolate(s: &str, vars: &Store) -> (r: Result<String, Error>)
    ensures
        match r {
            Ok(t) => spec_extrapolate(s@, vars@) == Ok::<Seq<char>, SpecError>(t@),
            Err(e) => spec_extrapolate(s@, vars@) == Err::<Seq<char>, SpecError>(e@),
        },
    decreases s@.len(),
{
    proof {
        lemma_find_opening(s@, 0);
    }
    let n = s.unicode_len();
    match find_opening(s, 0) {
        None => Ok(s.to_owned()),
        Some(i) => {
            let rest = s.substring_char(i + 2, n);
            proof {
                assert(rest@ =~= s@.skip(i + 2));
                lemma_find_char(rest@, '}', 0);
            }
            match find_char(rest, '}', 0) {
                None => Ok(s.to_owned()),
                Some(j) => {
                    let name = trim(rest.substring_char(0, j));
                    proof {
                        assert(rest@.subrange(0, j as int) =~= rest@.take(j as int));
                    }
                    match vars.get(name.as_str()) {
                        None => Err(Error::Missing(name)),
                        Some(v) => {
                            let value = v.clone();
                            let tail = rest.substring_char(j + 1, rest.unicode_len());
                            proof {
                                assert(tail@ =~= rest@.skip(j + 1));
                            }
                            match extrapolate(tail, vars) {
                                Ok(t) => {
                                    let mut out = s.substring_char(0, i).to_owned();
                                    out.append(value.as_str());
                                    out.append(t.as_str());
                                    proof {
                                        assert(s@.subrange(0, i as int) =~= s@.take(i as int));
                                    }
                                    Ok(out)
                                },
                                Err(e) => Err(e),
                            }
                        },
                    }
                },
            }
        },
    }
}

} // verus!
