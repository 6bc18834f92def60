//! The variable resolution engine: looking a key up in the backing store,
//! falling back to an extrapolated default, and parsing the raw text into
//! a scalar or a list of scalars.
//!
//! A missing key with no default resolves to nothing — escalation of a
//! missing required field happens one layer up, in the marshalling engine.

use vstd::prelude::*;

use crate::errors::{Error, Parse, SpecError};
use crate::extrapolate::{extrapolate, spec_extrapolate};
use crate::store::Store;
use crate::text::{spec_join, spec_split, split};
use crate::value::{
    kind_name,
    parse_scalar,
    spec_kind_name,
    spec_parse_scalar,
    spec_scalars_view,
    Kind,
    Scalar,
    SpecScalar,
};

verus! {

/// The raw text a key resolves to: the store value if the key is present,
/// else the extrapolated default, else nothing.
pub open spec fn spec_raw_value(
    env: Map<Seq<char>, Seq<char>>,
    var: Seq<char>,
    default: Option<Seq<char>>,
    vars: Map<Seq<char>, Seq<char>>,
) -> Result<Option<Seq<char>>, SpecError> {
    if env.contains_key(var) {
        Ok(Some(env[var]))
    } else {
        match default {
            None => Ok(None),
            Some(d) => match spec_extrapolate(d, vars) {
                Ok(t) => Ok(Some(t)),
                Err(e) => Err(e),
            },
        }
    }
}

/// The parse error reported for raw text that is no value of `kind`.
pub open spec fn spec_parse_error(var: Seq<char>, kind: Kind, raw: Seq<char>) -> SpecError {
    SpecError::Parse { key: var, ty: spec_kind_name(kind), raw, cause: "invalid value"@ }
}

/// Scalar resolution: raw text, when there is any, parsed in category
/// `kind`.
pub open spec fn spec_load_optional_var(
    env: Map<Seq<char>, Seq<char>>,
    var: Seq<char>,
    default: Option<Seq<char>>,
    vars: Map<Seq<char>, Seq<char>>,
    kind: Kind,
) -> Result<Option<SpecScalar>, SpecError> {
    match spec_raw_value(env, var, default, vars) {
        Err(e) => Err(e),
        Ok(None) => Ok(None),
        Ok(Some(raw)) => match spec_parse_scalar(kind, raw) {
            Some(v) => Ok(Some(v)),
            None => Err(spec_parse_error(var, kind, raw)),
        },
    }
}

/// Raw text read as a separated list: every segment must parse in
/// category `kind`.
pub open spec fn spec_parse_list(kind: Kind, raw: Seq<char>, sep: char) -> Option<
    Seq<SpecScalar>,
> {
    let parts = spec_split(raw, sep);
    if forall|i: int| 0 <= i < parts.len() ==> spec_parse_scalar(kind, #[trigger] parts[i]) is Some {
        Some(Seq::new(parts.len(), |i: int| spec_parse_scalar(kind, parts[i])->0))
    } else {
        None
    }
}

/// List resolution: raw text, when there is any, split by the separator
/// and parsed segment by segment.
pub open spec fn spec_load_vec(
    env: Map<Seq<char>, Seq<char>>,
    var: Seq<char>,
    default: Option<Seq<char>>,
    vars: Map<Seq<char>, Seq<char>>,
    sep: char,
    kind: Kind,
) -> Result<Option<Seq<SpecScalar>>, SpecError> {
    match spec_raw_value(env, var, default, vars) {
        Err(e) => Err(e),
        Ok(None) => Ok(None),
        Ok(Some(raw)) => match spec_parse_list(kind, raw, sep) {
            Some(items) => Ok(Some(items)),
            None => Err(spec_parse_error(var, kind, raw)),
        },
    }
}

/// The view of a scalar resolution result.
pub open spec fn spec_scalar_result_view(r: Result<Option<Scalar>, Error>) -> Result<
    Option<SpecScalar>,
    SpecError,
> {
    match r {
        Ok(None) => Ok(None),
        Ok(Some(v)) => Ok(Some(v@)),
        Err(e) => Err(e@),
    }
}

/// The view of a list resolution result.
pub open spec fn spec_list_result_view(r: Result<Option<Vec<Scalar>>, Error>) -> Result<
    Option<Seq<SpecScalar>>,
    SpecError,
> {
    match r {
        Ok(None) => Ok(None),
        Ok(Some(items)) => Ok(Some(spec_scalars_view(items@))),
        Err(e) => Err(e@),
    }
}

/// The raw text of `var`: the store entry, or the extrapolated default.
fn raw_value(env: &Store, var: &str, default: Option<&str>, vars: &Store) -> (r: Result<
    Option<String>,
    Error,
>)
    ensures
        match r {
            Ok(None) => spec_raw_value(env@, var@, spec_default_view(default), vars@) == Ok::<
                Option<Seq<char>>,
                SpecError,
            >(None),
            Ok(Some(raw)) => spec_raw_value(env@, var@, spec_default_view(default), vars@) == Ok::<
                Option<Seq<char>>,
                SpecError,
            >(Some(raw@)),
            Err(e) => spec_raw_value(env@, var@, spec_default_view(default), vars@) == Err::<
                Option<Seq<char>>,
                SpecError,
            >(e@),
        },
{
    match env.get(var) {
        Some(v) => Ok(Some(v.clone())),
        None => match default {
            None => Ok(None),
            Some(d) => match extrapolate(d, vars) {
                Ok(t) => Ok(Some(t)),
                Err(e) => Err(e),
            },
        },
    }
}

/// The view of an optional default string.
pub open spec fn spec_default_view(default: Option<&str>) -> Option<Seq<char>> {
    match default {
        Some(d) => Some(d@),
        None => None,
    }
}

/// Resolves `var` as a scalar of category `kind`: the store value if the
/// key is present, else the extrapolated `default`, parsed; nothing when
/// both are absent.
pub fn load_optional_var(env: &Store, var: &str, default: Option<&str>, vars: &Store, kind: Kind)
    -> (r: Result<Option<Scalar>, Error>)
    ensures
        spec_scalar_result_view(r) == spec_load_optional_var(
            env@,
            var@,
            spec_default_view(default),
            vars@,
            kind,
        ),
{
    let raw = match raw_value(env, var, default, vars) {
        Ok(raw) => raw,
        Err(e) => {
            return Err(e);
        },
    };
    match raw {
        None => Ok(None),
        Some(raw) => match parse_scalar(kind, raw.as_str()) {
            Some(v) => Ok(Some(v)),
            None => Err(Parse::new(var, kind_name(kind).as_str(), raw.as_str(), "invalid value")),
        },
    }
}

/// Resolves `var` as a list of category `kind`, split by `sep`.
pub fn load_vec(
    env: &Store,
    var: &str,
    default: Option<&str>,
    vars: &Store,
    sep: char,
    kind: Kind,
) -> (r: Result<Option<Vec<Scalar>>, Error>)
    ensures
        spec_list_result_view(r) == spec_load_vec(
            env@,
            var@,
            spec_default_view(default),
            vars@,
            sep,
            kind,
        ),
{
    let raw = match raw_value(env, var, default, vars) {
        Ok(raw) => raw,
        Err(e) => {
            return Err(e);
        },
    };
    match raw {
        None => Ok(None),
        Some(raw) => {
            let parts = split(raw.as_str(), sep);
            let n = parts.len();
            let mut items: Vec<Scalar> = Vec::new();
            let mut i: usize = 0;
            while i < n
                invariant
                    i <= n,
                    n == parts@.len(),
                    parts.deep_view() == spec_split(raw@, sep),
                    items@.len() == i,
                    forall|j: int|
                        0 <= j < i ==> spec_parse_scalar(kind, #[trigger] parts.deep_view()[j])
                            is Some,
                    forall|j: int|
                        0 <= j < i ==> #[trigger] items@[j]@ == spec_parse_scalar(
                            kind,
                            parts.deep_view()[j],
                        )->0,
                decreases n - i,
            {
                match parse_scalar(kind, parts[i].as_str()) {
                    Some(v) => {
                        items.push(v);
                    },
                    None => {
                        proof {
                            assert(spec_parse_scalar(kind, spec_split(raw@, sep)[i as int])
                                is None);
                        }
                        return Err(
                            Parse::new(
                                var,
                                kind_name(kind).as_str(),
                                raw.as_str(),
                                "invalid value",
                            ),
                        );
                    },
                }
                i = i + 1;
            }
            proof {
                let parts_v = spec_split(raw@, sep);
                assert(spec_scalars_view(items@) =~= Seq::new(
                    parts_v.len(),
                    |j: int| spec_parse_scalar(kind, parts_v[j])->0,
                ));
            }
            Ok(Some(items))
        },
    }
}

/// What export writes for a list: the rendered items joined by the
/// separator.
pub open spec fn spec_render_list(items: Seq<SpecScalar>, sep: char) -> Seq<char> {
    spec_join(Seq::new(items.len(), |i: int| crate::value::spec_render_scalar(items[i])), sep)
}

/// Renders a list of scalars as separated text.
pub fn render_list(items: &Vec<Scalar>, sep: char) -> (r: String)
    ensures
        r@ == spec_render_list(spec_scalars_view(items@), sep),
{
    let n = items.len();
    let mut rendered: Vec<String> = Vec::new();
    let mut i: usize = 0;
    while i < n
        invariant
            i <= n,
            n == items@.len(),
            rendered@.len() == i,
            forall|j: int|
                0 <= j < i ==> #[trigger] rendered@[j]@ == crate::value::spec_render_scalar(
                    items@[j]@,
                ),
        decreases n - i,
    {
        let s = crate::value::render_scalar(&items[i]);
        rendered.push(s);
        i = i + 1;
    }
    let r = crate::text::join(&rendered, sep);
    proof {
        assert(rendered.deep_view() =~= Seq::new(
            spec_scalars_view(items@).len(),
            |j: int| crate::value::spec_render_scalar(spec_scalars_view(items@)[j]),
        ));
    }
    r
}

} // verus!
