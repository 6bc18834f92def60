//! Typed configuration structures mapped to and from a flat string-keyed
//! store of environment variables.
//!
//! A [`schema::Schema`] describes one structure: a container prefix and one
//! [`schema::Field`] per member (naming, default, skip flags, separator,
//! nesting, converter handles).  The marshalling engine turns a backing
//! [`store::Store`] into a [`value::StructValue`] (import) and back
//! (export), field by field, in declaration order.

#![verifier::loop_isolation(false)]

use vstd::prelude::*;

pub mod convert;
pub mod errors;
pub mod extrapolate;
pub mod laws;
pub mod marshal;
pub mod num;
pub mod resolve;
pub mod schema;
pub mod store;
pub mod text;
pub mod value;

pub use errors::{Error, Parse, Unicode};
pub use marshal::from;
pub use resolve::{load_optional_var, load_vec};
pub use store::Store;

verus! {

/// The value stored under `key`, if any.  Every value an in-memory store
/// holds is text already, so no encoding failure can arise here.
pub fn try_get(env: &store::Store, key: &str) -> (r: Result<Option<String>, errors::Error>)
    ensures
        match r {
            Ok(Some(v)) => env@.contains_key(key@) && v@ == env@[key@],
            Ok(None) => !env@.contains_key(key@),
            Err(_) => false,
        },
{
    match env.get(key) {
        Some(v) => Ok(Some(v.clone())),
        None => Ok(None),
    }
}

/// Like [`try_get`], but a missing key is a `Missing` error.
pub fn get(env: &store::Store, key: &str) -> (r: Result<String, errors::Error>)
    ensures
        match r {
            Ok(v) => env@.contains_key(key@) && v@ == env@[key@],
            Err(e) => !env@.contains_key(key@) && e@ == errors::SpecError::Missing(key@),
        },
{
    match env.get(key) {
        Some(v) => Ok(v.clone()),
        None => Err(errors::Error::Missing(key.to_owned())),
    }
}

/// Parses the value of `key` in category `kind`; a missing key is
/// `Ok(None)`, an unparseable value a `Parse` error.
pub fn try_parse(env: &store::Store, key: &str, kind: value::Kind) -> (r: Result<
    Option<value::Scalar>,
    errors::Error,
>)
    ensures
        resolve::spec_scalar_result_view(r) == resolve::spec_load_optional_var(
            env@,
            key@,
            None,
            Map::empty(),
            kind,
        ),
{
    let vars = store::Store::new();
    resolve::load_optional_var(env, key, None, &vars, kind)
}

/// Like [`try_parse`], but a missing key is a `Missing` error.
pub fn parse(env: &store::Store, key: &str, kind: value::Kind) -> (r: Result<
    value::Scalar,
    errors::Error,
>)
    ensures
        match r {
            Ok(v) => resolve::spec_load_optional_var(env@, key@, None, Map::empty(), kind)
                == Ok::<Option<value::SpecScalar>, errors::SpecError>(Some(v@)),
            Err(e) => resolve::spec_load_optional_var(env@, key@, None, Map::empty(), kind)
                == Err::<Option<value::SpecScalar>, errors::SpecError>(e@) || (
            resolve::spec_load_optional_var(env@, key@, None, Map::empty(), kind) == Ok::<
                Option<value::SpecScalar>,
                errors::SpecError,
            >(None) && e@ == errors::SpecError::Missing(key@)),
        },
{
    match try_parse(env, key, kind) {
        Ok(Some(v)) => Ok(v),
        Ok(None) => Err(errors::Error::Missing(key.to_owned())),
        Err(e) => Err(e),
    }
}

} // verus!
