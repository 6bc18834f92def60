//! Custom converters: injectable callables that a field may name in place
//! of standard resolution, with a load converter `(store) -> value`, an
//! export converter `(value) -> key/value pairs`, and an export-suppression
//! predicate `(value) -> bool`.  A schema stores a converter's handle; a
//! [`Converters`] registry resolves handles at marshalling time.

use vstd::prelude::*;

use crate::errors::{Error, SpecError};
use crate::store::Store;
use crate::value::{FieldValue, Scalar, SpecFieldValue, SpecScalar};

verus! {

/// The views of a list of key/value pairs, pointwise.
pub open spec fn spec_pairs_view(pairs: Seq<(String, String)>) -> Seq<(Seq<char>, Seq<char>)> {
    Seq::new(pairs.len(), |i: int| (pairs[i].0@, pairs[i].1@))
}

/// A registry of custom converters, looked up by handle.
///
/// Each executable method is tied to its own specification, so whatever a
/// registry's converters do is part of the marshalling contracts.
pub trait Converters: Sized {
    /// What the load converter with this handle yields from a store.
    spec fn spec_load(&self, name: Seq<char>, env: Map<Seq<char>, Seq<char>>) -> Result<
        SpecFieldValue,
        SpecError,
    >;

    /// The key/value pairs the export converter with this handle produces
    /// from a field value.
    spec fn spec_export(&self, name: Seq<char>, value: SpecFieldValue) -> Seq<
        (Seq<char>, Seq<char>),
    >;

    /// Whether the predicate with this handle suppresses export of a
    /// value.
    spec fn spec_skip_export_if(&self, name: Seq<char>, value: SpecFieldValue) -> bool;

    /// Runs the load converter named `name` on the store.
    fn load(&self, name: &str, env: &Store) -> (r: Result<FieldValue, Error>)
        ensures
            match r {
                Ok(v) => self.spec_load(name@, env@) == Ok::<SpecFieldValue, SpecError>(v@),
                Err(e) => self.spec_load(name@, env@) == Err::<SpecFieldValue, SpecError>(e@),
            },
    ;

    /// Runs the export converter named `name` on a field value.
    fn export(&self, name: &str, value: &FieldValue) -> (r: Vec<(String, String)>)
        ensures
            spec_pairs_view(r@) == self.spec_export(name@, value@),
    ;

    /// Evaluates the export-suppression predicate named `name`.
    fn skip_export_if(&self, name: &str, value: &FieldValue) -> (r: bool)
        ensures
            r == self.spec_skip_export_if(name@, value@),
    ;
}

/// The empty registry: every handle is unknown, reported as missing on
/// load; unknown export converters contribute nothing and unknown
/// predicates never suppress.
pub struct NoConverters;

impl Converters for NoConverters {
    open spec fn spec_load(&self, name: Seq<char>, env: Map<Seq<char>, Seq<char>>) -> Result<
        SpecFieldValue,
        SpecError,
    > {
        Err(SpecError::Missing(name))
    }

    open spec fn spec_export(&self, name: Seq<char>, value: SpecFieldValue) -> Seq<
        (Seq<char>, Seq<char>),
    > {
        Seq::empty()
    }

    open spec fn spec_skip_export_if(&self, name: Seq<char>, value: SpecFieldValue) -> bool {
        false
    }

    fn load(&self, name: &str, env: &Store) -> (r: Result<FieldValue, Error>) {
        Err(Error::Missing(name.to_owned()))
    }

    fn export(&self, name: &str, value: &FieldValue) -> (r: Vec<(String, String)>) {
        let r: Vec<(String, String)> = Vec::new();
        proof {
            assert(spec_pairs_view(r@) =~= Seq::<(Seq<char>, Seq<char>)>::empty());
        }
        r
    }

    fn skip_export_if(&self, name: &str, value: &FieldValue) -> (r: bool) {
        false
    }
}

/// The first value bound to `name` in a handle table.
pub open spec fn spec_table_lookup(t: Seq<(String, String)>, name: Seq<char>) -> Option<Seq<char>>
    decreases t.len(),
{
    if t.len() == 0 {
        None
    } else if t[0].0@ == name {
        Some(t[0].1@)
    } else {
        spec_table_lookup(t.drop_first(), name)
    }
}

/// The first pair bound to `name` in an export-converter table.
pub open spec fn spec_pair_lookup(t: Seq<(String, (String, String))>, name: Seq<char>) -> Option<
    (Seq<char>, Seq<char>),
>
    decreases t.len(),
{
    if t.len() == 0 {
        None
    } else if t[0].0@ == name {
        Some((t[0].1.0@, t[0].1.1@))
    } else {
        spec_pair_lookup(t.drop_first(), name)
    }
}

/// Whether a name list holds `name`.
pub open spec fn spec_names_contain(t: Seq<String>, name: Seq<char>) -> bool {
    exists|i: int| 0 <= i < t.len() && t[i]@ == name
}

/// A registry of table-driven converters: a load handle yields a fixed
/// string value, an export handle a fixed key/value pair, and a listed
/// predicate handle always suppresses.
pub struct TableConverters {
    /// Load handle to the string value it yields, regardless of the store.
    pub loads: Vec<(String, String)>,
    /// Export handle to the one key/value pair it produces, regardless of
    /// the field value.
    pub exports: Vec<(String, (String, String))>,
    /// Predicate handles that suppress export of any value.
    pub skips: Vec<String>,
}

impl Converters for TableConverters {
    open spec fn spec_load(&self, name: Seq<char>, env: Map<Seq<char>, Seq<char>>) -> Result<
        SpecFieldValue,
        SpecError,
    > {
        match spec_table_lookup(self.loads@, name) {
            Some(v) => Ok(SpecFieldValue::Scalar(SpecScalar::Str(v))),
            None => Err(SpecError::Missing(name)),
        }
    }

    open spec fn spec_export(&self, name: Seq<char>, value: SpecFieldValue) -> Seq<
        (Seq<char>, Seq<char>),
    > {
        match spec_pair_lookup(self.exports@, name) {
            Some(p) => seq![p],
            None => Seq::empty(),
        }
    }

    open spec fn spec_skip_export_if(&self, name: Seq<char>, value: SpecFieldValue) -> bool {
        spec_names_contain(self.skips@, name)
    }

    fn load(&self, name: &str, env: &Store) -> (r: Result<FieldValue, Error>) {
        let n = self.loads.len();
        proof {
            assert(self.loads@.skip(0) =~= self.loads@);
        }
        let mut i: usize = 0;
        while i < n
            invariant
                i <= n,
                n == self.loads@.len(),
                spec_table_lookup(self.loads@, name@) == spec_table_lookup(
                    self.loads@.skip(i as int),
                    name@,
                ),
            decreases n - i,
        {
            proof {
                assert(self.loads@.skip(i as int).drop_first() =~= self.loads@.skip(i as int + 1));
                assert(self.loads@.skip(i as int)[0] == self.loads@[i as int]);
            }
            if crate::text::str_eq(self.loads[i].0.as_str(), name) {
                return Ok(FieldValue::Scalar(Scalar::Str(self.loads[i].1.clone())));
            }
            i = i + 1;
        }
        proof {
            assert(self.loads@.skip(n as int) =~= Seq::<(String, String)>::empty());
        }
        Err(Error::Missing(name.to_owned()))
    }

    fn export(&self, name: &str, value: &FieldValue) -> (r: Vec<(String, String)>) {
        let n = self.exports.len();
        proof {
            assert(self.exports@.skip(0) =~= self.exports@);
        }
        let mut i: usize = 0;
        while i < n
            invariant
                i <= n,
                n == self.exports@.len(),
                spec_pair_lookup(self.exports@, name@) == spec_pair_lookup(
                    self.exports@.skip(i as int),
                    name@,
                ),
            decreases n - i,
        {
            proof {
                assert(self.exports@.skip(i as int).drop_first() =~= self.exports@.skip(
                    i as int + 1,
                ));
                assert(self.exports@.skip(i as int)[0] == self.exports@[i as int]);
            }
            if crate::text::str_eq(self.exports[i].0.as_str(), name) {
                let mut r: Vec<(String, String)> = Vec::new();
                r.push((self.exports[i].1.0.clone(), self.exports[i].1.1.clone()));
                proof {
                    assert(spec_pairs_view(r@) =~= seq![
                        (self.exports@[i as int].1.0@, self.exports@[i as int].1.1@),
                    ]);
                }
                return r;
            }
            i = i + 1;
        }
        proof {
            assert(self.exports@.skip(n as int) =~= Seq::<(String, (String, String))>::empty());
        }
        let r: Vec<(String, String)> = Vec::new();
        proof {
            assert(spec_pairs_view(r@) =~= Seq::<(Seq<char>, Seq<char>)>::empty());
        }
        r
    }

    fn skip_export_if(&self, name: &str, value: &FieldValue) -> (r: bool) {
        let n = self.skips.len();
        let mut i: usize = 0;
        while i < n
            invariant
                i <= n,
                n == self.skips@.len(),
                forall|j: int| 0 <= j < i ==> self.skips@[j]@ != name@,
            decreases n - i,
        {
            if crate::text::str_eq(self.skips[i].as_str(), name) {
                return true;
            }
            i = i + 1;
        }
        false
    }
}

} // verus!
