//! The marshalling engine: per field, one of skip, custom converter,
//! recursive nested marshalling, or standard resolution, in a fixed
//! priority order; field results aggregate into the constructed structure
//! (import) or the outbound map (export).
//!
//! Fields are processed in declaration order and the first error aborts
//! the whole call.  On export, colliding keys are resolved by the
//! last-written field winning; a nested structure's pairs are merged in
//! place at the point of its field.

use vstd::prelude::*;

use crate::convert::{spec_pairs_view, Converters};
use crate::errors::{Error, SpecError};
use crate::resolve::{
    load_optional_var,
    load_vec,
    render_list,
    spec_load_optional_var,
    spec_load_vec,
    spec_render_list,
};
use crate::schema::{
    resolve_key,
    spec_resolve_key,
    spec_struct_matches,
    spec_value_matches,
    spec_zero_of_shape,
    zero_of_shape,
    Container,
    Field,
    FieldDefault,
    Schema,
    Shape,
};
use crate::store::Store;
use crate::value::{
    render_scalar,
    spec_render_scalar,
    spec_zero_scalar,
    zero_scalar,
    FieldValue,
    SpecFieldValue,
    SpecStructValue,
    StructValue,
};

verus! {

/// What import yields for one field: skip, converter, nested import, or
/// standard resolution, in that priority order.
pub open spec fn spec_import_field<C: Converters>(
    c: Container,
    f: Field,
    env: Map<Seq<char>, Seq<char>>,
    vars: Map<Seq<char>, Seq<char>>,
    conv: C,
) -> Result<SpecFieldValue, SpecError>
    decreases f.shape, 1int, 0int,
{
    if f.skip || f.skip_load {
        Ok(spec_zero_of_shape(f.shape))
    } else if f.load_with is Some {
        conv.spec_load(f.load_with->0@, env)
    } else {
        match f.shape {
            Shape::Nested(s) => match spec_import(s, env, vars, conv) {
                Ok(sv) => Ok(SpecFieldValue::Nested(sv)),
                Err(e) => Err(e),
            },
            Shape::OptionalNested(s) => match spec_import(s, env, vars, conv) {
                Ok(sv) => Ok(SpecFieldValue::OptionalNested(Some(sv))),
                Err(e) => Err(e),
            },
            Shape::Optional(kind) => match spec_load_optional_var(
                env,
                spec_resolve_key(c, f),
                None,
                vars,
                kind,
            ) {
                Ok(o) => Ok(SpecFieldValue::Optional(o)),
                Err(e) => Err(e),
            },
            Shape::Scalar(kind) => {
                let key = spec_resolve_key(c, f);
                let default = match f.default {
                    FieldDefault::Explicit(d) => Some(d@),
                    _ => None,
                };
                match spec_load_optional_var(env, key, default, vars, kind) {
                    Err(e) => Err(e),
                    Ok(Some(v)) => Ok(SpecFieldValue::Scalar(v)),
                    Ok(None) => if f.default is Required {
                        Err(SpecError::Missing(key))
                    } else {
                        Ok(SpecFieldValue::Scalar(spec_zero_scalar(kind)))
                    },
                }
            },
            Shape::List(kind) => {
                let key = spec_resolve_key(c, f);
                let default = match f.default {
                    FieldDefault::Explicit(d) => Some(d@),
                    _ => None,
                };
                match spec_load_vec(env, key, default, vars, f.separator, kind) {
                    Err(e) => Err(e),
                    Ok(Some(items)) => Ok(SpecFieldValue::List(items)),
                    Ok(None) => if f.default is Required {
                        Err(SpecError::Missing(key))
                    } else {
                        Ok(SpecFieldValue::List(Seq::empty()))
                    },
                }
            },
        }
    }
}

/// The values of the first `n` fields, or the first error among them.
pub open spec fn spec_import_upto<C: Converters>(
    s: Schema,
    env: Map<Seq<char>, Seq<char>>,
    vars: Map<Seq<char>, Seq<char>>,
    conv: C,
    n: int,
) -> Result<Seq<SpecFieldValue>, SpecError>
    decreases s, 0int, n,
    via spec_import_upto_decreases::<C>
{
    if n <= 0 {
        Ok(Seq::empty())
    } else if n > s.fields@.len() {
        spec_import_upto(s, env, vars, conv, s.fields@.len() as int)
    } else {
        match spec_import_upto(s, env, vars, conv, n - 1) {
            Err(e) => Err(e),
            Ok(vs) => match spec_import_field(s.container, s.fields@[n - 1], env, vars, conv) {
                Ok(v) => Ok(vs.push(v)),
                Err(e) => Err(e),
            },
        }
    }
}

#[via_fn]
proof fn spec_import_upto_decreases<C: Converters>(
    s: Schema,
    env: Map<Seq<char>, Seq<char>>,
    vars: Map<Seq<char>, Seq<char>>,
    conv: C,
    n: int,
) {
    if 0 < n <= s.fields@.len() {
        assert(decreases_to!(s => s.fields));
        assert(decreases_to!(s.fields => s.fields@[n - 1]));
        assert(decreases_to!(s.fields@[n - 1] => s.fields@[n - 1].shape));
    }
}

/// The structure a store imports as under a schema: every field's value
/// in declaration order, or the first error.
pub open spec fn spec_import<C: Converters>(
    s: Schema,
    env: Map<Seq<char>, Seq<char>>,
    vars: Map<Seq<char>, Seq<char>>,
    conv: C,
) -> Result<SpecStructValue, SpecError>
    decreases s, 1int, 0int,
{
    match spec_import_upto(s, env, vars, conv, s.fields@.len() as int) {
        Ok(fields) => Ok(SpecStructValue { fields }),
        Err(e) => Err(e),
    }
}

/// An error among the first `i` fields is the error of any longer prefix.
proof fn lemma_import_upto_error<C: Converters>(
    s: Schema,
    env: Map<Seq<char>, Seq<char>>,
    vars: Map<Seq<char>, Seq<char>>,
    conv: C,
    i: int,
    n: int,
    e: SpecError,
)
    requires
        spec_import_upto(s, env, vars, conv, i) == Err::<Seq<SpecFieldValue>, SpecError>(e),
        i <= n,
    ensures
        spec_import_upto(s, env, vars, conv, n) == Err::<Seq<SpecFieldValue>, SpecError>(e),
    decreases n - i,
{
    if i < n {
        lemma_import_upto_error(s, env, vars, conv, i + 1, n, e);
    }
}

/// Imports one field.
fn import_field<C: Converters>(
    c: &Container,
    f: &Field,
    env: &Store,
    vars: &Store,
    conv: &C,
) -> (r: Result<FieldValue, Error>)
    ensures
        match r {
            Ok(v) => spec_import_field(*c, *f, env@, vars@, *conv) == Ok::<
                SpecFieldValue,
                SpecError,
            >(v@),
            Err(e) => spec_import_field(*c, *f, env@, vars@, *conv) == Err::<
                SpecFieldValue,
                SpecError,
            >(e@),
        },
    decreases f.shape,
{
    if f.skip || f.skip_load {
        return Ok(zero_of_shape(&f.shape));
    }
    if let Some(name) = &f.load_with {
        return conv.load(name.as_str(), env);
    }
    match &f.shape {
        Shape::Nested(s) => match from(s, env, vars, conv) {
            Ok(sv) => Ok(FieldValue::Nested(sv)),
            Err(e) => Err(e),
        },
        Shape::OptionalNested(s) => match from(s, env, vars, conv) {
            Ok(sv) => Ok(FieldValue::OptionalNested(Some(sv))),
            Err(e) => Err(e),
        },
        Shape::Optional(kind) => {
            let key = resolve_key(c, f);
            match load_optional_var(env, key.as_str(), None, vars, *kind) {
                Ok(o) => Ok(FieldValue::Optional(o)),
                Err(e) => Err(e),
            }
        },
        Shape::Scalar(kind) => {
            let key = resolve_key(c, f);
            let default: Option<&str> = match &f.default {
                FieldDefault::Explicit(d) => Some(d.as_str()),
                _ => None,
            };
            match load_optional_var(env, key.as_str(), default, vars, *kind) {
                Err(e) => Err(e),
                Ok(Some(v)) => Ok(FieldValue::Scalar(v)),
                Ok(None) => match &f.default {
                    FieldDefault::Required => Err(Error::Missing(key)),
                    _ => Ok(FieldValue::Scalar(zero_scalar(*kind))),
                },
            }
        },
        Shape::List(kind) => {
            let key = resolve_key(c, f);
            let default: Option<&str> = match &f.default {
                FieldDefault::Explicit(d) => Some(d.as_str()),
                _ => None,
            };
            match load_vec(env, key.as_str(), default, vars, f.separator, *kind) {
                Err(e) => Err(e),
                Ok(Some(items)) => Ok(FieldValue::List(items)),
                Ok(None) => match &f.default {
                    FieldDefault::Required => Err(Error::Missing(key)),
                    _ => {
                        let items: Vec<crate::value::Scalar> = Vec::new();
                        proof {
                            assert(crate::value::spec_scalars_view(items@) =~= Seq::<
                                crate::value::SpecScalar,
                            >::empty());
                        }
                        Ok(FieldValue::List(items))
                    },
                },
            }
        },
    }
}

/// Imports a structure from the backing store `env`, with `vars` as the
/// variable store that default extrapolation reads.
pub fn from<C: Converters>(schema: &Schema, env: &Store, vars: &Store, conv: &C) -> (r: Result<
    StructValue,
    Error,
>)
    ensures
        match r {
            Ok(sv) => spec_import(*schema, env@, vars@, *conv) == Ok::<
                SpecStructValue,
                SpecError,
            >(sv@),
            Err(e) => spec_import(*schema, env@, vars@, *conv) == Err::<
                SpecStructValue,
                SpecError,
            >(e@),
        },
    decreases *schema,
{
    let n = schema.fields.len();
    let mut fields: Vec<FieldValue> = Vec::new();
    let mut i: usize = 0;
    while i < n
        invariant
            i <= n,
            n == schema.fields@.len(),
            spec_import_upto(*schema, env@, vars@, *conv, i as int) == Ok::<
                Seq<SpecFieldValue>,
                SpecError,
            >(crate::value::spec_field_values_view(fields@)),
        decreases n - i,
    {
        proof {
            assert(decreases_to!(*schema => schema.fields));
            assert(decreases_to!(schema.fields => schema.fields@[i as int]));
        }
        match import_field(&schema.container, &schema.fields[i], env, vars, conv) {
            Ok(v) => {
                let ghost prev = fields@;
                fields.push(v);
                proof {
                    assert(fields@.drop_last() =~= prev);
                }
            },
            Err(e) => {
                proof {
                    lemma_import_upto_error(
                        *schema,
                        env@,
                        vars@,
                        *conv,
                        i as int + 1,
                        n as int,
                        e@,
                    );
                }
                return Err(e);
            },
        }
        i = i + 1;
    }
    Ok(StructValue { fields })
}

/// Key/value pairs written over a map, in order, last write winning.
pub open spec fn spec_pairs_apply(
    m: Map<Seq<char>, Seq<char>>,
    pairs: Seq<(Seq<char>, Seq<char>)>,
) -> Map<Seq<char>, Seq<char>>
    decreases pairs.len(),
{
    if pairs.len() == 0 {
        m
    } else {
        spec_pairs_apply(m, pairs.drop_last()).insert(pairs.last().0, pairs.last().1)
    }
}

/// Writing a concatenation is writing one part after the other.
pub proof fn lemma_pairs_apply_concat(
    m: Map<Seq<char>, Seq<char>>,
    a: Seq<(Seq<char>, Seq<char>)>,
    b: Seq<(Seq<char>, Seq<char>)>,
)
    ensures
        spec_pairs_apply(m, a + b) == spec_pairs_apply(spec_pairs_apply(m, a), b),
    decreases b.len(),
{
    if b.len() == 0 {
        assert(a + b =~= a);
    } else {
        lemma_pairs_apply_concat(m, a, b.drop_last());
        assert((a + b).drop_last() =~= a + b.drop_last());
        assert((a + b).last() == b.last());
    }
}

/// Writing a single pair is one insert.
proof fn lemma_pairs_apply_singleton(m: Map<Seq<char>, Seq<char>>, p: (Seq<char>, Seq<char>))
    ensures
        spec_pairs_apply(m, seq![p]) == m.insert(p.0, p.1),
{
    assert(seq![p].drop_last() =~= Seq::<(Seq<char>, Seq<char>)>::empty());
    assert(spec_pairs_apply(m, Seq::<(Seq<char>, Seq<char>)>::empty()) == m);
}

/// The key/value pairs one field contributes to an export: nothing when
/// suppressed, the converter's pairs, a nested structure's pairs, or the
/// field's own key with its rendered value.
pub open spec fn spec_export_field<C: Converters>(
    c: Container,
    f: Field,
    v: SpecFieldValue,
    conv: C,
) -> Seq<(Seq<char>, Seq<char>)>
    decreases f.shape, 1int, 0int,
{
    if f.skip || f.skip_export {
        Seq::empty()
    } else if f.skip_export_if is Some && conv.spec_skip_export_if(f.skip_export_if->0@, v) {
        Seq::empty()
    } else if f.export_with is Some {
        conv.spec_export(f.export_with->0@, v)
    } else {
        match f.shape {
            Shape::Nested(s) => match v {
                SpecFieldValue::Nested(sv) => spec_export_pairs(s, sv, conv),
                _ => Seq::empty(),
            },
            Shape::OptionalNested(s) => match v {
                SpecFieldValue::OptionalNested(Some(sv)) => spec_export_pairs(s, sv, conv),
                _ => Seq::empty(),
            },
            Shape::Optional(_) => match v {
                SpecFieldValue::Optional(Some(x)) => seq![
                    (spec_resolve_key(c, f), spec_render_scalar(x)),
                ],
                _ => Seq::empty(),
            },
            Shape::Scalar(_) => match v {
                SpecFieldValue::Scalar(x) => seq![(spec_resolve_key(c, f), spec_render_scalar(x))],
                _ => Seq::empty(),
            },
            Shape::List(_) => match v {
                SpecFieldValue::List(items) => seq![
                    (spec_resolve_key(c, f), spec_render_list(items, f.separator)),
                ],
                _ => Seq::empty(),
            },
        }
    }
}

/// The pairs contributed by the first `n` fields, in declaration order.
pub open spec fn spec_export_upto<C: Converters>(
    s: Schema,
    sv: SpecStructValue,
    conv: C,
    n: int,
) -> Seq<(Seq<char>, Seq<char>)>
    decreases s, 0int, n,
    via spec_export_upto_decreases::<C>
{
    if n <= 0 {
        Seq::empty()
    } else if n > s.fields@.len() {
        spec_export_upto(s, sv, conv, s.fields@.len() as int)
    } else {
        spec_export_upto(s, sv, conv, n - 1) + spec_export_field(
            s.container,
            s.fields@[n - 1],
            sv.fields[n - 1],
            conv,
        )
    }
}

#[via_fn]
proof fn spec_export_upto_decreases<C: Converters>(
    s: Schema,
    sv: SpecStructValue,
    conv: C,
    n: int,
) {
    if 0 < n <= s.fields@.len() {
        assert(decreases_to!(s => s.fields));
        assert(decreases_to!(s.fields => s.fields@[n - 1]));
        assert(decreases_to!(s.fields@[n - 1] => s.fields@[n - 1].shape));
    }
}

/// Every key/value pair an export of the structure writes, in write
/// order.
pub open spec fn spec_export_pairs<C: Converters>(s: Schema, sv: SpecStructValue, conv: C) -> Seq<
    (Seq<char>, Seq<char>),
>
    decreases s, 1int, 0int,
{
    spec_export_upto(s, sv, conv, s.fields@.len() as int)
}

/// The map an export of the structure produces.
pub open spec fn spec_export_map<C: Converters>(s: Schema, sv: SpecStructValue, conv: C) -> Map<
    Seq<char>,
    Seq<char>,
> {
    spec_pairs_apply(Map::empty(), spec_export_pairs(s, sv, conv))
}

/// Writes one field's pairs into the outbound store.
fn export_field_into<C: Converters>(
    c: &Container,
    f: &Field,
    v: &FieldValue,
    conv: &C,
    out: &mut Store,
)
    requires
        spec_value_matches(v@, f.shape),
    ensures
        final(out)@ == spec_pairs_apply(old(out)@, spec_export_field(*c, *f, v@, *conv)),
    decreases f.shape,
{
    if f.skip || f.skip_export {
        return ;
    }
    if let Some(name) = &f.skip_export_if {
        if conv.skip_export_if(name.as_str(), v) {
            return ;
        }
    }
    if let Some(name) = &f.export_with {
        let pairs = conv.export(name.as_str(), v);
        let n = pairs.len();
        let ghost spec_pairs = spec_pairs_view(pairs@);
        let mut i: usize = 0;
        while i < n
            invariant
                i <= n,
                n == pairs@.len(),
                spec_pairs == spec_pairs_view(pairs@),
                out@ == spec_pairs_apply(old(out)@, spec_pairs.take(i as int)),
            decreases n - i,
        {
            let key = pairs[i].0.clone();
            let value = pairs[i].1.clone();
            out.insert(key, value);
            i = i + 1;
            proof {
                assert(spec_pairs.take(i as int).drop_last() =~= spec_pairs.take(i as int - 1));
            }
        }
        proof {
            assert(spec_pairs.take(n as int) =~= spec_pairs);
        }
        return ;
    }
    match (&f.shape, v) {
        (Shape::Nested(s), FieldValue::Nested(sv)) => {
            collect_into(s, sv, conv, out);
        },
        (Shape::OptionalNested(s), FieldValue::OptionalNested(o)) => {
            match o {
                Some(sv) => {
                    collect_into(s, sv, conv, out);
                },
                None => {
                    proof {
                        assert(spec_pairs_apply(
                            old(out)@,
                            Seq::<(Seq<char>, Seq<char>)>::empty(),
                        ) == old(out)@);
                    }
                },
            }
        },
        (Shape::Optional(_), FieldValue::Optional(o)) => {
            match o {
                Some(x) => {
                    let key = resolve_key(c, f);
                    let value = render_scalar(x);
                    let ghost pair = (key@, value@);
                    out.insert(key, value);
                    proof {
                        lemma_pairs_apply_singleton(old(out)@, pair);
                    }
                },
                None => {},
            }
        },
        (Shape::Scalar(_), FieldValue::Scalar(x)) => {
            let key = resolve_key(c, f);
            let value = render_scalar(x);
            let ghost pair = (key@, value@);
            out.insert(key, value);
            proof {
                lemma_pairs_apply_singleton(old(out)@, pair);
            }
        },
        (Shape::List(_), FieldValue::List(items)) => {
            let key = resolve_key(c, f);
            let value = render_list(items, f.separator);
            let ghost pair = (key@, value@);
            out.insert(key, value);
            proof {
                lemma_pairs_apply_singleton(old(out)@, pair);
            }
        },
        _ => {
            proof {
                assert(false);
            }
        },
    }
}

/// Writes every field's pairs into the outbound store, in declaration
/// order.
fn collect_into<C: Converters>(s: &Schema, sv: &StructValue, conv: &C, out: &mut Store)
    requires
        spec_struct_matches(sv@, *s),
    ensures
        final(out)@ == spec_pairs_apply(old(out)@, spec_export_pairs(*s, sv@, *conv)),
    decreases *s,
{
    let n = s.fields.len();
    proof {
        crate::value::lemma_field_values_view(sv.fields@);
    }
    let mut i: usize = 0;
    while i < n
        invariant
            i <= n,
            n == s.fields@.len(),
            sv.fields@.len() == n,
            out@ == spec_pairs_apply(old(out)@, spec_export_upto(*s, sv@, *conv, i as int)),
        decreases n - i,
    {
        proof {
            assert(decreases_to!(*s => s.fields));
            assert(decreases_to!(s.fields => s.fields@[i as int]));
            assert(sv@.fields[i as int] == sv.fields@[i as int]@);
        }
        export_field_into(&s.container, &s.fields[i], &sv.fields[i], conv, out);
        proof {
            lemma_pairs_apply_concat(
                old(out)@,
                spec_export_upto(*s, sv@, *conv, i as int),
                spec_export_field(s.container, s.fields@[i as int], sv.fields@[i as int]@, *conv),
            );
        }
        i = i + 1;
    }
}

/// Exports a structure into a fresh map: per field, skip, predicate,
/// converter, nested export, or the resolved key with the rendered value.
pub fn collect<C: Converters>(schema: &Schema, value: &StructValue, conv: &C) -> (r: Store)
    requires
        spec_struct_matches(value@, *schema),
    ensures
        r@ == spec_export_map(*schema, value@, *conv),
{
    let mut out = Store::new();
    collect_into(schema, value, conv, &mut out);
    out
}

} // verus!
