//! Laws of the marshalling engine, stated over the specification
//! functions that the engine's contracts use and proved once for all
//! schemas, stores and converter registries.

use vstd::prelude::*;

use crate::convert::Converters;
use crate::errors::SpecError;
use crate::extrapolate::{lemma_extrapolate_plain, spec_find_opening};
use crate::marshal::{
    spec_export_field,
    spec_export_map,
    spec_export_pairs,
    spec_export_upto,
    spec_import,
    spec_import_field,
    spec_import_upto,
    spec_pairs_apply,
};
use crate::schema::{
    spec_resolve_key,
    spec_zero_of_shape,
    Container,
    Field,
    FieldDefault,
    Schema,
    Shape,
};
use crate::value::{
    lemma_parse_render_scalar,
    lemma_parse_scalar_kind,
    spec_kind_of,
    spec_render_scalar,
    Kind,
    SpecFieldValue,
    SpecStructValue,
};

verus! {

/// A field skipped on load imports to its type's zero value, whatever the
/// store holds.
pub proof fn lemma_skip_load_zero<C: Converters>(
    c: Container,
    f: Field,
    env: Map<Seq<char>, Seq<char>>,
    vars: Map<Seq<char>, Seq<char>>,
    conv: C,
)
    requires
        f.skip || f.skip_load,
    ensures
        spec_import_field(c, f, env, vars, conv) == Ok::<SpecFieldValue, SpecError>(
            spec_zero_of_shape(f.shape),
        ),
{
}

/// A field skipped on export contributes no pair to the exported map,
/// whatever its value.
pub proof fn lemma_skip_export_empty<C: Converters>(
    c: Container,
    f: Field,
    v: SpecFieldValue,
    conv: C,
)
    requires
        f.skip || f.skip_export,
    ensures
        spec_export_field(c, f, v, conv) == Seq::<(Seq<char>, Seq<char>)>::empty(),
{
}

/// An optional field whose key is absent imports as `None`, never as an
/// error.
pub proof fn lemma_optional_missing_none<C: Converters>(
    c: Container,
    f: Field,
    env: Map<Seq<char>, Seq<char>>,
    vars: Map<Seq<char>, Seq<char>>,
    conv: C,
)
    requires
        !f.skip,
        !f.skip_load,
        f.load_with is None,
        f.shape matches Shape::Optional(_),
        !env.contains_key(spec_resolve_key(c, f)),
    ensures
        spec_import_field(c, f, env, vars, conv) == Ok::<SpecFieldValue, SpecError>(
            SpecFieldValue::Optional(None),
        ),
{
}

/// A scalar or list field with a zero-value default imports as the
/// type's zero value when its key is absent.
pub proof fn lemma_zero_default<C: Converters>(
    c: Container,
    f: Field,
    env: Map<Seq<char>, Seq<char>>,
    vars: Map<Seq<char>, Seq<char>>,
    conv: C,
)
    requires
        !f.skip,
        !f.skip_load,
        f.load_with is None,
        f.shape matches Shape::Scalar(_) || f.shape matches Shape::List(_),
        f.default is ZeroValue,
        !env.contains_key(spec_resolve_key(c, f)),
    ensures
        spec_import_field(c, f, env, vars, conv) == Ok::<SpecFieldValue, SpecError>(
            spec_zero_of_shape(f.shape),
        ),
{
}

/// A string field with an explicit, placeholder-free default imports as
/// that literal when its key is absent.
pub proof fn lemma_explicit_default_literal<C: Converters>(
    c: Container,
    f: Field,
    env: Map<Seq<char>, Seq<char>>,
    vars: Map<Seq<char>, Seq<char>>,
    conv: C,
)
    requires
        !f.skip,
        !f.skip_load,
        f.load_with is None,
        f.shape == Shape::Scalar(Kind::Str),
        f.default matches FieldDefault::Explicit(_),
        spec_find_opening(f.default->0@, 0) is None,
        !env.contains_key(spec_resolve_key(c, f)),
    ensures
        spec_import_field(c, f, env, vars, conv) == Ok::<SpecFieldValue, SpecError>(
            SpecFieldValue::Scalar(crate::value::SpecScalar::Str(f.default->0@)),
        ),
{
    lemma_extrapolate_plain(f.default->0@, vars);
}

/// A plain field: an unskipped, unconverted scalar.
pub open spec fn spec_plain_field(f: Field) -> bool {
    &&& !f.skip
    &&& !f.skip_load
    &&& !f.skip_export
    &&& f.skip_export_if is None
    &&& f.load_with is None
    &&& f.export_with is None
    &&& f.shape matches Shape::Scalar(_)
}

/// A plain schema: every field plain, and no two fields sharing a
/// resolved key.
pub open spec fn spec_plain_schema(s: Schema) -> bool {
    &&& forall|i: int| 0 <= i < s.fields@.len() ==> spec_plain_field(#[trigger] s.fields@[i])
    &&& forall|i: int, j: int|
        0 <= i < j < s.fields@.len() ==> spec_resolve_key(s.container, s.fields@[i])
            != spec_resolve_key(s.container, s.fields@[j])
}

/// What a prefix of a successful import holds: one value per field, each
/// from its own field import.
proof fn lemma_import_upto_ok<C: Converters>(
    s: Schema,
    env: Map<Seq<char>, Seq<char>>,
    vars: Map<Seq<char>, Seq<char>>,
    conv: C,
    n: int,
    vs: Seq<SpecFieldValue>,
)
    requires
        0 <= n <= s.fields@.len(),
        spec_import_upto(s, env, vars, conv, n) == Ok::<Seq<SpecFieldValue>, SpecError>(vs),
    ensures
        vs.len() == n,
        forall|i: int|
            0 <= i < n ==> spec_import_field(s.container, #[trigger] s.fields@[i], env, vars, conv)
                == Ok::<SpecFieldValue, SpecError>(vs[i]),
    decreases n,
{
    if n > 0 {
        let r = spec_import_upto(s, env, vars, conv, n - 1);
        match r {
            Ok(prev) => {
                lemma_import_upto_ok(s, env, vars, conv, n - 1, prev);
                assert(vs == prev.push(vs.last()));
            },
            Err(_) => {
                assert(false);
            },
        }
    }
}

/// Field imports assemble into the import of their prefix.
proof fn lemma_import_upto_build<C: Converters>(
    s: Schema,
    env: Map<Seq<char>, Seq<char>>,
    vars: Map<Seq<char>, Seq<char>>,
    conv: C,
    n: int,
    vs: Seq<SpecFieldValue>,
)
    requires
        0 <= n <= s.fields@.len(),
        vs.len() == n,
        forall|i: int|
            0 <= i < n ==> spec_import_field(s.container, #[trigger] s.fields@[i], env, vars, conv)
                == Ok::<SpecFieldValue, SpecError>(vs[i]),
    ensures
        spec_import_upto(s, env, vars, conv, n) == Ok::<Seq<SpecFieldValue>, SpecError>(vs),
    decreases n,
{
    if n > 0 {
        lemma_import_upto_build(s, env, vars, conv, n - 1, vs.drop_last());
        assert(vs.drop_last().push(vs.last()) =~= vs);
    } else {
        assert(vs =~= Seq::<SpecFieldValue>::empty());
    }
}

/// The pairs a plain schema exports: one per field, the resolved key with
/// the rendered value.
proof fn lemma_plain_export_pairs<C: Converters>(
    s: Schema,
    sv: SpecStructValue,
    conv: C,
    n: int,
)
    requires
        0 <= n <= s.fields@.len(),
        sv.fields.len() == s.fields@.len(),
        forall|i: int| 0 <= i < s.fields@.len() ==> spec_plain_field(#[trigger] s.fields@[i]),
        forall|i: int|
            0 <= i < s.fields@.len() ==> #[trigger] sv.fields[i] matches SpecFieldValue::Scalar(_),
    ensures
        spec_export_upto(s, sv, conv, n).len() == n,
        forall|i: int|
            0 <= i < n ==> #[trigger] spec_export_upto(s, sv, conv, n)[i] == (
                spec_resolve_key(s.container, s.fields@[i]),
                spec_render_scalar(sv.fields[i]->Scalar_0),
            ),
    decreases n,
{
    if n > 0 {
        lemma_plain_export_pairs(s, sv, conv, n - 1);
        assert(spec_export_field(s.container, s.fields@[n - 1], sv.fields[n - 1], conv) == seq![
            (
                spec_resolve_key(s.container, s.fields@[n - 1]),
                spec_render_scalar(sv.fields[n - 1]->Scalar_0),
            ),
        ]);
    }
}

/// Which keys a sequence of writes leaves in a map.
proof fn lemma_pairs_apply_contains(
    m: Map<Seq<char>, Seq<char>>,
    pairs: Seq<(Seq<char>, Seq<char>)>,
    k: Seq<char>,
)
    ensures
        spec_pairs_apply(m, pairs).contains_key(k) <==> (m.contains_key(k) || exists|i: int|
            0 <= i < pairs.len() && (#[trigger] pairs[i]).0 == k),
    decreases pairs.len(),
{
    if pairs.len() > 0 {
        lemma_pairs_apply_contains(m, pairs.drop_last(), k);
        if spec_pairs_apply(m, pairs).contains_key(k) && pairs.last().0 != k {
            assert forall|i: int| 0 <= i < pairs.drop_last().len() && (#[trigger] pairs.drop_last(
            )[i]).0 == k implies 0 <= i < pairs.len() && pairs[i].0 == k by {}
        }
        if exists|i: int| 0 <= i < pairs.len() && (#[trigger] pairs[i]).0 == k {
            let i = choose|i: int| 0 <= i < pairs.len() && (#[trigger] pairs[i]).0 == k;
            if i < pairs.len() - 1 {
                assert(pairs.drop_last()[i] == pairs[i]);
            }
        }
    }
}

/// The last write to a key gives its value.
proof fn lemma_pairs_apply_last(
    m: Map<Seq<char>, Seq<char>>,
    pairs: Seq<(Seq<char>, Seq<char>)>,
    i: int,
)
    requires
        0 <= i < pairs.len(),
        forall|j: int| i < j < pairs.len() ==> (#[trigger] pairs[j]).0 != pairs[i].0,
    ensures
        spec_pairs_apply(m, pairs).contains_key(pairs[i].0),
        spec_pairs_apply(m, pairs)[pairs[i].0] == pairs[i].1,
    decreases pairs.len(),
{
    if i + 1 < pairs.len() {
        lemma_pairs_apply_last(m, pairs.drop_last(), i);
    }
}

/// A field that names no load converter, through every nesting level.
pub open spec fn spec_converter_free_field(f: Field) -> bool
    decreases f.shape, 1int, 0int,
{
    &&& f.load_with is None
    &&& match f.shape {
        Shape::Nested(s) => spec_converter_free_schema(s),
        Shape::OptionalNested(s) => spec_converter_free_schema(s),
        _ => true,
    }
}

/// Whether the first `n` fields are converter-free.
pub open spec fn spec_converter_free_upto(s: Schema, n: int) -> bool
    decreases s, 0int, n,
    via spec_converter_free_upto_decreases
{
    if n <= 0 {
        true
    } else if n > s.fields@.len() {
        spec_converter_free_upto(s, s.fields@.len() as int)
    } else {
        spec_converter_free_upto(s, n - 1) && spec_converter_free_field(s.fields@[n - 1])
    }
}

#[via_fn]
proof fn spec_converter_free_upto_decreases(s: Schema, n: int) {
    if 0 < n <= s.fields@.len() {
        assert(decreases_to!(s => s.fields));
        assert(decreases_to!(s.fields => s.fields@[n - 1]));
        assert(decreases_to!(s.fields@[n - 1] => s.fields@[n - 1].shape));
    }
}

/// A schema that names no load converter, through every nesting level.
pub open spec fn spec_converter_free_schema(s: Schema) -> bool
    decreases s, 1int, 0int,
{
    spec_converter_free_upto(s, s.fields@.len() as int)
}

proof fn lemma_converter_free_index(s: Schema, n: int)
    requires
        0 <= n <= s.fields@.len(),
        spec_converter_free_upto(s, n),
    ensures
        forall|i: int| 0 <= i < n ==> spec_converter_free_field(#[trigger] s.fields@[i]),
    decreases n,
{
    if n > 0 {
        lemma_converter_free_index(s, n - 1);
    }
}

/// A value imported without converters has its field's shape.
pub proof fn lemma_import_field_matches<C: Converters>(
    c: Container,
    f: Field,
    env: Map<Seq<char>, Seq<char>>,
    vars: Map<Seq<char>, Seq<char>>,
    conv: C,
    v: SpecFieldValue,
)
    requires
        spec_converter_free_field(f),
        spec_import_field(c, f, env, vars, conv) == Ok::<SpecFieldValue, SpecError>(v),
    ensures
        crate::schema::spec_value_matches(v, f.shape),
    decreases f.shape, 1int, 0int,
{
    if f.skip || f.skip_load {
        crate::schema::lemma_zero_matches(f.shape);
    } else {
        let key = spec_resolve_key(c, f);
        match f.shape {
            Shape::Nested(s) => {
                match spec_import(s, env, vars, conv) {
                    Ok(sv) => {
                        lemma_import_matches(s, env, vars, conv, sv);
                    },
                    Err(_) => {},
                }
            },
            Shape::OptionalNested(s) => {
                match spec_import(s, env, vars, conv) {
                    Ok(sv) => {
                        lemma_import_matches(s, env, vars, conv, sv);
                    },
                    Err(_) => {},
                }
            },
            Shape::Optional(kind) => {
                match crate::resolve::spec_raw_value(env, key, None, vars) {
                    Ok(Some(raw)) => {
                        lemma_parse_scalar_kind(kind, raw);
                    },
                    _ => {},
                }
            },
            Shape::Scalar(kind) => {
                let default = match f.default {
                    FieldDefault::Explicit(d) => Some(d@),
                    _ => None,
                };
                match crate::resolve::spec_raw_value(env, key, default, vars) {
                    Ok(Some(raw)) => {
                        lemma_parse_scalar_kind(kind, raw);
                    },
                    _ => {},
                }
            },
            Shape::List(kind) => {
                let default = match f.default {
                    FieldDefault::Explicit(d) => Some(d@),
                    _ => None,
                };
                match crate::resolve::spec_raw_value(env, key, default, vars) {
                    Ok(Some(raw)) => {
                        let parts = crate::text::spec_split(raw, f.separator);
                        if forall|i: int|
                            0 <= i < parts.len() ==> crate::value::spec_parse_scalar(
                                kind,
                                #[trigger] parts[i],
                            ) is Some {
                            assert forall|i: int|
                                0 <= i < parts.len() implies crate::schema::spec_scalar_matches(
                                #[trigger] crate::value::spec_parse_scalar(kind, parts[i])->0,
                                kind,
                            ) by {
                                lemma_parse_scalar_kind(kind, parts[i]);
                            }
                        }
                    },
                    _ => {},
                }
            },
        }
    }
}

/// A structure imported without converters fits its schema; in
/// particular, it can always be exported again.
pub proof fn lemma_import_matches<C: Converters>(
    s: Schema,
    env: Map<Seq<char>, Seq<char>>,
    vars: Map<Seq<char>, Seq<char>>,
    conv: C,
    sv: SpecStructValue,
)
    requires
        spec_converter_free_schema(s),
        spec_import(s, env, vars, conv) == Ok::<SpecStructValue, SpecError>(sv),
    ensures
        crate::schema::spec_struct_matches(sv, s),
    decreases s, 2int, 0int,
{
    let n = s.fields@.len() as int;
    match spec_import_upto(s, env, vars, conv, n) {
        Ok(fields) => {
            assert(fields == sv.fields);
        },
        Err(_) => {
            assert(false);
        },
    }
    lemma_import_upto_ok(s, env, vars, conv, n, sv.fields);
    lemma_converter_free_index(s, n);
    assert forall|i: int| 0 <= i < n implies crate::schema::spec_value_matches(
        #[trigger] sv.fields[i],
        s.fields@[i].shape,
    ) by {
        assert(decreases_to!(s => s.fields));
        assert(decreases_to!(s.fields => s.fields@[i]));
        assert(decreases_to!(s.fields@[i] => s.fields@[i].shape));
        lemma_import_field_matches(s.container, s.fields@[i], env, vars, conv, sv.fields[i]);
    }
}

/// Idempotence of marshalling for plain schemas: exporting an imported
/// structure and importing the result reproduces the structure.
pub proof fn lemma_import_export_import<C: Converters>(
    s: Schema,
    env: Map<Seq<char>, Seq<char>>,
    vars: Map<Seq<char>, Seq<char>>,
    conv: C,
    sv: SpecStructValue,
)
    requires
        spec_plain_schema(s),
        spec_import(s, env, vars, conv) == Ok::<SpecStructValue, SpecError>(sv),
    ensures
        spec_import(s, spec_export_map(s, sv, conv), vars, conv) == Ok::<
            SpecStructValue,
            SpecError,
        >(sv),
{
    let n = s.fields@.len() as int;
    let vs = sv.fields;
    let c = s.container;
    match spec_import_upto(s, env, vars, conv, n) {
        Ok(fields) => {
            assert(fields == vs);
        },
        Err(_) => {
            assert(false);
        },
    }
    lemma_import_upto_ok(s, env, vars, conv, n, vs);

    // Every imported value is a scalar of its field's category.
    assert forall|i: int| 0 <= i < n implies #[trigger] vs[i] matches SpecFieldValue::Scalar(x)
        && spec_kind_of(x) == s.fields@[i].shape->Scalar_0 by {
        let f = s.fields@[i];
        let kind = f.shape->Scalar_0;
        let key = spec_resolve_key(c, f);
        let default = match f.default {
            crate::schema::FieldDefault::Explicit(d) => Some(d@),
            _ => None,
        };
        match crate::resolve::spec_raw_value(env, key, default, vars) {
            Ok(Some(raw)) => {
                lemma_parse_scalar_kind(kind, raw);
            },
            _ => {},
        }
    }

    let pairs = spec_export_pairs(s, sv, conv);
    let m2 = spec_export_map(s, sv, conv);
    lemma_plain_export_pairs(s, sv, conv, n);

    // Each key is present in the exported map with its rendered value.
    assert forall|i: int| 0 <= i < n implies m2.contains_key(
        #[trigger] spec_resolve_key(c, s.fields@[i]),
    ) && m2[spec_resolve_key(c, s.fields@[i])] == spec_render_scalar(vs[i]->Scalar_0) by {
        assert forall|j: int| i < j < n implies (#[trigger] pairs[j]).0 != pairs[i].0 by {
            assert(pairs[j].0 == spec_resolve_key(c, s.fields@[j]));
            assert(pairs[i].0 == spec_resolve_key(c, s.fields@[i]));
        }
        lemma_pairs_apply_last(Map::empty(), pairs, i);
    }

    // Re-importing each field parses its own rendered value back.
    assert forall|i: int| 0 <= i < n implies spec_import_field(
        c,
        #[trigger] s.fields@[i],
        m2,
        vars,
        conv,
    ) == Ok::<SpecFieldValue, SpecError>(vs[i]) by {
        let f = s.fields@[i];
        let kind = f.shape->Scalar_0;
        let key = spec_resolve_key(c, f);
        let x = vs[i]->Scalar_0;
        lemma_parse_render_scalar(x);
        assert(m2[key] == spec_render_scalar(x));
    }

    lemma_import_upto_build(s, m2, vars, conv, n, vs);
    assert(spec_import(s, m2, vars, conv) == Ok::<SpecStructValue, SpecError>(
        SpecStructValue { fields: vs },
    ));
    assert(SpecStructValue { fields: vs } == sv);
}

} // verus!
