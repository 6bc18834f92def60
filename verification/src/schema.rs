//! The schema model: container- and field-level configuration extracted
//! from a structure's declarations, and the naming resolver.
//!
//! A schema is built once per structure type and is immutable thereafter.
//! Each field carries an explicit shape (scalar, optional, list, nested)
//! instead of anything inferred from a type's textual name.

use vstd::prelude::*;

use crate::text::{spec_upper, to_uppercase};
use crate::value::{
    spec_kind_of,
    spec_zero_scalar,
    zero_scalar,
    FieldValue,
    Kind,
    SpecFieldValue,
    SpecStructValue,
    StructValue,
};

verus! {

/// Configuration shared by all fields of one structure type.
#[derive(Debug, PartialEq)]
pub struct Container {
    /// Prepended to the key of every field that is not exempted by
    /// `noprefix`.
    pub prefix: Option<String>,
}

/// What a field's value becomes when its key is absent from the store.
#[derive(Debug, PartialEq)]
pub enum FieldDefault {
    /// No default: a missing key is an error.
    Required,
    /// A missing key yields the type's zero value.
    ZeroValue,
    /// A missing key yields this literal, itself subject to extrapolation.
    Explicit(String),
}

/// The shape of a field: its type category and wrapping.
#[derive(Debug, PartialEq)]
pub enum Shape {
    Scalar(Kind),
    Optional(Kind),
    List(Kind),
    Nested(Schema),
    OptionalNested(Schema),
}

/// Configuration of one structure member.
#[derive(Debug, PartialEq)]
pub struct Field {
    /// The member's identifier in the structure declaration.
    pub ident: String,
    /// Explicit key fragment; when absent the fragment is the uppercased
    /// identifier.
    pub name: Option<String>,
    pub default: FieldDefault,
    /// When set, the container prefix is not applied to this field.
    pub noprefix: bool,
    /// Splits and joins list-typed values.
    pub separator: char,
    /// Suppresses both load and export.
    pub skip: bool,
    /// Forces the zero value on import, without store access.
    pub skip_load: bool,
    /// Omits the key on export.
    pub skip_export: bool,
    /// Handle of a predicate over the field's value; when it holds, export
    /// of the key is suppressed.
    pub skip_export_if: Option<String>,
    /// Handle of a custom converter invoked in place of standard
    /// resolution on import.
    pub load_with: Option<String>,
    /// Handle of a custom converter invoked in place of standard
    /// resolution on export.
    pub export_with: Option<String>,
    pub shape: Shape,
}

/// The declarative description of one structure type.
#[derive(Debug, PartialEq)]
pub struct Schema {
    pub container: Container,
    pub fields: Vec<Field>,
}

/// The backing-store key of a field: the explicit name or the uppercased
/// identifier, under the container prefix unless the field is exempt.
pub open spec fn spec_resolve_key(c: Container, f: Field) -> Seq<char> {
    let fragment = match f.name {
        Some(n) => n@,
        None => spec_upper(f.ident@),
    };
    if f.noprefix {
        fragment
    } else {
        (match c.prefix {
            Some(p) => p@,
            None => Seq::empty(),
        }) + fragment
    }
}

pub fn resolve_key(c: &Container, f: &Field) -> (r: String)
    ensures
        r@ == spec_resolve_key(*c, *f),
{
    let fragment = match &f.name {
        Some(n) => n.clone(),
        None => to_uppercase(f.ident.as_str()),
    };
    if f.noprefix {
        fragment
    } else {
        match &c.prefix {
            Some(p) => {
                let mut r = p.clone();
                r.append(fragment.as_str());
                r
            },
            None => {
                proof {
                    assert(Seq::<char>::empty() + fragment@ =~= fragment@);
                }
                fragment
            },
        }
    }
}

/// The zero value of a shape: what a skipped or defaulted-to-zero field
/// becomes.
pub open spec fn spec_zero_of_shape(shape: Shape) -> SpecFieldValue
    decreases shape,
{
    match shape {
        Shape::Scalar(kind) => SpecFieldValue::Scalar(spec_zero_scalar(kind)),
        Shape::Optional(_) => SpecFieldValue::Optional(None),
        Shape::List(_) => SpecFieldValue::List(Seq::empty()),
        Shape::Nested(s) => SpecFieldValue::Nested(spec_zero_struct(s)),
        Shape::OptionalNested(_) => SpecFieldValue::OptionalNested(None),
    }
}

pub open spec fn spec_zero_fields(fs: Seq<Field>) -> Seq<SpecFieldValue>
    decreases fs,
{
    if fs.len() == 0 {
        Seq::empty()
    } else {
        spec_zero_fields(fs.drop_last()).push(spec_zero_of_shape(fs.last().shape))
    }
}

/// The all-zero instance of a structure.
pub open spec fn spec_zero_struct(s: Schema) -> SpecStructValue
    decreases s,
{
    SpecStructValue { fields: spec_zero_fields(s.fields@) }
}

/// The zero field list is pointwise zero.
pub proof fn lemma_zero_fields(fs: Seq<Field>)
    ensures
        spec_zero_fields(fs).len() == fs.len(),
        forall|i: int| 0 <= i < fs.len() ==> spec_zero_fields(fs)[i] == spec_zero_of_shape(
            #[trigger] fs[i].shape,
        ),
    decreases fs,
{
    if fs.len() > 0 {
        lemma_zero_fields(fs.drop_last());
        assert forall|i: int| 0 <= i < fs.len() implies spec_zero_fields(fs)[i]
            == spec_zero_of_shape(#[trigger] fs[i].shape) by {
            if i < fs.len() - 1 {
                assert(fs.drop_last()[i] == fs[i]);
            }
        }
    }
}

pub fn zero_of_shape(shape: &Shape) -> (r: FieldValue)
    ensures
        r@ == spec_zero_of_shape(*shape),
    decreases shape,
{
    match shape {
        Shape::Scalar(kind) => FieldValue::Scalar(zero_scalar(*kind)),
        Shape::Optional(_) => FieldValue::Optional(None),
        Shape::List(_) => {
            let items: Vec<crate::value::Scalar> = Vec::new();
            proof {
                assert(crate::value::spec_scalars_view(items@) =~= Seq::<
                    crate::value::SpecScalar,
                >::empty());
            }
            FieldValue::List(items)
        },
        Shape::Nested(s) => FieldValue::Nested(zero_struct(s)),
        Shape::OptionalNested(_) => FieldValue::OptionalNested(None),
    }
}

/// The all-zero instance of a structure.
pub fn zero_struct(s: &Schema) -> (r: StructValue)
    ensures
        r@ == spec_zero_struct(*s),
    decreases s,
{
    let n = s.fields.len();
    let mut fields: Vec<FieldValue> = Vec::new();
    let mut i: usize = 0;
    while i < n
        invariant
            i <= n,
            n == s.fields@.len(),
            crate::value::spec_field_values_view(fields@) == spec_zero_fields(
                s.fields@.take(i as int),
            ),
        decreases n - i,
    {
        proof {
            assert(decreases_to!(*s => s.fields));
            assert(decreases_to!(s.fields => s.fields@[i as int]));
        }
        let v = zero_of_shape(&s.fields[i].shape);
        let ghost prev = fields@;
        fields.push(v);
        proof {
            assert(fields@.drop_last() =~= prev);
            assert(s.fields@.take(i as int + 1).drop_last() =~= s.fields@.take(i as int));
            assert(s.fields@.take(i as int + 1).last() == s.fields@[i as int]);
        }
        i = i + 1;
    }
    proof {
        assert(s.fields@.take(n as int) =~= s.fields@);
    }
    StructValue { fields }
}

/// Whether a scalar belongs to a category.
pub open spec fn spec_scalar_matches(v: crate::value::SpecScalar, kind: Kind) -> bool {
    spec_kind_of(v) == kind
}

/// Whether a value has a shape: the well-formedness tie between a
/// structure instance and its schema.
pub open spec fn spec_value_matches(v: SpecFieldValue, shape: Shape) -> bool
    decreases shape,
{
    match shape {
        Shape::Scalar(kind) => v matches SpecFieldValue::Scalar(s) && spec_scalar_matches(s, kind),
        Shape::Optional(kind) => v matches SpecFieldValue::Optional(o) && (o matches Some(s)
            ==> spec_scalar_matches(o->0, kind)),
        Shape::List(kind) => v matches SpecFieldValue::List(items) && (forall|i: int|
            0 <= i < items.len() ==> spec_scalar_matches(#[trigger] items[i], kind)),
        Shape::Nested(s) => v matches SpecFieldValue::Nested(sv) && spec_struct_matches(sv, s),
        Shape::OptionalNested(s) => v matches SpecFieldValue::OptionalNested(o) && (o matches Some(
            sv,
        ) ==> spec_struct_matches(o->0, s)),
    }
}

/// Whether a structure instance fits a schema, field for field.
pub open spec fn spec_struct_matches(sv: SpecStructValue, s: Schema) -> bool
    decreases s,
{
    &&& sv.fields.len() == s.fields@.len()
    &&& forall|i: int|
        0 <= i < sv.fields.len() ==> spec_value_matches(
            #[trigger] sv.fields[i],
            s.fields@[i].shape,
        )
}

/// Whether a value has a shape; the executable form of
/// [`spec_value_matches`].
pub fn value_matches(v: &FieldValue, shape: &Shape) -> (r: bool)
    ensures
        r == spec_value_matches(v@, *shape),
    decreases shape,
{
    match (shape, v) {
        (Shape::Scalar(kind), FieldValue::Scalar(s)) => {
            let k = crate::value::kind_of(s);
            k == *kind
        },
        (Shape::Optional(kind), FieldValue::Optional(o)) => match o {
            Some(s) => {
                let k = crate::value::kind_of(s);
                k == *kind
            },
            None => true,
        },
        (Shape::List(kind), FieldValue::List(items)) => {
            let n = items.len();
            let mut i: usize = 0;
            while i < n
                invariant
                    i <= n,
                    n == items@.len(),
                    forall|j: int|
                        0 <= j < i ==> spec_scalar_matches(
                            crate::value::spec_scalars_view(items@)[j],
                            *kind,
                        ),
                decreases n - i,
            {
                let k = crate::value::kind_of(&items[i]);
                if k != *kind {
                    proof {
                        assert(!spec_scalar_matches(
                            crate::value::spec_scalars_view(items@)[i as int],
                            *kind,
                        ));
                    }
                    return false;
                }
                i = i + 1;
            }
            true
        },
        (Shape::Nested(s), FieldValue::Nested(sv)) => struct_matches(sv, s),
        (Shape::OptionalNested(s), FieldValue::OptionalNested(o)) => match o {
            Some(sv) => struct_matches(sv, s),
            None => true,
        },
        _ => false,
    }
}

/// Whether a structure instance fits a schema; the executable form of
/// [`spec_struct_matches`].
pub fn struct_matches(sv: &StructValue, s: &Schema) -> (r: bool)
    ensures
        r == spec_struct_matches(sv@, *s),
    decreases s,
{
    proof {
        crate::value::lemma_field_values_view(sv.fields@);
    }
    let n = s.fields.len();
    if sv.fields.len() != n {
        return false;
    }
    let mut i: usize = 0;
    while i < n
        invariant
            i <= n,
            n == s.fields@.len(),
            sv.fields@.len() == n,
            forall|j: int|
                0 <= j < i ==> spec_value_matches(#[trigger] sv@.fields[j], s.fields@[j].shape),
        decreases n - i,
    {
        proof {
            assert(decreases_to!(*s => s.fields));
            assert(decreases_to!(s.fields => s.fields@[i as int]));
            crate::value::lemma_field_values_view(sv.fields@);
        }
        if !value_matches(&sv.fields[i], &s.fields[i].shape) {
            proof {
                assert(!spec_value_matches(sv@.fields[i as int], s.fields@[i as int].shape));
            }
            return false;
        }
        i = i + 1;
    }
    true
}

/// The zero value of a shape has that shape.
pub proof fn lemma_zero_matches(shape: Shape)
    ensures
        spec_value_matches(spec_zero_of_shape(shape), shape),
    decreases shape,
{
    match shape {
        Shape::Nested(s) => {
            lemma_zero_fields(s.fields@);
            assert forall|i: int| 0 <= i < s.fields@.len() implies spec_value_matches(
                #[trigger] spec_zero_fields(s.fields@)[i],
                s.fields@[i].shape,
            ) by {
                lemma_zero_matches(s.fields@[i].shape);
            }
        },
        _ => {},
    }
}

} // verus!
