//! Scalar values: the leaf data carried by configuration fields.
//!
//! Each field of a structure is tagged with an explicit type category
//! ([`Kind`]) rather than detected from a type's textual name; the
//! resolution engine parses raw store text into a [`Scalar`] of that kind
//! and the export engine writes it back in canonical form.

use vstd::prelude::*;

use crate::num::{
    parse_i64,
    parse_u64,
    parse_u8,
    render_i64,
    render_u64,
    render_u8,
    spec_parse_i64,
    spec_parse_u64,
    spec_parse_u8,
    spec_render_i64,
    spec_render_u64,
};
use crate::text::{push_char, str_eq};

verus! {

/// The type category of a scalar field.
#[derive(Clone, Copy, Debug, PartialEq, Eq, Structural)]
pub enum Kind {
    Str,
    U8,
    U64,
    I64,
    Bool,
    Char,
}

/// A scalar value of one of the supported categories.
#[derive(Debug, PartialEq)]
pub enum Scalar {
    Str(String),
    U8(u8),
    U64(u64),
    I64(i64),
    Bool(bool),
    Char(char),
}

/// The mathematical form of a [`Scalar`].
pub enum SpecScalar {
    Str(Seq<char>),
    U8(u8),
    U64(u64),
    I64(i64),
    Bool(bool),
    Char(char),
}

impl View for Scalar {
    type V = SpecScalar;

    open spec fn view(&self) -> SpecScalar {
        match self {
            Scalar::Str(s) => SpecScalar::Str(s@),
            Scalar::U8(v) => SpecScalar::U8(*v),
            Scalar::U64(v) => SpecScalar::U64(*v),
            Scalar::I64(v) => SpecScalar::I64(*v),
            Scalar::Bool(v) => SpecScalar::Bool(*v),
            Scalar::Char(v) => SpecScalar::Char(*v),
        }
    }
}

/// The category a scalar value belongs to.
pub open spec fn spec_kind_of(v: SpecScalar) -> Kind {
    match v {
        SpecScalar::Str(_) => Kind::Str,
        SpecScalar::U8(_) => Kind::U8,
        SpecScalar::U64(_) => Kind::U64,
        SpecScalar::I64(_) => Kind::I64,
        SpecScalar::Bool(_) => Kind::Bool,
        SpecScalar::Char(_) => Kind::Char,
    }
}

/// The category a scalar value belongs to.
pub fn kind_of(v: &Scalar) -> (k: Kind)
    ensures
        k == spec_kind_of(v@),
{
    match v {
        Scalar::Str(_) => Kind::Str,
        Scalar::U8(_) => Kind::U8,
        Scalar::U64(_) => Kind::U64,
        Scalar::I64(_) => Kind::I64,
        Scalar::Bool(_) => Kind::Bool,
        Scalar::Char(_) => Kind::Char,
    }
}

/// The name under which a category is reported in parse errors.
pub open spec fn spec_kind_name(kind: Kind) -> Seq<char> {
    match kind {
        Kind::Str => "String"@,
        Kind::U8 => "u8"@,
        Kind::U64 => "u64"@,
        Kind::I64 => "i64"@,
        Kind::Bool => "bool"@,
        Kind::Char => "char"@,
    }
}

pub fn kind_name(kind: Kind) -> (r: String)
    ensures
        r@ == spec_kind_name(kind),
{
    match kind {
        Kind::Str => String::from_str("String"),
        Kind::U8 => String::from_str("u8"),
        Kind::U64 => String::from_str("u64"),
        Kind::I64 => String::from_str("i64"),
        Kind::Bool => String::from_str("bool"),
        Kind::Char => String::from_str("char"),
    }
}

/// The zero value of a category: what a missing or skipped field becomes.
pub open spec fn spec_zero_scalar(kind: Kind) -> SpecScalar {
    match kind {
        Kind::Str => SpecScalar::Str(Seq::empty()),
        Kind::U8 => SpecScalar::U8(0),
        Kind::U64 => SpecScalar::U64(0),
        Kind::I64 => SpecScalar::I64(0),
        Kind::Bool => SpecScalar::Bool(false),
        Kind::Char => SpecScalar::Char('\0'),
    }
}

pub fn zero_scalar(kind: Kind) -> (r: Scalar)
    ensures
        r@ == spec_zero_scalar(kind),
{
    match kind {
        Kind::Str => {
            let s = String::new();
            Scalar::Str(s)
        },
        Kind::U8 => Scalar::U8(0),
        Kind::U64 => Scalar::U64(0),
        Kind::I64 => Scalar::I64(0),
        Kind::Bool => Scalar::Bool(false),
        Kind::Char => Scalar::Char('\0'),
    }
}

/// What raw store text reads as, in a given category; `None` when the text
/// is not a value of that category.
pub open spec fn spec_parse_scalar(kind: Kind, raw: Seq<char>) -> Option<SpecScalar> {
    match kind {
        Kind::Str => Some(SpecScalar::Str(raw)),
        Kind::U8 => match spec_parse_u8(raw) {
            Some(v) => Some(SpecScalar::U8(v)),
            None => None,
        },
        Kind::U64 => match spec_parse_u64(raw) {
            Some(v) => Some(SpecScalar::U64(v)),
            None => None,
        },
        Kind::I64 => match spec_parse_i64(raw) {
            Some(v) => Some(SpecScalar::I64(v)),
            None => None,
        },
        Kind::Bool => if raw == "true"@ {
            Some(SpecScalar::Bool(true))
        } else if raw == "false"@ {
            Some(SpecScalar::Bool(false))
        } else {
            None
        },
        Kind::Char => if raw.len() == 1 {
            Some(SpecScalar::Char(raw[0]))
        } else {
            None
        },
    }
}

/// The canonical text of a scalar, as export writes it.
pub open spec fn spec_render_scalar(v: SpecScalar) -> Seq<char> {
    match v {
        SpecScalar::Str(s) => s,
        SpecScalar::U8(n) => spec_render_u64(n as nat),
        SpecScalar::U64(n) => spec_render_u64(n as nat),
        SpecScalar::I64(n) => spec_render_i64(n as int),
        SpecScalar::Bool(b) => if b {
            "true"@
        } else {
            "false"@
        },
        SpecScalar::Char(c) => seq![c],
    }
}

pub fn parse_scalar(kind: Kind, raw: &str) -> (r: Option<Scalar>)
    ensures
        match r {
            Some(v) => spec_parse_scalar(kind, raw@) == Some(v@),
            None => spec_parse_scalar(kind, raw@) is None,
        },
{
    match kind {
        Kind::Str => Some(Scalar::Str(raw.to_owned())),
        Kind::U8 => match parse_u8(raw) {
            Some(v) => Some(Scalar::U8(v)),
            None => None,
        },
        Kind::U64 => match parse_u64(raw) {
            Some(v) => Some(Scalar::U64(v)),
            None => None,
        },
        Kind::I64 => match parse_i64(raw) {
            Some(v) => Some(Scalar::I64(v)),
            None => None,
        },
        Kind::Bool => if str_eq(raw, "true") {
            Some(Scalar::Bool(true))
        } else if str_eq(raw, "false") {
            Some(Scalar::Bool(false))
        } else {
            None
        },
        Kind::Char => if raw.unicode_len() == 1 {
            Some(Scalar::Char(raw.get_char(0)))
        } else {
            None
        },
    }
}

pub fn render_scalar(v: &Scalar) -> (r: String)
    ensures
        r@ == spec_render_scalar(v@),
{
    match v {
        Scalar::Str(s) => s.clone(),
        Scalar::U8(n) => render_u8(*n),
        Scalar::U64(n) => render_u64(*n),
        Scalar::I64(n) => render_i64(*n),
        Scalar::Bool(b) => if *b {
            String::from_str("true")
        } else {
            String::from_str("false")
        },
        Scalar::Char(c) => {
            let mut s = String::new();
            push_char(&mut s, *c);
            proof {
                assert(s@ =~= seq![*c]);
            }
            s
        },
    }
}

/// The value of one field of an imported or exported structure.
#[derive(Debug, PartialEq)]
pub enum FieldValue {
    Scalar(Scalar),
    Optional(Option<Scalar>),
    List(Vec<Scalar>),
    Nested(StructValue),
    OptionalNested(Option<StructValue>),
}

/// A structure instance: one value per declared field, in declaration
/// order.
#[derive(Debug, PartialEq)]
pub struct StructValue {
    pub fields: Vec<FieldValue>,
}

/// The views of a list of scalars, pointwise.
pub open spec fn spec_scalars_view(items: Seq<Scalar>) -> Seq<SpecScalar> {
    Seq::new(items.len(), |i: int| items[i]@)
}

/// The mathematical form of a [`FieldValue`].
pub enum SpecFieldValue {
    Scalar(SpecScalar),
    Optional(Option<SpecScalar>),
    List(Seq<SpecScalar>),
    Nested(SpecStructValue),
    OptionalNested(Option<SpecStructValue>),
}

/// The mathematical form of a [`StructValue`].
pub struct SpecStructValue {
    pub fields: Seq<SpecFieldValue>,
}

pub open spec fn spec_field_value_view(v: FieldValue) -> SpecFieldValue
    decreases v,
{
    match v {
        FieldValue::Scalar(s) => SpecFieldValue::Scalar(s@),
        FieldValue::Optional(o) => SpecFieldValue::Optional(
            match o {
                Some(s) => Some(s@),
                None => None,
            },
        ),
        FieldValue::List(items) => SpecFieldValue::List(spec_scalars_view(items@)),
        FieldValue::Nested(sv) => SpecFieldValue::Nested(spec_struct_value_view(sv)),
        FieldValue::OptionalNested(o) => SpecFieldValue::OptionalNested(
            match o {
                Some(sv) => Some(spec_struct_value_view(sv)),
                None => None,
            },
        ),
    }
}

pub open spec fn spec_field_values_view(vs: Seq<FieldValue>) -> Seq<SpecFieldValue>
    decreases vs,
{
    if vs.len() == 0 {
        Seq::empty()
    } else {
        spec_field_values_view(vs.drop_last()).push(spec_field_value_view(vs.last()))
    }
}

pub open spec fn spec_struct_value_view(sv: StructValue) -> SpecStructValue
    decreases sv,
{
    SpecStructValue { fields: spec_field_values_view(sv.fields@) }
}

impl View for FieldValue {
    type V = SpecFieldValue;

    open spec fn view(&self) -> SpecFieldValue {
        spec_field_value_view(*self)
    }
}

impl View for StructValue {
    type V = SpecStructValue;

    open spec fn view(&self) -> SpecStructValue {
        spec_struct_value_view(*self)
    }
}

/// The field list's view is pointwise.
pub proof fn lemma_field_values_view(vs: Seq<FieldValue>)
    ensures
        spec_field_values_view(vs).len() == vs.len(),
        forall|i: int| 0 <= i < vs.len() ==> spec_field_values_view(vs)[i] == vs[i]@,
    decreases vs,
{
    if vs.len() > 0 {
        lemma_field_values_view(vs.drop_last());
    }
}

/// A successful parse yields a value of the requested category.
pub proof fn lemma_parse_scalar_kind(kind: Kind, raw: Seq<char>)
    ensures
        spec_parse_scalar(kind, raw) matches Some(v) ==> spec_kind_of(v) == kind,
{
}

/// Reading back a written scalar gives the value itself.
pub proof fn lemma_parse_render_scalar(v: SpecScalar)
    ensures
        spec_parse_scalar(spec_kind_of(v), spec_render_scalar(v)) == Some(v),
{
    match v {
        SpecScalar::Str(_) => {},
        SpecScalar::U8(n) => {
            crate::num::lemma_parse_render_u8(n);
        },
        SpecScalar::U64(n) => {
            crate::num::lemma_parse_render_u64(n);
        },
        SpecScalar::I64(n) => {
            crate::num::lemma_parse_render_i64(n);
        },
        SpecScalar::Bool(b) => {
            reveal_strlit("true");
            reveal_strlit("false");
            assert("true"@.len() == 4);
            assert("false"@.len() == 5);
        },
        SpecScalar::Char(c) => {
            assert(seq![c].len() == 1);
        },
    }
}

} // verus!
