//! The error taxonomy of the marshalling engine.
//!
//! `Missing` names a required key that the backing store lacks, `Parse` a
//! raw value that is present but not convertible to the destination type,
//! and `Unicode` a store entry that is not representable as text (a
//! store-access boundary concern).  The first error encountered aborts a
//! whole import call; nothing is accumulated across fields.

use vstd::prelude::*;

verus! {

/// The mathematical form of an [`Error`]: every payload is a character
/// sequence.
pub enum SpecError {
    Parse { key: Seq<char>, ty: Seq<char>, raw: Seq<char>, cause: Seq<char> },
    Missing(Seq<char>),
    Unicode(Seq<char>),
}

/// A raw value that could not be converted: the offending key, the name of
/// the destination type, the raw value itself, and a short cause.
#[derive(Debug)]
pub struct Parse {
    pub key: String,
    pub ty: String,
    pub raw: String,
    pub cause: String,
}

/// A store entry that was not valid text, named by its key.
#[derive(Debug)]
pub struct Unicode {
    pub key: String,
}

#[derive(Debug)]
pub enum Error {
    Parse(Parse),
    Missing(String),
    Unicode(Unicode),
}

impl View for Error {
    type V = SpecError;

    open spec fn view(&self) -> SpecError {
        match self {
            Error::Parse(p) => SpecError::Parse {
                key: p.key@,
                ty: p.ty@,
                raw: p.raw@,
                cause: p.cause@,
            },
            Error::Missing(key) => SpecError::Missing(key@),
            Error::Unicode(u) => SpecError::Unicode(u.key@),
        }
    }
}

impl Parse {
    pub fn new(key: &str, ty: &str, raw: &str, cause: &str) -> (r: Error)
        ensures
            r@ == (SpecError::Parse { key: key@, ty: ty@, raw: raw@, cause: cause@ }),
    {
        Error::Parse(
            Parse {
                key: key.to_owned(),
                ty: ty.to_owned(),
                raw: raw.to_owned(),
                cause: cause.to_owned(),
            },
        )
    }
}

impl Unicode {
    pub fn new(key: &str) -> (r: Error)
        ensures
            r@ == SpecError::Unicode(key@),
    {
        Error::Unicode(Unicode { key: key.to_owned() })
    }
}

/// The one-line description of an error.
pub open spec fn spec_message(e: SpecError) -> Seq<char> {
    match e {
        SpecError::Parse { key, ty, raw, cause } => "Enable to parse '"@ + key
            + "' variable to '"@ + ty + "': "@ + cause,
        SpecError::Missing(key) => "Missing '"@ + key + "' environment variable"@,
        SpecError::Unicode(key) => "environment variable '"@ + key + "' was not valid unicode"@,
    }
}

impl Error {
    /// A printable description of the error.
    pub fn message(&self) -> (r: String)
        ensures
            r@ == spec_message(self@),
    {
        match self {
            Error::Parse(p) => {
                let r = String::from_str("Enable to parse '");
                let r = r.concat(p.key.as_str());
                let r = r.concat("' variable to '");
                let r = r.concat(p.ty.as_str());
                let r = r.concat("': ");
                r.concat(p.cause.as_str())
            },
            Error::Missing(key) => {
                let r = String::from_str("Missing '");
                let r = r.concat(key.as_str());
                r.concat("' environment variable")
            },
            Error::Unicode(u) => {
                let r = String::from_str("environment variable '");
                let r = r.concat(u.key.as_str());
                r.concat("' was not valid unicode")
            },
        }
    }
}

} // verus!
