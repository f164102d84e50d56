//! The emitters: pure functions rendering a `Schema` into one target
//! language's source text.
//!
//! Every emitter follows the same contract: given the same schema it
//! produces the same text (each is pinned to a spec-level rendering
//! function), walks models and fields in declaration order, fails on a
//! reference that does not resolve, and fails on a construct the
//! target cannot express rather than emit malformed code.

use vstd::prelude::*;

pub mod dart;
pub mod json;
pub mod ron;
pub mod rs;
pub mod ts;

verus! {

/// Why an emission run was rejected: a `Reference` naming no model of
/// the schema, or a construct the target language cannot express.
#[derive(Debug, PartialEq, Eq)]
pub enum EmitError {
    UnresolvedReference(String),
    UnsupportedConstruct(String),
}

/// Mathematical shadow of `EmitError`.
pub enum SpecEmitError {
    UnresolvedReference(Seq<char>),
    UnsupportedConstruct(Seq<char>),
}

impl View for EmitError {
    type V = SpecEmitError;

    open spec fn view(&self) -> SpecEmitError {
        match self {
            EmitError::UnresolvedReference(n) => SpecEmitError::UnresolvedReference(n@),
            EmitError::UnsupportedConstruct(n) => SpecEmitError::UnsupportedConstruct(n@),
        }
    }
}

} // verus!
