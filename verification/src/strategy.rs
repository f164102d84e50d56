//! Choosing an output target from a file extension and dispatching to
//! the matching emitter.

use crate::emit::{EmitError, SpecEmitError};
use crate::lang::schema::{Schema, SpecSchema};
use vstd::prelude::*;

verus! {

/// One output target per supported extension.
#[derive(Debug, PartialEq, Eq, Copy, Clone, Structural)]
pub enum Strategy {
    JSON,
    Rust,
    TypeScript,
    Dart,
}

/// The strategy an output file extension selects, if any.
pub open spec fn spec_strategy_of_extension(s: Seq<char>) -> Option<Strategy> {
    if s == "rs"@ {
        Some(Strategy::Rust)
    } else if s == "ts"@ {
        Some(Strategy::TypeScript)
    } else if s == "dart"@ {
        Some(Strategy::Dart)
    } else if s == "json"@ {
        Some(Strategy::JSON)
    } else {
        None
    }
}

/// The text a strategy emits for a schema.
pub open spec fn spec_strategy_emit(strategy: Strategy, name: Seq<char>, s: SpecSchema) -> Result<
    Seq<char>,
    SpecEmitError,
> {
    match strategy {
        Strategy::Rust => crate::emit::rs::spec_emit_schema(name, s),
        Strategy::TypeScript => crate::emit::ts::spec_emit_schema(name, s),
        Strategy::Dart => crate::emit::dart::spec_emit_schema(name, s),
        Strategy::JSON => crate::emit::json::spec_emit_schema(name, s),
    }
}

impl Strategy {
    pub fn from_extension(extension: &str) -> (r: Option<Strategy>)
        ensures
            r == spec_strategy_of_extension(extension@),
    {
        if crate::text::str_eq(extension, "rs") {
            Some(Strategy::Rust)
        } else if crate::text::str_eq(extension, "ts") {
            Some(Strategy::TypeScript)
        } else if crate::text::str_eq(extension, "dart") {
            Some(Strategy::Dart)
        } else if crate::text::str_eq(extension, "json") {
            Some(Strategy::JSON)
        } else {
            None
        }
    }

    pub fn parse(value: &str) -> (r: Option<Strategy>)
        ensures
            r == spec_strategy_of_extension(value@),
    {
        Self::from_extension(value)
    }

    /// Runs the matching emitter on the schema.
    pub fn emit(&self, name: &str, schema: &Schema) -> (r: Result<String, EmitError>)
        ensures
            match r {
                Ok(t) => spec_strategy_emit(*self, name@, schema@) == Ok::<
                    Seq<char>,
                    SpecEmitError,
                >(t@),
                Err(e) => spec_strategy_emit(*self, name@, schema@) == Err::<
                    Seq<char>,
                    SpecEmitError,
                >(e@),
            },
    {
        match self {
            Strategy::Rust => crate::emit::rs::emit_schema(name, schema),
            Strategy::TypeScript => crate::emit::ts::emit_schema(name, schema),
            Strategy::Dart => crate::emit::dart::emit_schema(name, schema),
            Strategy::JSON => crate::emit::json::emit_schema(name, schema),
        }
    }

    /// The target's display name.
    pub fn name(self) -> (r: &'static str)
        ensures
            self == Strategy::Rust ==> r@ == "Rust"@,
            self == Strategy::TypeScript ==> r@ == "TypeScript"@,
            self == Strategy::Dart ==> r@ == "Dart"@,
            self == Strategy::JSON ==> r@ == "JSON"@,
    {
        match self {
            Strategy::Rust => "Rust",
            Strategy::TypeScript => "TypeScript",
            Strategy::Dart => "Dart",
            Strategy::JSON => "JSON",
        }
    }
}

} // verus!
