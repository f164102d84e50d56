//! A small schema compiler: it parses an interface-description language
//! (structs, enums, aliases, externals, and RPC services) into a `Schema`
//! tree and renders that tree as source text for several target languages.

pub mod emit;
pub mod lang;
pub mod model;
pub mod schema;
pub mod strategy;
pub mod text;
