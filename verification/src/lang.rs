//! The schema language itself: tokens, the ordered map the tree is built
//! from, the abstract syntax tree, the parser, and the renderer for the
//! language's own source dialect.

pub mod lexer;
pub mod loader;
pub mod parser;
pub mod schema;
pub mod source;
pub mod map;
