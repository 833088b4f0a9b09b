//! A verified front end for a small expression/statement language.
//!
//! Source text is turned into an abstract syntax tree in two stages:
//! lexical scanning (text to tokens) and operator-precedence ("Pratt")
//! parsing (tokens to AST). Both stages are specified by total spec-level
//! functions of their input alone ([`scan_spec`] and [`parse_spec`]), and
//! the executable [`scanner::Scanner`] and [`parser::Parser`] are proved to
//! return exactly what those functions describe. The laws of [`laws`] state
//! the library-wide properties on top: operator precedence, associativity
//! and grouping, the `const`-initializer invariant, and the determinism of
//! scanning.

pub mod ast;
pub mod errors;
pub mod helpers;
pub mod laws;
pub mod lookups;
pub mod parse_spec;
pub mod parser;
pub mod scan_spec;
pub mod scanner;
pub mod token;
