//! Front end for the Inlet language: lexer, parser, and the semantic
//! passes (function collection, identifier resolution, origin analysis).
//!
//! Source text is lexed into parallel token and span sequences, parsed
//! into a per-file syntax tree, and checked by three passes that share a
//! scoped symbol table. The origin analysis proves that every value
//! flowing into a position of declared origin satisfies that origin.

pub mod ast;
pub mod chars;
pub mod diagnostic;
pub mod driver;
pub mod error;
pub mod lexer;
pub mod parser;
pub mod semantics;
pub mod span;
pub mod symbol;
pub mod token;
