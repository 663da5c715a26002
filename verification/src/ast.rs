//! The abstract syntax tree.
//!
//! One parsed source text produces one `File`: a sequence of function and
//! module items. Every node carries a `Span`. Each executable node type
//! has a ghost mirror (its view) over `Seq`, which the contracts of the
//! lexer, parser and semantic passes are stated against.

pub mod block;
pub mod call;
pub mod expr;
pub mod file;
pub mod ident;
pub mod item;
pub mod literal;
pub mod origin;
pub mod path;
pub mod stmt;
