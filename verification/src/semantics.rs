//! The semantic passes.
//!
//! Three passes run over each parsed file, in order: function collection
//! (canonical path to signature), identifier resolution (every name is in
//! scope), and origin analysis (every value satisfies the origin declared
//! at its destination). The passes share the scoped symbol table; errors
//! are accumulated, never fatal.

pub mod error;
pub mod function;
pub mod ident;
pub mod origin;
