//! The C syntax that lowering produces.
//!
//! Each executable type has a mathematical twin (`Expr`, `Type`, `Stmt`) in
//! which names are character sequences and lists are sequences, so that equal
//! twins mean equal code. Contracts speak of the twins.

pub mod expr;
pub mod stmt;
pub mod types;
pub mod eval;
