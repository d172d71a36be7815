//! Core of a binary analysis toolkit: an intermediate language with its address
//! spaces and varnodes ([`il`]), a concrete executor over byte slabs ([`conc`]),
//! the user-defined operations of processor descriptions ([`userops`]), and the
//! folding of operations in static single assignment form ([`ssa`]) to C
//! ([`ast`], [`fold`]).
//!
//! Contracts speak of mathematical values: each data type has a view, and spec
//! functions over the views say what a function returns.

pub mod ast;
pub mod conc;
pub mod fold;
pub mod il;
pub mod ssa;
pub mod text;
pub mod userops;
