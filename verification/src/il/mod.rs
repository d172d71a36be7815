//! The intermediate language: address spaces, varnodes, operations and columns.

pub mod columns;
pub mod metadata;
pub mod op;
pub mod space;
pub mod varnode;
