//! Concrete execution of single operations over flat byte slabs.

pub mod laws;
pub mod meaning;
pub mod slab;
pub mod word;
