//! Descriptive hints that travel with spaces and varnodes.

use vstd::prelude::*;

verus! {

/// Byte order of an address space.
#[derive(Debug, Clone, Copy, PartialEq, Eq, Hash, Structural)]
pub enum Endianness {
    Little,
    Big,
}

/// What kind of memory a space or a varnode stands for.
#[derive(Debug, Clone, Copy, PartialEq, Eq, Hash, Structural)]
pub enum MemoryClass {
    Ram,
    Rom,
    Mmio,
    Stack,
    Heap,
    Unknown,
}

/// Access rights of a region.
#[derive(Debug, Clone, Copy, PartialEq, Eq, Hash, Structural)]
pub struct MemoryPermissions {
    pub read: bool,
    pub write: bool,
    pub execute: bool,
}

/// A half-open range of addresses.
#[derive(Debug, Clone, Copy, PartialEq, Eq, Hash, Structural)]
pub struct MemoryRange {
    pub start: u64,
    pub end: u64,
}

/// How the bits of a scalar are read.
#[derive(Debug, Clone, Copy, PartialEq, Eq, Hash, Structural)]
pub enum ScalarKind {
    Bool,
    UnsignedInt,
    SignedInt,
    Float,
    Unknown,
}

/// Whether a value looks like a pointer.
#[derive(Debug, Clone, Copy, PartialEq, Eq, Hash, Structural)]
pub enum PointerHint {
    PointerLike,
    NotPointer,
    Unknown,
}

/// Ordering constraint of an atomic operation.
#[derive(Debug, Clone, Copy, PartialEq, Eq, Hash, Structural)]
pub enum MemoryOrdering {
    Relaxed,
    Acquire,
    Release,
    AcqRel,
    SeqCst,
    Unknown,
}

/// Optional hints about one varnode.
#[derive(Debug, Clone, PartialEq, Eq)]
pub struct VarnodeMetadata {
    pub scalar_kind: Option<ScalarKind>,
    pub pointer_hint: Option<PointerHint>,
    pub endianness: Option<Endianness>,
    pub memory_class: Option<MemoryClass>,
    pub permissions: Option<MemoryPermissions>,
    pub bank_id: Option<String>,
    pub segment_id: Option<String>,
}

impl Default for VarnodeMetadata {
    /// No hints at all.
    fn default() -> (r: Self)
        ensures
            r.scalar_kind is None,
            r.pointer_hint is None,
            r.endianness is None,
            r.memory_class is None,
            r.permissions is None,
            r.bank_id is None,
            r.segment_id is None,
    {
        VarnodeMetadata {
            scalar_kind: None,
            pointer_hint: None,
            endianness: None,
            memory_class: None,
            permissions: None,
            bank_id: None,
            segment_id: None,
        }
    }
}

} // verus!
