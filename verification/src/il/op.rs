//! Operations.
//!
//! One variant per operation of the intermediate language. An operation names
//! its operands as varnodes and has no effect beyond its destination, memory
//! and control flow.

use crate::il::metadata::MemoryOrdering;
use crate::il::space::SpaceId;
use crate::il::varnode::Varnode;
use vstd::prelude::*;

verus! {

/// One operation.
#[derive(Debug, Clone, PartialEq, Eq)]
pub enum R2ILOp {
    Copy { dst: Varnode, src: Varnode },
    Load { dst: Varnode, space: SpaceId, addr: Varnode },
    Store { space: SpaceId, addr: Varnode, val: Varnode },
    Fence { ordering: MemoryOrdering },
    LoadLinked { dst: Varnode, space: SpaceId, addr: Varnode, ordering: MemoryOrdering },
    StoreConditional { result: Option<Varnode>, space: SpaceId, addr: Varnode, val: Varnode, ordering: MemoryOrdering },
    AtomicCAS { dst: Varnode, space: SpaceId, addr: Varnode, expected: Varnode, replacement: Varnode, ordering: MemoryOrdering },
    LoadGuarded { dst: Varnode, space: SpaceId, addr: Varnode, guard: Varnode, ordering: MemoryOrdering },
    StoreGuarded { space: SpaceId, addr: Varnode, val: Varnode, guard: Varnode, ordering: MemoryOrdering },
    IntAdd { dst: Varnode, a: Varnode, b: Varnode },
    IntSub { dst: Varnode, a: Varnode, b: Varnode },
    IntMult { dst: Varnode, a: Varnode, b: Varnode },
    IntDiv { dst: Varnode, a: Varnode, b: Varnode },
    IntSDiv { dst: Varnode, a: Varnode, b: Varnode },
    IntRem { dst: Varnode, a: Varnode, b: Varnode },
    IntSRem { dst: Varnode, a: Varnode, b: Varnode },
    IntNegate { dst: Varnode, src: Varnode },
    IntCarry { dst: Varnode, a: Varnode, b: Varnode },
    IntSCarry { dst: Varnode, a: Varnode, b: Varnode },
    IntSBorrow { dst: Varnode, a: Varnode, b: Varnode },
    IntAnd { dst: Varnode, a: Varnode, b: Varnode },
    IntOr { dst: Varnode, a: Varnode, b: Varnode },
    IntXor { dst: Varnode, a: Varnode, b: Varnode },
    IntNot { dst: Varnode, src: Varnode },
    IntLeft { dst: Varnode, a: Varnode, b: Varnode },
    IntRight { dst: Varnode, a: Varnode, b: Varnode },
    IntSRight { dst: Varnode, a: Varnode, b: Varnode },
    IntEqual { dst: Varnode, a: Varnode, b: Varnode },
    IntNotEqual { dst: Varnode, a: Varnode, b: Varnode },
    IntLess { dst: Varnode, a: Varnode, b: Varnode },
    IntSLess { dst: Varnode, a: Varnode, b: Varnode },
    IntLessEqual { dst: Varnode, a: Varnode, b: Varnode },
    IntSLessEqual { dst: Varnode, a: Varnode, b: Varnode },
    IntZExt { dst: Varnode, src: Varnode },
    IntSExt { dst: Varnode, src: Varnode },
    BoolNot { dst: Varnode, src: Varnode },
    BoolAnd { dst: Varnode, a: Varnode, b: Varnode },
    BoolOr { dst: Varnode, a: Varnode, b: Varnode },
    BoolXor { dst: Varnode, a: Varnode, b: Varnode },
    Piece { dst: Varnode, hi: Varnode, lo: Varnode },
    Subpiece { dst: Varnode, src: Varnode, offset: u32 },
    PopCount { dst: Varnode, src: Varnode },
    Lzcount { dst: Varnode, src: Varnode },
    Branch { target: Varnode },
    CBranch { target: Varnode, cond: Varnode },
    BranchInd { target: Varnode },
    Call { target: Varnode },
    CallInd { target: Varnode },
    Return { target: Varnode },
    Nop,
    FloatAdd { dst: Varnode, a: Varnode, b: Varnode },
    FloatSub { dst: Varnode, a: Varnode, b: Varnode },
    FloatMult { dst: Varnode, a: Varnode, b: Varnode },
    FloatDiv { dst: Varnode, a: Varnode, b: Varnode },
    FloatNeg { dst: Varnode, src: Varnode },
    FloatAbs { dst: Varnode, src: Varnode },
    FloatSqrt { dst: Varnode, src: Varnode },
    FloatCeil { dst: Varnode, src: Varnode },
    FloatFloor { dst: Varnode, src: Varnode },
    FloatRound { dst: Varnode, src: Varnode },
    FloatNaN { dst: Varnode, src: Varnode },
    FloatEqual { dst: Varnode, a: Varnode, b: Varnode },
    FloatNotEqual { dst: Varnode, a: Varnode, b: Varnode },
    FloatLess { dst: Varnode, a: Varnode, b: Varnode },
    FloatLessEqual { dst: Varnode, a: Varnode, b: Varnode },
    Int2Float { dst: Varnode, src: Varnode },
    Float2Int { dst: Varnode, src: Varnode },
    FloatFloat { dst: Varnode, src: Varnode },
    Trunc { dst: Varnode, src: Varnode },
    CallOther { output: Option<Varnode>, userop: u32, inputs: Vec<Varnode> },
    Unimplemented,
    CpuId { dst: Varnode },
    Breakpoint,
    Multiequal { dst: Varnode, inputs: Vec<Varnode> },
    Indirect { dst: Varnode, src: Varnode, indirect: Varnode },
    PtrAdd { dst: Varnode, base: Varnode, index: Varnode, element_size: u32 },
    PtrSub { dst: Varnode, base: Varnode, index: Varnode, element_size: u32 },
    SegmentOp { dst: Varnode, segment: Varnode, offset: Varnode },
    New { dst: Varnode, src: Varnode },
    Cast { dst: Varnode, src: Varnode },
    Extract { dst: Varnode, src: Varnode, position: Varnode },
    Insert { dst: Varnode, src: Varnode, value: Varnode, position: Varnode },
}

} // verus!
