//! Operations in static single assignment form.

use crate::il::metadata::MemoryOrdering;
use crate::text::{copy_of, digits, has_prefix, push_digits, push_text, same, starts_with};
use vstd::prelude::*;

verus! {

/// One version of one storage location.
#[derive(Debug)]
pub struct SSAVar {
    pub name: String,
    pub version: u32,
    /// Size in bytes.
    pub size: u32,
}

/// One version of one storage location, as a mathematical value.
pub struct Var {
    pub name: Seq<char>,
    pub version: u32,
    pub size: u32,
}

impl Var {
    /// The name under which tables list the variable.
    pub open spec fn display(self) -> Seq<char> {
        self.name + "_"@ + digits(self.version as nat, 10)
    }

    /// Is this a constant?
    pub open spec fn constant(self) -> bool {
        has_prefix(self.name, "const:"@)
    }
}

impl SSAVar {
    pub open spec fn view(&self) -> Var {
        Var { name: self.name@, version: self.version, size: self.size }
    }

    /// A variable from its parts.
    pub fn new(name: &str, version: u32, size: u32) -> (r: SSAVar)
        ensures
            r@ == (Var { name: name@, version, size }),
    {
        SSAVar { name: copy_of(name), version, size }
    }

    /// A copy of this variable.
    pub fn dup(&self) -> (r: SSAVar)
        ensures
            r@ == self@,
    {
        SSAVar { name: copy_of(&self.name), version: self.version, size: self.size }
    }

    /// Are two variables the same version of the same location?
    pub fn same(&self, other: &SSAVar) -> (r: bool)
        ensures
            r == (self@ == other@),
    {
        same(&self.name, &other.name) && self.version == other.version && self.size == other.size
    }

    /// The name under which tables list the variable.
    pub fn display_name(&self) -> (r: String)
        ensures
            r@ == self@.display(),
    {
        let mut out = copy_of(&self.name);
        push_text(&mut out, "_");
        push_digits(&mut out, self.version as u64, 10);
        out
    }

    /// Is this a constant?
    pub fn is_const(&self) -> (r: bool)
        ensures
            r == self@.constant(),
    {
        starts_with(&self.name, "const:")
    }
}

/// The twins of a list of variables.
pub open spec fn var_views(list: Seq<SSAVar>) -> Seq<Var> {
    list.map_values(|v: SSAVar| v@)
}

/// The twin of an optional variable.
pub open spec fn view_opt_var(v: Option<SSAVar>) -> Option<Var> {
    match v {
        Some(v) => Some(v@),
        None => None,
    }
}

/// The twin of an optional borrowed variable.
pub open spec fn view_opt_var_ref(v: Option<&SSAVar>) -> Option<Var> {
    match v {
        Some(v) => Some(v@),
        None => None,
    }
}

/// One operation.
#[derive(Debug)]
pub enum SSAOp {
    Copy { dst: SSAVar, src: SSAVar },
    Load { dst: SSAVar, space: String, addr: SSAVar },
    Store { space: String, addr: SSAVar, val: SSAVar },
    Fence { ordering: MemoryOrdering },
    LoadLinked { dst: SSAVar, space: String, addr: SSAVar, ordering: MemoryOrdering },
    StoreConditional { result: Option<SSAVar>, space: String, addr: SSAVar, val: SSAVar, ordering: MemoryOrdering },
    AtomicCAS { dst: SSAVar, space: String, addr: SSAVar, expected: SSAVar, replacement: SSAVar, ordering: MemoryOrdering },
    LoadGuarded { dst: SSAVar, space: String, addr: SSAVar, guard: SSAVar, ordering: MemoryOrdering },
    StoreGuarded { space: String, addr: SSAVar, val: SSAVar, guard: SSAVar, ordering: MemoryOrdering },
    IntAdd { dst: SSAVar, a: SSAVar, b: SSAVar },
    IntSub { dst: SSAVar, a: SSAVar, b: SSAVar },
    IntMult { dst: SSAVar, a: SSAVar, b: SSAVar },
    IntDiv { dst: SSAVar, a: SSAVar, b: SSAVar },
    IntSDiv { dst: SSAVar, a: SSAVar, b: SSAVar },
    IntRem { dst: SSAVar, a: SSAVar, b: SSAVar },
    IntSRem { dst: SSAVar, a: SSAVar, b: SSAVar },
    IntCarry { dst: SSAVar, a: SSAVar, b: SSAVar },
    IntSCarry { dst: SSAVar, a: SSAVar, b: SSAVar },
    IntSBorrow { dst: SSAVar, a: SSAVar, b: SSAVar },
    IntAnd { dst: SSAVar, a: SSAVar, b: SSAVar },
    IntOr { dst: SSAVar, a: SSAVar, b: SSAVar },
    IntXor { dst: SSAVar, a: SSAVar, b: SSAVar },
    IntLeft { dst: SSAVar, a: SSAVar, b: SSAVar },
    IntRight { dst: SSAVar, a: SSAVar, b: SSAVar },
    IntSRight { dst: SSAVar, a: SSAVar, b: SSAVar },
    IntEqual { dst: SSAVar, a: SSAVar, b: SSAVar },
    IntNotEqual { dst: SSAVar, a: SSAVar, b: SSAVar },
    IntLess { dst: SSAVar, a: SSAVar, b: SSAVar },
    IntSLess { dst: SSAVar, a: SSAVar, b: SSAVar },
    IntLessEqual { dst: SSAVar, a: SSAVar, b: SSAVar },
    IntSLessEqual { dst: SSAVar, a: SSAVar, b: SSAVar },
    BoolAnd { dst: SSAVar, a: SSAVar, b: SSAVar },
    BoolOr { dst: SSAVar, a: SSAVar, b: SSAVar },
    BoolXor { dst: SSAVar, a: SSAVar, b: SSAVar },
    FloatAdd { dst: SSAVar, a: SSAVar, b: SSAVar },
    FloatSub { dst: SSAVar, a: SSAVar, b: SSAVar },
    FloatMult { dst: SSAVar, a: SSAVar, b: SSAVar },
    FloatDiv { dst: SSAVar, a: SSAVar, b: SSAVar },
    FloatEqual { dst: SSAVar, a: SSAVar, b: SSAVar },
    FloatNotEqual { dst: SSAVar, a: SSAVar, b: SSAVar },
    FloatLess { dst: SSAVar, a: SSAVar, b: SSAVar },
    FloatLessEqual { dst: SSAVar, a: SSAVar, b: SSAVar },
    IntNegate { dst: SSAVar, src: SSAVar },
    IntNot { dst: SSAVar, src: SSAVar },
    IntZExt { dst: SSAVar, src: SSAVar },
    IntSExt { dst: SSAVar, src: SSAVar },
    BoolNot { dst: SSAVar, src: SSAVar },
    Trunc { dst: SSAVar, src: SSAVar },
    PopCount { dst: SSAVar, src: SSAVar },
    Lzcount { dst: SSAVar, src: SSAVar },
    FloatNeg { dst: SSAVar, src: SSAVar },
    FloatAbs { dst: SSAVar, src: SSAVar },
    FloatSqrt { dst: SSAVar, src: SSAVar },
    FloatCeil { dst: SSAVar, src: SSAVar },
    FloatFloor { dst: SSAVar, src: SSAVar },
    FloatRound { dst: SSAVar, src: SSAVar },
    FloatNaN { dst: SSAVar, src: SSAVar },
    Int2Float { dst: SSAVar, src: SSAVar },
    Float2Int { dst: SSAVar, src: SSAVar },
    FloatFloat { dst: SSAVar, src: SSAVar },
    Cast { dst: SSAVar, src: SSAVar },
    Piece { dst: SSAVar, hi: SSAVar, lo: SSAVar },
    Subpiece { dst: SSAVar, src: SSAVar, offset: u32 },
    Branch { target: SSAVar },
    BranchInd { target: SSAVar },
    Call { target: SSAVar },
    CallInd { target: SSAVar },
    Return { target: SSAVar },
    CBranch { target: SSAVar, cond: SSAVar },
    CallOther { output: Option<SSAVar>, userop: u32, inputs: Vec<SSAVar> },
    CallDefine { dst: SSAVar },
    CpuId { dst: SSAVar },
    PtrAdd { dst: SSAVar, base: SSAVar, index: SSAVar, element_size: u32 },
    PtrSub { dst: SSAVar, base: SSAVar, index: SSAVar, element_size: u32 },
    Phi { dst: SSAVar, sources: Vec<SSAVar> },
    Nop,
    Unimplemented,
    Breakpoint,
}

impl SSAOp {
    /// The variable that the operation defines.
    pub open spec fn defines(&self) -> Option<Var> {
        match *self {
            SSAOp::Copy { dst, .. } => Some(dst@),
            SSAOp::Load { dst, .. } => Some(dst@),
            SSAOp::LoadLinked { dst, .. } => Some(dst@),
            SSAOp::AtomicCAS { dst, .. } => Some(dst@),
            SSAOp::LoadGuarded { dst, .. } => Some(dst@),
            SSAOp::IntAdd { dst, .. } => Some(dst@),
            SSAOp::IntSub { dst, .. } => Some(dst@),
            SSAOp::IntMult { dst, .. } => Some(dst@),
            SSAOp::IntDiv { dst, .. } => Some(dst@),
            SSAOp::IntSDiv { dst, .. } => Some(dst@),
            SSAOp::IntRem { dst, .. } => Some(dst@),
            SSAOp::IntSRem { dst, .. } => Some(dst@),
            SSAOp::IntCarry { dst, .. } => Some(dst@),
            SSAOp::IntSCarry { dst, .. } => Some(dst@),
            SSAOp::IntSBorrow { dst, .. } => Some(dst@),
            SSAOp::IntAnd { dst, .. } => Some(dst@),
            SSAOp::IntOr { dst, .. } => Some(dst@),
            SSAOp::IntXor { dst, .. } => Some(dst@),
            SSAOp::IntLeft { dst, .. } => Some(dst@),
            SSAOp::IntRight { dst, .. } => Some(dst@),
            SSAOp::IntSRight { dst, .. } => Some(dst@),
            SSAOp::IntEqual { dst, .. } => Some(dst@),
            SSAOp::IntNotEqual { dst, .. } => Some(dst@),
            SSAOp::IntLess { dst, .. } => Some(dst@),
            SSAOp::IntSLess { dst, .. } => Some(dst@),
            SSAOp::IntLessEqual { dst, .. } => Some(dst@),
            SSAOp::IntSLessEqual { dst, .. } => Some(dst@),
            SSAOp::BoolAnd { dst, .. } => Some(dst@),
            SSAOp::BoolOr { dst, .. } => Some(dst@),
            SSAOp::BoolXor { dst, .. } => Some(dst@),
            SSAOp::FloatAdd { dst, .. } => Some(dst@),
            SSAOp::FloatSub { dst, .. } => Some(dst@),
            SSAOp::FloatMult { dst, .. } => Some(dst@),
            SSAOp::FloatDiv { dst, .. } => Some(dst@),
            SSAOp::FloatEqual { dst, .. } => Some(dst@),
            SSAOp::FloatNotEqual { dst, .. } => Some(dst@),
            SSAOp::FloatLess { dst, .. } => Some(dst@),
            SSAOp::FloatLessEqual { dst, .. } => Some(dst@),
            SSAOp::IntNegate { dst, .. } => Some(dst@),
            SSAOp::IntNot { dst, .. } => Some(dst@),
            SSAOp::IntZExt { dst, .. } => Some(dst@),
            SSAOp::IntSExt { dst, .. } => Some(dst@),
            SSAOp::BoolNot { dst, .. } => Some(dst@),
            SSAOp::Trunc { dst, .. } => Some(dst@),
            SSAOp::PopCount { dst, .. } => Some(dst@),
            SSAOp::Lzcount { dst, .. } => Some(dst@),
            SSAOp::FloatNeg { dst, .. } => Some(dst@),
            SSAOp::FloatAbs { dst, .. } => Some(dst@),
            SSAOp::FloatSqrt { dst, .. } => Some(dst@),
            SSAOp::FloatCeil { dst, .. } => Some(dst@),
            SSAOp::FloatFloor { dst, .. } => Some(dst@),
            SSAOp::FloatRound { dst, .. } => Some(dst@),
            SSAOp::FloatNaN { dst, .. } => Some(dst@),
            SSAOp::Int2Float { dst, .. } => Some(dst@),
            SSAOp::Float2Int { dst, .. } => Some(dst@),
            SSAOp::FloatFloat { dst, .. } => Some(dst@),
            SSAOp::Cast { dst, .. } => Some(dst@),
            SSAOp::Piece { dst, .. } => Some(dst@),
            SSAOp::Subpiece { dst, .. } => Some(dst@),
            SSAOp::CallDefine { dst, .. } => Some(dst@),
            SSAOp::CpuId { dst, .. } => Some(dst@),
            SSAOp::PtrAdd { dst, .. } => Some(dst@),
            SSAOp::PtrSub { dst, .. } => Some(dst@),
            SSAOp::Phi { dst, .. } => Some(dst@),
            SSAOp::StoreConditional { result, .. } => view_opt_var(result),
            SSAOp::CallOther { output, .. } => view_opt_var(output),
            _ => None,
        }
    }

    /// The variable that the operation defines.
    pub fn dst(&self) -> (r: Option<&SSAVar>)
        ensures
            view_opt_var_ref(r) == self.defines(),
    {
        match self {
            SSAOp::Copy { dst, .. } => Some(dst),
            SSAOp::Load { dst, .. } => Some(dst),
            SSAOp::LoadLinked { dst, .. } => Some(dst),
            SSAOp::AtomicCAS { dst, .. } => Some(dst),
            SSAOp::LoadGuarded { dst, .. } => Some(dst),
            SSAOp::IntAdd { dst, .. } => Some(dst),
            SSAOp::IntSub { dst, .. } => Some(dst),
            SSAOp::IntMult { dst, .. } => Some(dst),
            SSAOp::IntDiv { dst, .. } => Some(dst),
            SSAOp::IntSDiv { dst, .. } => Some(dst),
            SSAOp::IntRem { dst, .. } => Some(dst),
            SSAOp::IntSRem { dst, .. } => Some(dst),
            SSAOp::IntCarry { dst, .. } => Some(dst),
            SSAOp::IntSCarry { dst, .. } => Some(dst),
            SSAOp::IntSBorrow { dst, .. } => Some(dst),
            SSAOp::IntAnd { dst, .. } => Some(dst),
            SSAOp::IntOr { dst, .. } => Some(dst),
            SSAOp::IntXor { dst, .. } => Some(dst),
            SSAOp::IntLeft { dst, .. } => Some(dst),
            SSAOp::IntRight { dst, .. } => Some(dst),
            SSAOp::IntSRight { dst, .. } => Some(dst),
            SSAOp::IntEqual { dst, .. } => Some(dst),
            SSAOp::IntNotEqual { dst, .. } => Some(dst),
            SSAOp::IntLess { dst, .. } => Some(dst),
            SSAOp::IntSLess { dst, .. } => Some(dst),
            SSAOp::IntLessEqual { dst, .. } => Some(dst),
            SSAOp::IntSLessEqual { dst, .. } => Some(dst),
            SSAOp::BoolAnd { dst, .. } => Some(dst),
            SSAOp::BoolOr { dst, .. } => Some(dst),
            SSAOp::BoolXor { dst, .. } => Some(dst),
            SSAOp::FloatAdd { dst, .. } => Some(dst),
            SSAOp::FloatSub { dst, .. } => Some(dst),
            SSAOp::FloatMult { dst, .. } => Some(dst),
            SSAOp::FloatDiv { dst, .. } => Some(dst),
            SSAOp::FloatEqual { dst, .. } => Some(dst),
            SSAOp::FloatNotEqual { dst, .. } => Some(dst),
            SSAOp::FloatLess { dst, .. } => Some(dst),
            SSAOp::FloatLessEqual { dst, .. } => Some(dst),
            SSAOp::IntNegate { dst, .. } => Some(dst),
            SSAOp::IntNot { dst, .. } => Some(dst),
            SSAOp::IntZExt { dst, .. } => Some(dst),
            SSAOp::IntSExt { dst, .. } => Some(dst),
            SSAOp::BoolNot { dst, .. } => Some(dst),
            SSAOp::Trunc { dst, .. } => Some(dst),
            SSAOp::PopCount { dst, .. } => Some(dst),
            SSAOp::Lzcount { dst, .. } => Some(dst),
            SSAOp::FloatNeg { dst, .. } => Some(dst),
            SSAOp::FloatAbs { dst, .. } => Some(dst),
            SSAOp::FloatSqrt { dst, .. } => Some(dst),
            SSAOp::FloatCeil { dst, .. } => Some(dst),
            SSAOp::FloatFloor { dst, .. } => Some(dst),
            SSAOp::FloatRound { dst, .. } => Some(dst),
            SSAOp::FloatNaN { dst, .. } => Some(dst),
            SSAOp::Int2Float { dst, .. } => Some(dst),
            SSAOp::Float2Int { dst, .. } => Some(dst),
            SSAOp::FloatFloat { dst, .. } => Some(dst),
            SSAOp::Cast { dst, .. } => Some(dst),
            SSAOp::Piece { dst, .. } => Some(dst),
            SSAOp::Subpiece { dst, .. } => Some(dst),
            SSAOp::CallDefine { dst, .. } => Some(dst),
            SSAOp::CpuId { dst, .. } => Some(dst),
            SSAOp::PtrAdd { dst, .. } => Some(dst),
            SSAOp::PtrSub { dst, .. } => Some(dst),
            SSAOp::Phi { dst, .. } => Some(dst),
            SSAOp::StoreConditional { result, .. } => match result {
                Some(v) => Some(v),
                None => None,
            },
            SSAOp::CallOther { output, .. } => match output {
                Some(v) => Some(v),
                None => None,
            },
            _ => None,
        }
    }

    /// The variables that the operation reads, in order.
    pub open spec fn reads(&self) -> Seq<Var> {
        match *self {
            SSAOp::Copy { src, .. } => seq![src@],
            SSAOp::Load { addr, .. } => seq![addr@],
            SSAOp::Store { addr, val, .. } => seq![addr@, val@],
            SSAOp::LoadLinked { addr, .. } => seq![addr@],
            SSAOp::StoreConditional { addr, val, .. } => seq![addr@, val@],
            SSAOp::AtomicCAS { addr, expected, replacement, .. } => seq![addr@, expected@, replacement@],
            SSAOp::LoadGuarded { addr, guard, .. } => seq![addr@, guard@],
            SSAOp::StoreGuarded { addr, val, guard, .. } => seq![addr@, val@, guard@],
            SSAOp::IntAdd { a, b, .. } => seq![a@, b@],
            SSAOp::IntSub { a, b, .. } => seq![a@, b@],
            SSAOp::IntMult { a, b, .. } => seq![a@, b@],
            SSAOp::IntDiv { a, b, .. } => seq![a@, b@],
            SSAOp::IntSDiv { a, b, .. } => seq![a@, b@],
            SSAOp::IntRem { a, b, .. } => seq![a@, b@],
            SSAOp::IntSRem { a, b, .. } => seq![a@, b@],
            SSAOp::IntCarry { a, b, .. } => seq![a@, b@],
            SSAOp::IntSCarry { a, b, .. } => seq![a@, b@],
            SSAOp::IntSBorrow { a, b, .. } => seq![a@, b@],
            SSAOp::IntAnd { a, b, .. } => seq![a@, b@],
            SSAOp::IntOr { a, b, .. } => seq![a@, b@],
            SSAOp::IntXor { a, b, .. } => seq![a@, b@],
            SSAOp::IntLeft { a, b, .. } => seq![a@, b@],
            SSAOp::IntRight { a, b, .. } => seq![a@, b@],
            SSAOp::IntSRight { a, b, .. } => seq![a@, b@],
            SSAOp::IntEqual { a, b, .. } => seq![a@, b@],
            SSAOp::IntNotEqual { a, b, .. } => seq![a@, b@],
            SSAOp::IntLess { a, b, .. } => seq![a@, b@],
            SSAOp::IntSLess { a, b, .. } => seq![a@, b@],
            SSAOp::IntLessEqual { a, b, .. } => seq![a@, b@],
            SSAOp::IntSLessEqual { a, b, .. } => seq![a@, b@],
            SSAOp::BoolAnd { a, b, .. } => seq![a@, b@],
            SSAOp::BoolOr { a, b, .. } => seq![a@, b@],
            SSAOp::BoolXor { a, b, .. } => seq![a@, b@],
            SSAOp::FloatAdd { a, b, .. } => seq![a@, b@],
            SSAOp::FloatSub { a, b, .. } => seq![a@, b@],
            SSAOp::FloatMult { a, b, .. } => seq![a@, b@],
            SSAOp::FloatDiv { a, b, .. } => seq![a@, b@],
            SSAOp::FloatEqual { a, b, .. } => seq![a@, b@],
            SSAOp::FloatNotEqual { a, b, .. } => seq![a@, b@],
            SSAOp::FloatLess { a, b, .. } => seq![a@, b@],
            SSAOp::FloatLessEqual { a, b, .. } => seq![a@, b@],
            SSAOp::IntNegate { src, .. } => seq![src@],
            SSAOp::IntNot { src, .. } => seq![src@],
            SSAOp::IntZExt { src, .. } => seq![src@],
            SSAOp::IntSExt { src, .. } => seq![src@],
            SSAOp::BoolNot { src, .. } => seq![src@],
            SSAOp::Trunc { src, .. } => seq![src@],
            SSAOp::PopCount { src, .. } => seq![src@],
            SSAOp::Lzcount { src, .. } => seq![src@],
            SSAOp::FloatNeg { src, .. } => seq![src@],
            SSAOp::FloatAbs { src, .. } => seq![src@],
            SSAOp::FloatSqrt { src, .. } => seq![src@],
            SSAOp::FloatCeil { src, .. } => seq![src@],
            SSAOp::FloatFloor { src, .. } => seq![src@],
            SSAOp::FloatRound { src, .. } => seq![src@],
            SSAOp::FloatNaN { src, .. } => seq![src@],
            SSAOp::Int2Float { src, .. } => seq![src@],
            SSAOp::Float2Int { src, .. } => seq![src@],
            SSAOp::FloatFloat { src, .. } => seq![src@],
            SSAOp::Cast { src, .. } => seq![src@],
            SSAOp::Piece { hi, lo, .. } => seq![hi@, lo@],
            SSAOp::Subpiece { src, .. } => seq![src@],
            SSAOp::Branch { target, .. } => seq![target@],
            SSAOp::BranchInd { target, .. } => seq![target@],
            SSAOp::Call { target, .. } => seq![target@],
            SSAOp::CallInd { target, .. } => seq![target@],
            SSAOp::Return { target, .. } => seq![target@],
            SSAOp::CBranch { target, cond, .. } => seq![target@, cond@],
            SSAOp::CallOther { inputs, .. } => var_views(inputs@),
            SSAOp::PtrAdd { base, index, .. } => seq![base@, index@],
            SSAOp::PtrSub { base, index, .. } => seq![base@, index@],
            SSAOp::Phi { sources, .. } => var_views(sources@),
            _ => Seq::empty(),
        }
    }

    /// The variables that the operation reads, in order.
    pub fn sources(&self) -> (r: Vec<SSAVar>)
        ensures
            var_views(r@) == self.reads(),
    {
        match self {
            SSAOp::Copy { src, .. } => list1(src),
            SSAOp::Load { addr, .. } => list1(addr),
            SSAOp::Store { addr, val, .. } => list2(addr, val),
            SSAOp::LoadLinked { addr, .. } => list1(addr),
            SSAOp::StoreConditional { addr, val, .. } => list2(addr, val),
            SSAOp::AtomicCAS { addr, expected, replacement, .. } => list3(addr, expected, replacement),
            SSAOp::LoadGuarded { addr, guard, .. } => list2(addr, guard),
            SSAOp::StoreGuarded { addr, val, guard, .. } => list3(addr, val, guard),
            SSAOp::IntAdd { a, b, .. } => list2(a, b),
            SSAOp::IntSub { a, b, .. } => list2(a, b),
            SSAOp::IntMult { a, b, .. } => list2(a, b),
            SSAOp::IntDiv { a, b, .. } => list2(a, b),
            SSAOp::IntSDiv { a, b, .. } => list2(a, b),
            SSAOp::IntRem { a, b, .. } => list2(a, b),
            SSAOp::IntSRem { a, b, .. } => list2(a, b),
            SSAOp::IntCarry { a, b, .. } => list2(a, b),
            SSAOp::IntSCarry { a, b, .. } => list2(a, b),
            SSAOp::IntSBorrow { a, b, .. } => list2(a, b),
            SSAOp::IntAnd { a, b, .. } => list2(a, b),
            SSAOp::IntOr { a, b, .. } => list2(a, b),
            SSAOp::IntXor { a, b, .. } => list2(a, b),
            SSAOp::IntLeft { a, b, .. } => list2(a, b),
            SSAOp::IntRight { a, b, .. } => list2(a, b),
            SSAOp::IntSRight { a, b, .. } => list2(a, b),
            SSAOp::IntEqual { a, b, .. } => list2(a, b),
            SSAOp::IntNotEqual { a, b, .. } => list2(a, b),
            SSAOp::IntLess { a, b, .. } => list2(a, b),
            SSAOp::IntSLess { a, b, .. } => list2(a, b),
            SSAOp::IntLessEqual { a, b, .. } => list2(a, b),
            SSAOp::IntSLessEqual { a, b, .. } => list2(a, b),
            SSAOp::BoolAnd { a, b, .. } => list2(a, b),
            SSAOp::BoolOr { a, b, .. } => list2(a, b),
            SSAOp::BoolXor { a, b, .. } => list2(a, b),
            SSAOp::FloatAdd { a, b, .. } => list2(a, b),
            SSAOp::FloatSub { a, b, .. } => list2(a, b),
            SSAOp::FloatMult { a, b, .. } => list2(a, b),
            SSAOp::FloatDiv { a, b, .. } => list2(a, b),
            SSAOp::FloatEqual { a, b, .. } => list2(a, b),
            SSAOp::FloatNotEqual { a, b, .. } => list2(a, b),
            SSAOp::FloatLess { a, b, .. } => list2(a, b),
            SSAOp::FloatLessEqual { a, b, .. } => list2(a, b),
            SSAOp::IntNegate { src, .. } => list1(src),
            SSAOp::IntNot { src, .. } => list1(src),
            SSAOp::IntZExt { src, .. } => list1(src),
            SSAOp::IntSExt { src, .. } => list1(src),
            SSAOp::BoolNot { src, .. } => list1(src),
            SSAOp::Trunc { src, .. } => list1(src),
            SSAOp::PopCount { src, .. } => list1(src),
            SSAOp::Lzcount { src, .. } => list1(src),
            SSAOp::FloatNeg { src, .. } => list1(src),
            SSAOp::FloatAbs { src, .. } => list1(src),
            SSAOp::FloatSqrt { src, .. } => list1(src),
            SSAOp::FloatCeil { src, .. } => list1(src),
            SSAOp::FloatFloor { src, .. } => list1(src),
            SSAOp::FloatRound { src, .. } => list1(src),
            SSAOp::FloatNaN { src, .. } => list1(src),
            SSAOp::Int2Float { src, .. } => list1(src),
            SSAOp::Float2Int { src, .. } => list1(src),
            SSAOp::FloatFloat { src, .. } => list1(src),
            SSAOp::Cast { src, .. } => list1(src),
            SSAOp::Piece { hi, lo, .. } => list2(hi, lo),
            SSAOp::Subpiece { src, .. } => list1(src),
            SSAOp::Branch { target, .. } => list1(target),
            SSAOp::BranchInd { target, .. } => list1(target),
            SSAOp::Call { target, .. } => list1(target),
            SSAOp::CallInd { target, .. } => list1(target),
            SSAOp::Return { target, .. } => list1(target),
            SSAOp::CBranch { target, cond, .. } => list2(target, cond),
            SSAOp::CallOther { inputs, .. } => dup_vars(inputs),
            SSAOp::PtrAdd { base, index, .. } => list2(base, index),
            SSAOp::PtrSub { base, index, .. } => list2(base, index),
            SSAOp::Phi { sources, .. } => dup_vars(sources),
            _ => {
                let out: Vec<SSAVar> = Vec::new();
                assert(var_views(out@) =~= Seq::<Var>::empty());
                out
            },
        }
    }

    /// Does the operation read this variable?
    pub fn uses(&self, var: &SSAVar) -> (r: bool)
        ensures
            r == self.reads().contains(var@),
    {
        let list = self.sources();
        let mut i: usize = 0;
        while i < list.len()
            invariant
                i <= list@.len(),
                var_views(list@) == self.reads(),
                forall|j: int| 0 <= j < i ==> (#[trigger] list@[j])@ != var@,
            decreases list@.len() - i,
        {
            if list[i].same(var) {
                assert(var_views(list@)[i as int] == var@);
                return true;
            }
            i = i + 1;
        }
        assert forall|j: int| 0 <= j < var_views(list@).len() implies var_views(list@)[j]
            != var@ by {
            assert(list@[j]@ != var@);
        }
        false
    }
}

/// Copies of a list of variables.
pub fn dup_vars(list: &Vec<SSAVar>) -> (r: Vec<SSAVar>)
    ensures
        var_views(r@) == var_views(list@),
{
    let mut out: Vec<SSAVar> = Vec::new();
    for i in 0..list.len()
        invariant
            out@.len() == i,
            forall|j: int| 0 <= j < i ==> (#[trigger] out@[j])@ == list@[j]@,
    {
        out.push(list[i].dup());
    }
    assert(var_views(out@) =~= var_views(list@));
    out
}

fn list1(v0: &SSAVar) -> (r: Vec<SSAVar>)
    ensures
        var_views(r@) == seq![v0@],
{
    let mut out: Vec<SSAVar> = Vec::new();
    out.push(v0.dup());
    assert(var_views(out@) =~= seq![v0@]);
    out
}

fn list2(v0: &SSAVar, v1: &SSAVar) -> (r: Vec<SSAVar>)
    ensures
        var_views(r@) == seq![v0@, v1@],
{
    let mut out: Vec<SSAVar> = Vec::new();
    out.push(v0.dup());
    out.push(v1.dup());
    assert(var_views(out@) =~= seq![v0@, v1@]);
    out
}

fn list3(v0: &SSAVar, v1: &SSAVar, v2: &SSAVar) -> (r: Vec<SSAVar>)
    ensures
        var_views(r@) == seq![v0@, v1@, v2@],
{
    let mut out: Vec<SSAVar> = Vec::new();
    out.push(v0.dup());
    out.push(v1.dup());
    out.push(v2.dup());
    assert(var_views(out@) =~= seq![v0@, v1@, v2@]);
    out
}

/// A merge of the versions that reach a block along its incoming edges.
#[derive(Debug)]
pub struct PhiNode {
    pub dst: SSAVar,
    /// Each incoming block with the version that comes from it.
    pub sources: Vec<(u64, SSAVar)>,
}

/// A basic block.
#[derive(Debug)]
pub struct SSABlock {
    pub addr: u64,
    pub ops: Vec<SSAOp>,
    pub phis: Vec<PhiNode>,
}

/// A function: its blocks in order, and its control flow edges.
#[derive(Debug)]
pub struct SSAFunction {
    pub blocks: Vec<SSABlock>,
    /// From block address to block address.
    pub edges: Vec<(u64, u64)>,
}

impl SSAFunction {
    /// The place of the first block at an address, from `i` on.
    pub open spec fn block_index(&self, addr: u64, i: int) -> int
        decreases self.blocks@.len() - i,
    {
        if i < 0 || i >= self.blocks@.len() {
            self.blocks@.len() as int
        } else if self.blocks@[i].addr == addr {
            i
        } else {
            self.block_index(addr, i + 1)
        }
    }

    /// The block at an address.
    pub open spec fn block_at(&self, addr: u64) -> Option<SSABlock> {
        let i = self.block_index(addr, 0);
        if i < self.blocks@.len() {
            Some(self.blocks@[i])
        } else {
            None
        }
    }

    /// The block at an address.
    pub fn get_block(&self, addr: u64) -> (r: Option<&SSABlock>)
        ensures
            match r {
                Some(b) => self.block_at(addr) == Some(*b),
                None => self.block_at(addr) is None,
            },
            r matches Some(b) ==> b.addr == addr,
    {
        let mut i: usize = 0;
        while i < self.blocks.len()
            invariant
                i <= self.blocks@.len(),
                self.block_index(addr, 0) == self.block_index(addr, i as int),
            decreases self.blocks@.len() - i,
        {
            if self.blocks[i].addr == addr {
                return Some(&self.blocks[i]);
            }
            i = i + 1;
        }
        None
    }

    /// The sources of the first `n` edges that lead to an address.
    pub open spec fn preds_upto(&self, addr: u64, n: int) -> Seq<u64>
        decreases n,
    {
        if n <= 0 {
            Seq::empty()
        } else {
            let before = self.preds_upto(addr, n - 1);
            if self.edges@[n - 1].1 == addr {
                before.push(self.edges@[n - 1].0)
            } else {
                before
            }
        }
    }

    /// The blocks from which control can reach an address directly.
    pub open spec fn preds(&self, addr: u64) -> Seq<u64> {
        self.preds_upto(addr, self.edges@.len() as int)
    }

    /// The blocks from which control can reach an address directly.
    pub fn predecessors(&self, addr: u64) -> (r: Vec<u64>)
        ensures
            r@ == self.preds(addr),
    {
        let mut out: Vec<u64> = Vec::new();
        let mut i: usize = 0;
        while i < self.edges.len()
            invariant
                i <= self.edges@.len(),
                out@ == self.preds_upto(addr, i as int),
            decreases self.edges@.len() - i,
        {
            if self.edges[i].1 == addr {
                out.push(self.edges[i].0);
            }
            i = i + 1;
        }
        out
    }
}

} // verus!
