//! The slab executor: one operation at a time, over borrowed machine state.
//!
//! There is one flat byte slab per address space. The register file and main
//! memory are borrowed from the caller and never copied. A read is a
//! little-endian load of a slab slice into a `u64`, a write is the matching
//! store. Whatever lies outside the concrete subset is refused with an error,
//! and a refused step leaves every slab as it was.

use crate::conc::word::{
    count_ones, from_signed, low, low_of_low, magnitude, mask, ones, sext, signed, span, span_of,
    truncated_div, truncated_rem,
};
use crate::il::op::R2ILOp;
use crate::il::space::SpaceId;
use crate::il::varnode::Varnode;
use crate::text::{copy_of, digits, push_digits, push_text};
use vstd::prelude::*;
use vstd::std_specs::bits::u64_leading_zeros;

verus! {

/// Why a step was refused.
#[allow(inconsistent_fields)]
#[derive(Debug, Clone, Copy, PartialEq, Eq)]
pub enum ConcError {
    /// A varnode reaches past its slab.
    OutOfBounds { space: SpaceId, offset: u64, size: u32, len: usize },
    /// A varnode wider than eight bytes.
    WidthTooWide(u32),
    /// A write into the constant space.
    ConstWrite,
    /// A custom space without a registered slab.
    UnknownSpace(u32),
    /// Division or remainder by zero.
    DivByZero,
    /// `Subpiece` with a byte offset at or past the source width.
    SubpieceOutOfRange { offset: u32, size: u32 },
    /// Outside the concrete subset.
    Unsupported(&'static str),
}

impl ConcError {
    /// The message for this error.
    pub open spec fn message(&self) -> Seq<char> {
        match *self {
            ConcError::OutOfBounds { space, offset, size, len } => {
                space.variant_name() + "+0x"@ + digits(offset as nat, 16) + "..+"@ + digits(
                    size as nat,
                    10,
                ) + " out of bounds (slab len "@ + digits(len as nat, 10) + ")"@
            },
            ConcError::WidthTooWide(size) => {
                "varnode width "@ + digits(size as nat, 10)
                    + " > 8 bytes — not representable in the u64 core"@
            },
            ConcError::ConstWrite => "write into Const space"@,
            ConcError::UnknownSpace(id) => {
                "no slab registered for custom space "@ + digits(id as nat, 10)
            },
            ConcError::DivByZero => "division by zero"@,
            ConcError::SubpieceOutOfRange { offset, size } => {
                "subpiece offset "@ + digits(offset as nat, 10) + " >= source size "@ + digits(
                    size as nat,
                    10,
                )
            },
            ConcError::Unsupported(what) => "op outside the concrete subset: "@ + what@,
        }
    }

    /// The message for this error.
    pub fn to_text(&self) -> (r: String)
        ensures
            r@ == self.message(),
    {
        match self {
            ConcError::OutOfBounds { space, offset, size, len } => {
                let mut out = space.to_variant_text();
                push_text(&mut out, "+0x");
                push_digits(&mut out, *offset, 16);
                push_text(&mut out, "..+");
                push_digits(&mut out, *size as u64, 10);
                push_text(&mut out, " out of bounds (slab len ");
                push_digits(&mut out, *len as u64, 10);
                push_text(&mut out, ")");
                out
            },
            ConcError::WidthTooWide(size) => {
                let mut out = copy_of("varnode width ");
                push_digits(&mut out, *size as u64, 10);
                push_text(&mut out, " > 8 bytes — not representable in the u64 core");
                out
            },
            ConcError::ConstWrite => copy_of("write into Const space"),
            ConcError::UnknownSpace(id) => {
                let mut out = copy_of("no slab registered for custom space ");
                push_digits(&mut out, *id as u64, 10);
                out
            },
            ConcError::DivByZero => copy_of("division by zero"),
            ConcError::SubpieceOutOfRange { offset, size } => {
                let mut out = copy_of("subpiece offset ");
                push_digits(&mut out, *offset as u64, 10);
                push_text(&mut out, " >= source size ");
                push_digits(&mut out, *size as u64, 10);
                out
            },
            ConcError::Unsupported(what) => {
                let mut out = copy_of("op outside the concrete subset: ");
                push_text(&mut out, what);
                out
            },
        }
    }
}

/// What one step asks the sequencer to do next.
#[derive(Debug, Clone, Copy, PartialEq, Eq, Structural)]
pub enum Control {
    /// Fall through to the next operation.
    Next,
    /// Transfer to this address.
    Jump(u64),
    /// Call this address.
    Call(u64),
    /// Return to this address.
    Return(u64),
}

/// The contents of every slab.
pub struct Slabs {
    pub register: Seq<u8>,
    pub ram: Seq<u8>,
    pub unique: Seq<u8>,
    pub custom: Map<u32, Seq<u8>>,
}

impl Slabs {
    /// The slab of a space, or why there is none.
    pub open spec fn slab(self, space: SpaceId) -> Result<Seq<u8>, ConcError> {
        match space {
            SpaceId::Register => Ok(self.register),
            SpaceId::Ram => Ok(self.ram),
            SpaceId::Unique => Ok(self.unique),
            SpaceId::Custom(n) => if self.custom.dom().contains(n) {
                Ok(self.custom[n])
            } else {
                Err(ConcError::UnknownSpace(n))
            },
            SpaceId::Const => Err(ConcError::ConstWrite),
            SpaceId::Unresolved => Err(ConcError::Unsupported("Unresolved")),
        }
    }

    /// The state with another slab for a space.
    pub open spec fn with_slab(self, space: SpaceId, bytes: Seq<u8>) -> Slabs {
        match space {
            SpaceId::Register => Slabs { register: bytes, ..self },
            SpaceId::Ram => Slabs { ram: bytes, ..self },
            SpaceId::Unique => Slabs { unique: bytes, ..self },
            SpaceId::Custom(n) => Slabs { custom: self.custom.insert(n, bytes), ..self },
            SpaceId::Const => self,
            SpaceId::Unresolved => self,
        }
    }

    /// The slab that a varnode lies in, or why it lies in none.
    pub open spec fn locate(self, vn: Varnode) -> Result<Seq<u8>, ConcError> {
        match self.slab(vn.space) {
            Ok(bytes) => if vn.offset + vn.size <= bytes.len() {
                Ok(bytes)
            } else {
                Err(
                    ConcError::OutOfBounds {
                        space: vn.space,
                        offset: vn.offset,
                        size: vn.size,
                        len: bytes.len() as usize,
                    },
                )
            },
            Err(e) => Err(e),
        }
    }

    /// What reading a varnode gives.
    pub open spec fn load(self, vn: Varnode) -> Result<u64, ConcError> {
        if vn.size > 8 {
            Err(ConcError::WidthTooWide(vn.size))
        } else if vn.space == SpaceId::Const {
            Ok(low(vn.offset as int, vn.size))
        } else {
            match self.locate(vn) {
                Ok(bytes) => Ok(
                    le_value(bytes.subrange(vn.offset as int, vn.offset + vn.size)) as u64,
                ),
                Err(e) => Err(e),
            }
        }
    }

    /// The state behind a write of the low bytes of `v` to a varnode.
    pub open spec fn store(self, vn: Varnode, v: u64) -> Result<Slabs, ConcError> {
        if vn.size > 8 {
            Err(ConcError::WidthTooWide(vn.size))
        } else if vn.space == SpaceId::Const {
            Err(ConcError::ConstWrite)
        } else {
            match self.locate(vn) {
                Ok(bytes) => Ok(
                    self.with_slab(
                        vn.space,
                        overwrite(bytes, vn.offset as int, le_bytes(v as int, vn.size as nat)),
                    ),
                ),
                Err(e) => Err(e),
            }
        }
    }
}

/// The number that bytes write, least significant byte first.
pub open spec fn le_value(bytes: Seq<u8>) -> int
    decreases bytes.len(),
{
    if bytes.len() == 0 {
        0
    } else {
        bytes[0] + 256 * le_value(bytes.drop_first())
    }
}

/// The low `n` bytes of a number, least significant byte first.
pub open spec fn le_bytes(v: int, n: nat) -> Seq<u8>
    decreases n,
{
    if n == 0 {
        Seq::empty()
    } else {
        seq![(v % 256) as u8] + le_bytes(v / 256, (n - 1) as nat)
    }
}

/// `bytes` with `patch` written over it from position `at` on.
pub open spec fn overwrite(bytes: Seq<u8>, at: int, patch: Seq<u8>) -> Seq<u8> {
    Seq::new(
        bytes.len(),
        |i: int|
            if at <= i < at + patch.len() {
                patch[i - at]
            } else {
                bytes[i]
            },
    )
}

/// Operations with two operands and a value that depends on nothing else.
#[derive(Clone, Copy, PartialEq, Eq, Structural)]
pub enum BinaryAlu {
    Add,
    Sub,
    Mult,
    Div,
    SDiv,
    Rem,
    SRem,
    Carry,
    SCarry,
    SBorrow,
    And,
    Or,
    Xor,
    Left,
    Right,
    SRight,
    Equal,
    NotEqual,
    Less,
    SLess,
    LessEqual,
    SLessEqual,
    BoolAnd,
    BoolOr,
    BoolXor,
    Piece,
}

/// Operations with one operand and a value that depends on nothing else.
#[derive(Clone, Copy, PartialEq, Eq, Structural)]
pub enum UnaryAlu {
    Copy,
    Negate,
    Not,
    SExt,
    BoolNot,
    PopCount,
    Lzcount,
}

/// One for true, zero for false.
pub open spec fn flag(b: bool) -> int {
    if b {
        1
    } else {
        0
    }
}

impl BinaryAlu {
    /// Does the operation divide?
    pub open spec fn divides(self) -> bool {
        self == BinaryAlu::Div || self == BinaryAlu::SDiv || self == BinaryAlu::Rem || self
            == BinaryAlu::SRem
    }

    /// Can the operation be computed on operands of these widths? Sign
    /// extension from no bytes at all has no meaning, nor has shifting a whole
    /// word out of the way of a full-width low half.
    pub open spec fn admits(self, wa: u32, wb: u32) -> bool {
        match self {
            BinaryAlu::SDiv => wa > 0 && wb > 0,
            BinaryAlu::SRem => wa > 0 && wb > 0,
            BinaryAlu::SCarry => wa > 0,
            BinaryAlu::SBorrow => wa > 0,
            BinaryAlu::SRight => wa > 0,
            BinaryAlu::SLess => wa > 0,
            BinaryAlu::SLessEqual => wa > 0,
            BinaryAlu::Piece => wb < 8,
            _ => true,
        }
    }

    /// The value of the operation on operands `x` and `y` of `wa` and `wb`
    /// bytes; the divisor is not zero where the operation divides.
    pub open spec fn value(self, x: u64, y: u64, wa: u32, wb: u32) -> int {
        match self {
            BinaryAlu::Add => low(x + y, wa) as int,
            BinaryAlu::Sub => low(x - y, wa) as int,
            BinaryAlu::Mult => low(x * y, wa) as int,
            BinaryAlu::Div => x as int / y as int,
            BinaryAlu::SDiv => truncated_div(signed(x as int, wa), signed(y as int, wb)),
            BinaryAlu::Rem => x as int % y as int,
            BinaryAlu::SRem => truncated_rem(signed(x as int, wa), signed(y as int, wb)),
            BinaryAlu::Carry => flag(low(x + y, wa) < x),
            BinaryAlu::SCarry => flag(
                !fits_signed(signed(x as int, wa) + signed(y as int, wa), wa),
            ),
            BinaryAlu::SBorrow => flag(
                !fits_signed(signed(x as int, wa) - signed(y as int, wa), wa),
            ),
            BinaryAlu::And => (x & y) as int,
            BinaryAlu::Or => (x | y) as int,
            BinaryAlu::Xor => (x ^ y) as int,
            BinaryAlu::Left => if y >= 8 * wa {
                0
            } else {
                low((x << y) as int, wa) as int
            },
            BinaryAlu::Right => if y >= 8 * wa {
                0
            } else {
                (low(x as int, wa) >> y) as int
            },
            BinaryAlu::SRight => {
                let shift: u64 = if y < 8 * wa {
                    y
                } else {
                    (8 * wa - 1) as u64
                };
                low((signed(x as int, wa) as i64 >> shift) as int, wa) as int
            },
            BinaryAlu::Equal => flag(low(x as int, wa) == low(y as int, wa)),
            BinaryAlu::NotEqual => flag(low(x as int, wa) != low(y as int, wa)),
            BinaryAlu::Less => flag(low(x as int, wa) < low(y as int, wa)),
            BinaryAlu::SLess => flag(signed(x as int, wa) < signed(y as int, wa)),
            BinaryAlu::LessEqual => flag(low(x as int, wa) <= low(y as int, wa)),
            BinaryAlu::SLessEqual => flag(signed(x as int, wa) <= signed(y as int, wa)),
            BinaryAlu::BoolAnd => flag(x != 0 && y != 0),
            BinaryAlu::BoolOr => flag(x != 0 || y != 0),
            BinaryAlu::BoolXor => flag((x != 0) != (y != 0)),
            BinaryAlu::Piece => x * span(wb) + y,
        }
    }
}

/// Does a number fit a signed word of `size` bytes?
pub open spec fn fits_signed(v: int, size: u32) -> bool {
    -span(size) <= 2 * v < span(size)
}

impl UnaryAlu {
    /// Can the operation be computed on an operand of this width?
    pub open spec fn admits(self, w: u32) -> bool {
        self == UnaryAlu::SExt ==> w > 0
    }

    /// The value of the operation on an operand `x` of `w` bytes.
    pub open spec fn value(self, x: u64, w: u32) -> int {
        match self {
            UnaryAlu::Copy => x as int,
            UnaryAlu::Negate => low(-(x as int), w) as int,
            UnaryAlu::Not => low(-1 - x, w) as int,
            UnaryAlu::SExt => signed(x as int, w),
            UnaryAlu::BoolNot => flag(x == 0),
            UnaryAlu::PopCount => ones(x as nat) as int,
            UnaryAlu::Lzcount => u64_leading_zeros(x) - (64 - 8 * w),
        }
    }
}

/// The outcome of a step: what it returns, and the slabs behind it.
pub type Outcome = (Result<Control, ConcError>, Slabs);

/// Writes the low bytes of `v` to `dst` and falls through.
pub open spec fn finish(s: Slabs, dst: Varnode, v: int) -> Outcome {
    match s.store(dst, low(v, dst.size)) {
        Ok(after) => (Ok(Control::Next), after),
        Err(e) => (Err(e), s),
    }
}

pub open spec fn binary_outcome(
    s: Slabs,
    alu: BinaryAlu,
    dst: Varnode,
    a: Varnode,
    b: Varnode,
) -> Outcome {
    match (s.load(a), s.load(b)) {
        (Err(e), _) => (Err(e), s),
        (_, Err(e)) => (Err(e), s),
        (Ok(x), Ok(y)) => if alu.divides() && (if alu == BinaryAlu::SDiv || alu
            == BinaryAlu::SRem {
            signed(y as int, b.size) == 0
        } else {
            y == 0
        }) {
            (Err(ConcError::DivByZero), s)
        } else {
            finish(s, dst, alu.value(x, y, a.size, b.size))
        },
    }
}

pub open spec fn unary_outcome(s: Slabs, alu: UnaryAlu, dst: Varnode, src: Varnode) -> Outcome {
    match s.load(src) {
        Err(e) => (Err(e), s),
        Ok(x) => finish(s, dst, alu.value(x, src.size)),
    }
}

/// Can the operation be computed once its operands are read?
pub open spec fn binary_defined(s: Slabs, alu: BinaryAlu, a: Varnode, b: Varnode) -> bool {
    &&& s.load(a) is Ok && s.load(b) is Ok ==> alu.admits(a.size, b.size)
    &&& s.load(a) is Ok && (alu == BinaryAlu::SDiv || alu == BinaryAlu::SRem) ==> a.size > 0
}

/// The location that `size` bytes of `space` have at the address held in `addr`.
pub open spec fn at_address(space: SpaceId, addr: u64, size: u32) -> Varnode {
    Varnode { space, offset: addr, size, meta: None }
}

/// What one operation does to the slabs.
pub open spec fn step_outcome(s: Slabs, op: R2ILOp) -> Outcome {
    match op {
        R2ILOp::Copy { dst, src } => unary_outcome(s, UnaryAlu::Copy, dst, src),
        R2ILOp::Load { dst, space, addr } => match s.load(addr) {
            Err(e) => (Err(e), s),
            Ok(a) => match s.load(at_address(space, a, dst.size)) {
                Err(e) => (Err(e), s),
                Ok(v) => finish(s, dst, v as int),
            },
        },
        R2ILOp::Store { space, addr, val } => match (s.load(val), s.load(addr)) {
            (Err(e), _) => (Err(e), s),
            (_, Err(e)) => (Err(e), s),
            (Ok(v), Ok(a)) => finish(s, at_address(space, a, val.size), v as int),
        },
        R2ILOp::IntAdd { dst, a, b } => binary_outcome(s, BinaryAlu::Add, dst, a, b),
        R2ILOp::IntSub { dst, a, b } => binary_outcome(s, BinaryAlu::Sub, dst, a, b),
        R2ILOp::IntMult { dst, a, b } => binary_outcome(s, BinaryAlu::Mult, dst, a, b),
        R2ILOp::IntDiv { dst, a, b } => binary_outcome(s, BinaryAlu::Div, dst, a, b),
        R2ILOp::IntSDiv { dst, a, b } => binary_outcome(s, BinaryAlu::SDiv, dst, a, b),
        R2ILOp::IntRem { dst, a, b } => binary_outcome(s, BinaryAlu::Rem, dst, a, b),
        R2ILOp::IntSRem { dst, a, b } => binary_outcome(s, BinaryAlu::SRem, dst, a, b),
        R2ILOp::IntNegate { dst, src } => unary_outcome(s, UnaryAlu::Negate, dst, src),
        R2ILOp::IntCarry { dst, a, b } => binary_outcome(s, BinaryAlu::Carry, dst, a, b),
        R2ILOp::IntSCarry { dst, a, b } => binary_outcome(s, BinaryAlu::SCarry, dst, a, b),
        R2ILOp::IntSBorrow { dst, a, b } => binary_outcome(s, BinaryAlu::SBorrow, dst, a, b),
        R2ILOp::IntAnd { dst, a, b } => binary_outcome(s, BinaryAlu::And, dst, a, b),
        R2ILOp::IntOr { dst, a, b } => binary_outcome(s, BinaryAlu::Or, dst, a, b),
        R2ILOp::IntXor { dst, a, b } => binary_outcome(s, BinaryAlu::Xor, dst, a, b),
        R2ILOp::IntNot { dst, src } => unary_outcome(s, UnaryAlu::Not, dst, src),
        R2ILOp::IntLeft { dst, a, b } => binary_outcome(s, BinaryAlu::Left, dst, a, b),
        R2ILOp::IntRight { dst, a, b } => binary_outcome(s, BinaryAlu::Right, dst, a, b),
        R2ILOp::IntSRight { dst, a, b } => binary_outcome(s, BinaryAlu::SRight, dst, a, b),
        R2ILOp::IntEqual { dst, a, b } => binary_outcome(s, BinaryAlu::Equal, dst, a, b),
        R2ILOp::IntNotEqual { dst, a, b } => binary_outcome(s, BinaryAlu::NotEqual, dst, a, b),
        R2ILOp::IntLess { dst, a, b } => binary_outcome(s, BinaryAlu::Less, dst, a, b),
        R2ILOp::IntSLess { dst, a, b } => binary_outcome(s, BinaryAlu::SLess, dst, a, b),
        R2ILOp::IntLessEqual { dst, a, b } => binary_outcome(s, BinaryAlu::LessEqual, dst, a, b),
        R2ILOp::IntSLessEqual { dst, a, b } => binary_outcome(s, BinaryAlu::SLessEqual, dst, a, b),
        R2ILOp::IntZExt { dst, src } => unary_outcome(s, UnaryAlu::Copy, dst, src),
        R2ILOp::IntSExt { dst, src } => unary_outcome(s, UnaryAlu::SExt, dst, src),
        R2ILOp::BoolNot { dst, src } => unary_outcome(s, UnaryAlu::BoolNot, dst, src),
        R2ILOp::BoolAnd { dst, a, b } => binary_outcome(s, BinaryAlu::BoolAnd, dst, a, b),
        R2ILOp::BoolOr { dst, a, b } => binary_outcome(s, BinaryAlu::BoolOr, dst, a, b),
        R2ILOp::BoolXor { dst, a, b } => binary_outcome(s, BinaryAlu::BoolXor, dst, a, b),
        R2ILOp::Piece { dst, hi, lo } => binary_outcome(s, BinaryAlu::Piece, dst, hi, lo),
        R2ILOp::Subpiece { dst, src, offset } => if offset >= src.size {
            (Err(ConcError::SubpieceOutOfRange { offset, size: src.size }), s)
        } else {
            match s.load(src) {
                Err(e) => (Err(e), s),
                Ok(v) => finish(s, dst, v as int / span(offset)),
            }
        },
        R2ILOp::PopCount { dst, src } => unary_outcome(s, UnaryAlu::PopCount, dst, src),
        R2ILOp::Lzcount { dst, src } => unary_outcome(s, UnaryAlu::Lzcount, dst, src),
        R2ILOp::Branch { target } => (Ok(Control::Jump(target.offset)), s),
        R2ILOp::CBranch { target, cond } => match s.load(cond) {
            Err(e) => (Err(e), s),
            Ok(c) => if c != 0 {
                (Ok(Control::Jump(target.offset)), s)
            } else {
                (Ok(Control::Next), s)
            },
        },
        R2ILOp::Call { target } => (Ok(Control::Call(target.offset)), s),
        R2ILOp::BranchInd { target } => match s.load(target) {
            Err(e) => (Err(e), s),
            Ok(v) => (Ok(Control::Jump(v)), s),
        },
        R2ILOp::CallInd { target } => match s.load(target) {
            Err(e) => (Err(e), s),
            Ok(v) => (Ok(Control::Call(v)), s),
        },
        R2ILOp::Return { target } => match s.load(target) {
            Err(e) => (Err(e), s),
            Ok(v) => (Ok(Control::Return(v)), s),
        },
        R2ILOp::Nop => (Ok(Control::Next), s),
        _ => (Err(ConcError::Unsupported(unsupported_name(op))), s),
    }
}

/// The name under which an operation outside the concrete subset is refused.
pub open spec fn unsupported_name(op: R2ILOp) -> &'static str {
    match op {
        R2ILOp::Fence { .. } => "Fence",
        R2ILOp::LoadLinked { .. } => "LoadLinked",
        R2ILOp::StoreConditional { .. } => "StoreConditional",
        R2ILOp::AtomicCAS { .. } => "AtomicCAS",
        R2ILOp::LoadGuarded { .. } => "LoadGuarded",
        R2ILOp::StoreGuarded { .. } => "StoreGuarded",
        R2ILOp::FloatAdd { .. } => "FloatAdd",
        R2ILOp::FloatSub { .. } => "FloatSub",
        R2ILOp::FloatMult { .. } => "FloatMult",
        R2ILOp::FloatDiv { .. } => "FloatDiv",
        R2ILOp::FloatNeg { .. } => "FloatNeg",
        R2ILOp::FloatAbs { .. } => "FloatAbs",
        R2ILOp::FloatSqrt { .. } => "FloatSqrt",
        R2ILOp::FloatCeil { .. } => "FloatCeil",
        R2ILOp::FloatFloor { .. } => "FloatFloor",
        R2ILOp::FloatRound { .. } => "FloatRound",
        R2ILOp::FloatNaN { .. } => "FloatNaN",
        R2ILOp::FloatEqual { .. } => "FloatEqual",
        R2ILOp::FloatNotEqual { .. } => "FloatNotEqual",
        R2ILOp::FloatLess { .. } => "FloatLess",
        R2ILOp::FloatLessEqual { .. } => "FloatLessEqual",
        R2ILOp::Int2Float { .. } => "Int2Float",
        R2ILOp::Float2Int { .. } => "Float2Int",
        R2ILOp::FloatFloat { .. } => "FloatFloat",
        R2ILOp::Trunc { .. } => "Trunc",
        R2ILOp::CallOther { .. } => "CallOther",
        R2ILOp::Unimplemented => "Unimplemented",
        R2ILOp::CpuId { .. } => "CpuId",
        R2ILOp::Breakpoint => "Breakpoint",
        R2ILOp::Multiequal { .. } => "Multiequal",
        R2ILOp::Indirect { .. } => "Indirect",
        R2ILOp::PtrAdd { .. } => "PtrAdd",
        R2ILOp::PtrSub { .. } => "PtrSub",
        R2ILOp::SegmentOp { .. } => "SegmentOp",
        R2ILOp::New { .. } => "New",
        R2ILOp::Cast { .. } => "Cast",
        R2ILOp::Extract { .. } => "Extract",
        R2ILOp::Insert { .. } => "Insert",
        _ => "",
    }
}

/// The operands for which a step can be computed. A read that fails is
/// reported whatever the widths; only once the operands are there does a width
/// matter, and then only where sign extension or concatenation asks for one.
pub open spec fn step_defined(s: Slabs, op: R2ILOp) -> bool {
    match op {
        R2ILOp::IntSDiv { dst, a, b } => binary_defined(s, BinaryAlu::SDiv, a, b),
        R2ILOp::IntSRem { dst, a, b } => binary_defined(s, BinaryAlu::SRem, a, b),
        R2ILOp::IntSCarry { dst, a, b } => binary_defined(s, BinaryAlu::SCarry, a, b),
        R2ILOp::IntSBorrow { dst, a, b } => binary_defined(s, BinaryAlu::SBorrow, a, b),
        R2ILOp::IntSRight { dst, a, b } => binary_defined(s, BinaryAlu::SRight, a, b),
        R2ILOp::IntSLess { dst, a, b } => binary_defined(s, BinaryAlu::SLess, a, b),
        R2ILOp::IntSLessEqual { dst, a, b } => binary_defined(s, BinaryAlu::SLessEqual, a, b),
        R2ILOp::IntSExt { dst, src } => s.load(src) is Ok ==> src.size > 0,
        R2ILOp::Piece { dst, hi, lo } => binary_defined(s, BinaryAlu::Piece, hi, lo),
        _ => true,
    }
}

/// Concrete machine state: one flat slab per address space.
///
/// `register` and `ram` are borrowed: the state lives with the caller. `unique`
/// is owned scratch. Custom slabs are registered one by one; an unregistered
/// one is refused, never conjured up.
pub struct SlabState<'a> {
    pub register: &'a mut [u8],
    pub ram: &'a mut [u8],
    pub unique: Vec<u8>,
    pub custom: Vec<(u32, &'a mut [u8])>,
}

/// The position of the first custom slab with an id, from `i` on.
pub open spec fn custom_index(custom: Seq<(u32, &mut [u8])>, id: u32, i: int) -> int
    decreases custom.len() - i,
{
    if i < 0 || i >= custom.len() {
        custom.len() as int
    } else if custom[i].0 == id {
        i
    } else {
        custom_index(custom, id, i + 1)
    }
}

/// The custom slabs by id.
pub open spec fn custom_slabs(custom: Seq<(u32, &mut [u8])>) -> Map<u32, Seq<u8>> {
    Map::new(
        |id: u32| custom_index(custom, id, 0) < custom.len(),
        |id: u32| custom[custom_index(custom, id, 0)].1@,
    )
}

proof fn lemma_custom_index(custom: Seq<(u32, &mut [u8])>, id: u32, i: int)
    requires
        0 <= i <= custom.len(),
    ensures
        i <= custom_index(custom, id, i) <= custom.len(),
        custom_index(custom, id, i) < custom.len() ==> custom[custom_index(custom, id, i)].0 == id,
        forall|j: int|
            i <= j < custom_index(custom, id, i) ==> (#[trigger] custom[j]).0 != id,
    decreases custom.len() - i,
{
    if i < custom.len() && custom[i].0 != id {
        lemma_custom_index(custom, id, i + 1);
    }
}

/// The first position with an id is the one before which no other has it.
proof fn lemma_custom_index_is(custom: Seq<(u32, &mut [u8])>, id: u32, k: int)
    requires
        0 <= k <= custom.len(),
        k < custom.len() ==> custom[k].0 == id,
        forall|j: int| 0 <= j < k ==> (#[trigger] custom[j]).0 != id,
    ensures
        custom_index(custom, id, 0) == k,
{
    lemma_custom_index(custom, id, 0);
    let f = custom_index(custom, id, 0);
    if f < k {
        assert(custom[f].0 != id);
    }
    if k < f {
        assert(custom[k].0 != id);
    }
}

/// Bytes of a slab, from `at` on.
fn load_bytes(bytes: &[u8], at: usize, size: u32) -> (r: u64)
    requires
        at + size <= bytes@.len(),
        size <= 8,
    ensures
        r == le_value(bytes@.subrange(at as int, at + size)),
        r < span(size),
{
    let mut n: u32 = size;
    let mut v: u64 = 0;
    while n > 0
        invariant
            n <= size <= 8,
            at + size <= bytes.len(),
            v == le_value(bytes@.subrange(at + n, at + size)),
            v < span((size - n) as u32),
        decreases n,
    {
        let ghost tail = bytes@.subrange(at + n, at + size);
        let ghost more = bytes@.subrange(at + n - 1, at + size);
        assert(more.drop_first() =~= tail);
        n = n - 1;
        v = v * 256 + bytes[at + n as usize] as u64;
    }
    v
}

/// Writes the low bytes of `v` over a slab, from `at` on.
fn store_bytes(bytes: &mut [u8], at: usize, size: u32, v: u64)
    requires
        at + size <= old(bytes)@.len(),
        size <= 8,
    ensures
        final(bytes)@ == overwrite(old(bytes)@, at as int, le_bytes(v as int, size as nat)),
{
    let ghost before = bytes@;
    let ghost patch = le_bytes(v as int, size as nat);
    let mut rest: u64 = v;
    let mut n: u32 = 0;
    proof {
        lemma_le_bytes_len(v as int, size as nat);
        assert(patch.skip(0) =~= patch);
    }
    while n < size
        invariant
            n <= size <= 8,
            at + size <= bytes.len(),
            bytes@.len() == before.len(),
            patch.len() == size,
            patch.skip(n as int) == le_bytes(rest as int, (size - n) as nat),
            forall|i: int|
                0 <= i < bytes@.len() ==> (#[trigger] bytes@[i]) == if at <= i < at + n {
                    patch[i - at]
                } else {
                    before[i]
                },
        decreases size - n,
    {
        let b = (rest % 256) as u8;
        proof {
            assert(patch.skip(n as int)[0] == patch[n as int]);
            assert(le_bytes(rest as int, (size - n) as nat)[0] == b);
            assert(patch.skip(n + 1) =~= patch.skip(n as int).skip(1));
            assert(le_bytes(rest as int, (size - n) as nat).skip(1) =~= le_bytes(
                rest as int / 256,
                (size - n - 1) as nat,
            ));
        }
        bytes[at + n as usize] = b;
        rest = rest / 256;
        n = n + 1;
    }
    assert(bytes@ =~= overwrite(before, at as int, patch));
}

proof fn lemma_le_bytes_len(v: int, n: nat)
    ensures
        le_bytes(v, n).len() == n,
    decreases n,
{
    if n > 0 {
        lemma_le_bytes_len(v / 256, (n - 1) as nat);
    }
}

impl<'a> SlabState<'a> {
    /// The contents of every slab.
    pub open spec fn view(&self) -> Slabs {
        Slabs {
            register: self.register@,
            ram: self.ram@,
            unique: self.unique@,
            custom: custom_slabs(self.custom@),
        }
    }

    /// Borrow the machine state, with `unique_len` zero bytes of scratch.
    pub fn new(register: &'a mut [u8], ram: &'a mut [u8], unique_len: usize) -> (r: Self)
        ensures
            r@.register == old(register)@,
            r@.ram == old(ram)@,
            r@.unique == Seq::new(unique_len as nat, |i: int| 0u8),
            r@.custom == Map::<u32, Seq<u8>>::empty(),
            r.custom@.len() == 0,
            final(r.register)@ == final(register)@,
            final(r.ram)@ == final(ram)@,
    {
        let unique: Vec<u8> = vec![0u8; unique_len];
        let s = SlabState { register, ram, unique, custom: Vec::new() };
        assert(s@.unique =~= Seq::new(unique_len as nat, |i: int| 0u8));
        assert(s@.custom =~= Map::<u32, Seq<u8>>::empty());
        s
    }

    /// Register the slab of a custom space. The last registration of an id wins.
    pub fn with_custom(self, id: u32, slab: &'a mut [u8]) -> (r: Self)
        ensures
            r@ == (Slabs { custom: self@.custom.insert(id, old(slab)@), ..self@ }),
            final(r.register)@ == final(self.register)@,
            final(r.ram)@ == final(self.ram)@,
            r.custom@.len() > 0,
            r.custom@.last().0 == id,
            r.custom@.last().1@ == old(slab)@,
            final(r.custom@.last().1)@ == final(slab)@,
            forall|j: int| 0 <= j < r.custom@.len() - 1 ==> (#[trigger] r.custom@[j]).0 != id,
            (forall|i: int, j: int|
                0 <= i < j < self.custom@.len() ==> (#[trigger] self.custom@[i]).0 != (
                #[trigger] self.custom@[j]).0) ==> forall|i: int, j: int|
                0 <= i < j < r.custom@.len() ==> (#[trigger] r.custom@[i]).0 != (
                #[trigger] r.custom@[j]).0,
            forall|j: int|
                0 <= j < r.custom@.len() - 1 ==> self.custom@.contains(#[trigger] r.custom@[j]),
            forall|i: int|
                0 <= i < self.custom@.len() && (#[trigger] self.custom@[i]).0 != id
                    ==> r.custom@.contains(self.custom@[i]),
            forall|i: int|
                0 <= i < self.custom@.len() && (#[trigger] self.custom@[i]).0 == id ==> final(self.custom@[i].1)@
                    == self.custom@[i].1@,
    {
        let mut custom = self.custom;
        let ghost start = custom@;
        let ghost mut from: Seq<int> = Seq::new(start.len(), |j: int| j);
        assert forall|k: int| 0 <= k < start.len() implies from.contains(k) by {
            assert(from[k] == k);
        }
        let mut i: usize = 0;
        while i < custom.len()
            invariant
                i <= custom@.len(),
                custom@.len() == from.len(),
                forall|j: int|
                    0 <= j < from.len() ==> 0 <= (#[trigger] from[j]) < start.len() && custom@[j]
                        == start[from[j]],
                forall|j: int, k: int|
                    0 <= j < k < from.len() ==> (#[trigger] from[j]) < (#[trigger] from[k]),
                forall|k: int|
                    0 <= k < start.len() && (#[trigger] start[k]).0 != id ==> from.contains(k),
                forall|k: int|
                    0 <= k < start.len() && !from.contains(k) ==> final((#[trigger] start[k]).1)@
                        == start[k].1@,
                forall|j: int| 0 <= j < i ==> (#[trigger] custom@[j]).0 != id,
                forall|other: u32|
                    other != id ==> #[trigger] custom_slabs(custom@).dom().contains(other)
                        == custom_slabs(start).dom().contains(other) && (
                    custom_slabs(start).dom().contains(other) ==> custom_slabs(custom@)[other]
                        == custom_slabs(start)[other]),
            decreases custom@.len() - i,
        {
            if custom[i].0 == id {
                let ghost had = custom@;
                let ghost was = from;
                let gone = custom.remove(i);
                proof {
                    from = was.remove(i as int);
                    assert(gone == start[was[i as int]]);
                    assert(final(gone.1)@ == gone.1@);
                    assert forall|k: int| was.contains(k) && k != was[i as int] implies from.contains(
                        k,
                    ) by {
                        let j = choose|j: int| 0 <= j < was.len() && was[j] == k;
                        let at = if j < i {
                            j
                        } else {
                            j - 1
                        };
                        assert(from[at] == k);
                    }
                    assert forall|j: int|
                        0 <= j < from.len() implies 0 <= (#[trigger] from[j]) < start.len()
                        && custom@[j] == start[from[j]] by {
                        if j < i {
                            assert(from[j] == was[j]);
                            assert(custom@[j] == had[j]);
                        } else {
                            assert(from[j] == was[j + 1]);
                            assert(custom@[j] == had[j + 1]);
                        }
                    }
                    assert forall|j: int, k: int| 0 <= j < k < from.len() implies (
                    #[trigger] from[j]) < (#[trigger] from[k]) by {
                        let a = if j < i {
                            j
                        } else {
                            j + 1
                        };
                        let b = if k < i {
                            k
                        } else {
                            k + 1
                        };
                        assert(was[a] < was[b]);
                    }
                    assert forall|other: u32| other != id implies #[trigger] custom_slabs(
                        custom@,
                    ).dom().contains(other) == custom_slabs(had).dom().contains(other) && (
                    custom_slabs(had).dom().contains(other) ==> custom_slabs(custom@)[other]
                        == custom_slabs(had)[other]) by {
                        lemma_custom_index(had, other, 0);
                        let f = custom_index(had, other, 0);
                        let k = if f > i {
                            f - 1
                        } else {
                            f
                        };
                        assert forall|j: int| 0 <= j < k implies (#[trigger] custom@[j]).0
                            != other by {
                            if j < i {
                                assert(had[j].0 != other);
                            } else {
                                assert(had[j + 1].0 != other);
                            }
                        }
                        lemma_custom_index_is(custom@, other, k);
                    }
                }
            } else {
                i = i + 1;
            }
        }
        let ghost kept = custom@;
        let ghost bytes = slab@;
        custom.push((id, slab));
        proof {
            assert forall|other: u32| other != id implies #[trigger] custom_slabs(
                custom@,
            ).dom().contains(other) == custom_slabs(kept).dom().contains(other) && (custom_slabs(
                kept,
            ).dom().contains(other) ==> custom_slabs(custom@)[other] == custom_slabs(
                kept,
            )[other]) by {
                lemma_custom_index(kept, other, 0);
                let f = custom_index(kept, other, 0);
                let k = if f == kept.len() {
                    f + 1
                } else {
                    f
                };
                assert forall|j: int| 0 <= j < k implies (#[trigger] custom@[j]).0 != other by {
                    if j < kept.len() {
                        assert(kept[j].0 != other);
                    }
                }
                lemma_custom_index_is(custom@, other, k);
            }
            assert forall|j: int| 0 <= j < kept.len() implies (#[trigger] custom@[j]).0
                != id by {
                assert(kept[j].0 != id);
            }
            lemma_custom_index_is(custom@, id, kept.len() as int);
            assert(custom_slabs(custom@) =~= custom_slabs(start).insert(id, bytes));
            if forall|i: int, j: int|
                0 <= i < j < start.len() ==> (#[trigger] start[i]).0 != (#[trigger] start[j]).0 {
                assert forall|i: int, j: int| 0 <= i < j < custom@.len() implies (
                #[trigger] custom@[i]).0 != (#[trigger] custom@[j]).0 by {
                    assert(custom@[i] == kept[i]);
                    assert(kept[i] == start[from[i]]);
                    if j < kept.len() {
                        assert(custom@[j] == kept[j]);
                        assert(kept[j] == start[from[j]]);
                        assert(from[i] < from[j]);
                    }
                }
            }
            assert forall|j: int| 0 <= j < custom@.len() - 1 implies start.contains(
                #[trigger] custom@[j],
            ) by {
                assert(custom@[j] == kept[j]);
                assert(start[from[j]] == kept[j]);
            }
            assert forall|k: int| 0 <= k < start.len() && (#[trigger] start[k]).0 != id implies
                custom@.contains(start[k]) by {
                let j = choose|j: int| 0 <= j < from.len() && from[j] == k;
                assert(custom@[j] == kept[j]);
            }
            assert forall|k: int| 0 <= k < start.len() && (#[trigger] start[k]).0 == id implies
                !from.contains(k) by {
                if from.contains(k) {
                    let j = choose|j: int| 0 <= j < from.len() && from[j] == k;
                    assert(kept[j].0 != id);
                }
            }
        }
        SlabState { register: self.register, ram: self.ram, unique: self.unique, custom }
    }

    /// The position of the slab of a custom space.
    fn find_custom(&self, id: u32) -> (r: Option<usize>)
        ensures
            match r {
                Some(i) => i < self.custom@.len() && i == custom_index(self.custom@, id, 0),
                None => custom_index(self.custom@, id, 0) == self.custom@.len(),
            },
    {
        let mut i: usize = 0;
        while i < self.custom.len()
            invariant
                i <= self.custom@.len(),
                custom_index(self.custom@, id, 0) == custom_index(self.custom@, id, i as int),
            decreases self.custom@.len() - i,
        {
            if self.custom[i].0 == id {
                return Some(i);
            }
            i = i + 1;
        }
        None
    }

    /// The slab of a space; the constant space has none.
    fn slab(&self, space: SpaceId) -> (r: Result<&[u8], ConcError>)
        ensures
            match r {
                Ok(bytes) => self@.slab(space) == Ok::<Seq<u8>, ConcError>(bytes@),
                Err(e) => self@.slab(space) == Err::<Seq<u8>, ConcError>(e),
            },
    {
        match space {
            SpaceId::Register => Ok(&*self.register),
            SpaceId::Ram => Ok(&*self.ram),
            SpaceId::Unique => Ok(self.unique.as_slice()),
            SpaceId::Custom(n) => match self.find_custom(n) {
                Some(i) => Ok(&*self.custom[i].1),
                None => Err(ConcError::UnknownSpace(n)),
            },
            SpaceId::Const => Err(ConcError::ConstWrite),
            SpaceId::Unresolved => Err(ConcError::Unsupported("Unresolved")),
        }
    }

    /// Read a varnode as a little-endian number. A constant is its own offset,
    /// truncated to the varnode's size.
    pub fn read(&self, vn: &Varnode) -> (r: Result<u64, ConcError>)
        ensures
            r == self@.load(*vn),
            r matches Ok(v) ==> v < span(vn.size),
    {
        if vn.size > 8 {
            return Err(ConcError::WidthTooWide(vn.size));
        }
        if vn.space.is_const() {
            return Ok(mask(vn.offset, vn.size));
        }
        match self.slab(vn.space) {
            Err(e) => Err(e),
            Ok(bytes) => {
                let len: usize = bytes.len();
                if vn.offset as u128 + vn.size as u128 > len as u128 {
                    return Err(
                        ConcError::OutOfBounds {
                            space: vn.space,
                            offset: vn.offset,
                            size: vn.size,
                            len,
                        },
                    );
                }
                Ok(load_bytes(bytes, vn.offset as usize, vn.size))
            },
        }
    }

    /// Write the low `vn.size` bytes of `v` at the varnode, least significant
    /// byte first.
    pub fn write(&mut self, vn: &Varnode, v: u64) -> (r: Result<(), ConcError>)
        ensures
            match old(self)@.store(*vn, v) {
                Ok(after) => r == Ok::<(), ConcError>(()) && final(self)@ == after,
                Err(e) => r == Err::<(), ConcError>(e) && final(self)@ == old(self)@,
            },
            final(final(self).register)@ == final(old(self).register)@,
            final(final(self).ram)@ == final(old(self).ram)@,
            final(self).custom@.len() == old(self).custom@.len(),
            forall|i: int|
                0 <= i < old(self).custom@.len() ==> (#[trigger] final(self).custom@[i]).0
                    == old(self).custom@[i].0 && final(final(self).custom@[i].1)@
                    == final(old(self).custom@[i].1)@,
    {
        if vn.size > 8 {
            return Err(ConcError::WidthTooWide(vn.size));
        }
        if vn.space.is_const() {
            return Err(ConcError::ConstWrite);
        }
        let len: usize = match self.slab(vn.space) {
            Err(e) => {
                return Err(e);
            },
            Ok(bytes) => bytes.len(),
        };
        if vn.offset as u128 + vn.size as u128 > len as u128 {
            return Err(
                ConcError::OutOfBounds { space: vn.space, offset: vn.offset, size: vn.size, len },
            );
        }
        let at: usize = vn.offset as usize;
        match vn.space {
            SpaceId::Register => store_bytes(self.register, at, vn.size, v),
            SpaceId::Ram => store_bytes(self.ram, at, vn.size, v),
            SpaceId::Unique => store_bytes(self.unique.as_mut_slice(), at, vn.size, v),
            SpaceId::Custom(n) => match self.find_custom(n) {
                Some(i) => {
                    let ghost before = self.custom@;
                    store_bytes(self.custom[i].1, at, vn.size, v);
                    proof {
                        let after = self.custom@;
                        assert forall|id: u32| custom_index(after, id, 0) == custom_index(
                            before,
                            id,
                            0,
                        ) by {
                            lemma_custom_index(before, id, 0);
                            let f = custom_index(before, id, 0);
                            assert forall|j: int| 0 <= j < f implies (#[trigger] after[j]).0
                                != id by {
                                assert(before[j].0 != id);
                            }
                            lemma_custom_index_is(after, id, f);
                        }
                        let patched = overwrite(
                            before[i as int].1@,
                            at as int,
                            le_bytes(v as int, vn.size as nat),
                        );
                        let m = custom_slabs(after);
                        let expected = custom_slabs(before).insert(n, patched);
                        assert forall|id: u32| m.dom().contains(id) == expected.dom().contains(id)
                            && (m.dom().contains(id) ==> m[id] == expected[id]) by {
                            lemma_custom_index(before, id, 0);
                            lemma_custom_index(before, n, 0);
                            let f = custom_index(before, id, 0);
                            assert(custom_index(after, id, 0) == f);
                            if f < before.len() && f != i {
                                assert(after[f] == before[f]);
                            }
                        }
                        assert(m =~= expected);
                    }
                },
                None => {},
            },
            SpaceId::Const => {},
            SpaceId::Unresolved => {},
        }
        Ok(())
    }
}

proof fn lemma_leading_zeros(x: u64, k: nat)
    requires
        k <= 64,
        x < vstd::arithmetic::power2::pow2(k),
    ensures
        u64_leading_zeros(x) >= 64 - k,
    decreases k,
{
    reveal(u64_leading_zeros);
    if x != 0 {
        if k == 0 {
            vstd::arithmetic::power2::lemma2_to64();
        } else {
            vstd::arithmetic::power2::lemma_pow2_unfold(k);
            lemma_leading_zeros(x / 2, (k - 1) as nat);
        }
    }
}

proof fn lemma_span_is_power(size: u32)
    requires
        size <= 8,
    ensures
        span(size) == vstd::arithmetic::power2::pow2((8 * size) as nat),
{
    vstd::arithmetic::power2::lemma2_to64();
    vstd::arithmetic::power2::lemma2_to64_rest();
}

/// Does a number fit a signed word of `size` bytes?
fn in_signed_range(v: i128, size: u32) -> (r: bool)
    requires
        0 < size <= 8,
    ensures
        r == fits_signed(v as int, size),
{
    let half: i128 = if size == 8 {
        0x8000_0000_0000_0000
    } else {
        (span_of(size) / 2) as i128
    };
    -half <= v && v < half
}

fn as_flag(b: bool) -> (r: u64)
    ensures
        r == flag(b),
{
    if b {
        1
    } else {
        0
    }
}

/// The low `w` bytes of a sum.
fn sum_low(x: u64, y: u64, w: u32) -> (r: u64)
    requires
        w <= 8,
    ensures
        r == low(x + y, w),
{
    proof {
        low_of_low(x + y, 8, w);
    }
    mask(x.wrapping_add(y), w)
}

/// The low `w` bytes of a difference.
fn difference_low(x: u64, y: u64, w: u32) -> (r: u64)
    requires
        w <= 8,
    ensures
        r == low(x - y, w),
{
    proof {
        low_of_low(x - y, 8, w);
    }
    mask(x.wrapping_sub(y), w)
}

/// The low `w` bytes of a product.
fn product_low(x: u64, y: u64, w: u32) -> (r: u64)
    requires
        w <= 8,
    ensures
        r == low(x * y, w),
{
    proof {
        low_of_low(x * y, 8, w);
    }
    mask(x.wrapping_mul(y), w)
}

/// The eight-byte two's complement of a quotient rounded toward zero.
fn signed_quotient(sx: i64, sy: i64) -> (r: u64)
    requires
        sy != 0,
    ensures
        r == low(truncated_div(sx as int, sy as int), 8),
{
    let ax = magnitude(sx);
    let ay = magnitude(sy);
    proof {
        assert(0 <= ax as int / ay as int <= ax) by (nonlinear_arith)
            requires
                ay > 0,
        ;
    }
    let q: u64 = ax / ay;
    if (sx < 0) == (sy < 0) {
        q
    } else {
        difference_low(0, q, 8)
    }
}

/// The eight-byte two's complement of the remainder that goes with it.
fn signed_remainder(sx: i64, sy: i64) -> (r: u64)
    requires
        sy != 0,
    ensures
        r == low(truncated_rem(sx as int, sy as int), 8),
{
    let ax = magnitude(sx);
    let ay = magnitude(sy);
    proof {
        assert(0 <= ax as int % ay as int <= ax) by (nonlinear_arith)
            requires
                ay > 0,
        ;
    }
    let m: u64 = ax % ay;
    assert(m as int == crate::conc::word::abs(sx as int) % crate::conc::word::abs(sy as int));
    assert(truncated_rem(sx as int, sy as int) == if sx < 0 {
        -(m as int)
    } else {
        m as int
    });
    if sx < 0 {
        difference_low(0, m, 8)
    } else {
        m
    }
}

/// Two words side by side: `x` above the `wb` bytes of `y`.
fn side_by_side(x: u64, y: u64, wb: u32) -> (r: u64)
    requires
        wb < 8,
    ensures
        r == low(x * span(wb) + y, 8),
{
    let p = span_of(wb);
    let high = product_low(x, p, 8);
    proof {
        let whole = x as int * span(wb);
        assert(whole == x * p);
        vstd::arithmetic::div_mod::lemma_add_mod_noop(whole, y as int, span(8));
        assert(y as int % span(8) == y as int);
        assert(high as int == whole % span(8));
    }
    sum_low(high, y, 8)
}

/// An arithmetic right shift within a word of `w` bytes.
fn signed_shift(sx: i64, y: u64, w: u32) -> (r: u64)
    requires
        0 < w <= 8,
    ensures
        ({
            let shift: u64 = if y < 8 * w {
                y
            } else {
                (8 * w - 1) as u64
            };
            r == low((sx >> shift) as int, w)
        }),
{
    let shift: u64 = if y < (8 * w) as u64 {
        y
    } else {
        (8 * w - 1) as u64
    };
    let z: i64 = sx >> shift;
    proof {
        low_of_low(z as int, 8, w);
    }
    mask(from_signed(z), w)
}

impl BinaryAlu {
    /// The value of the operation, in eight bytes.
    fn compute(self, x: u64, y: u64, wa: u32, wb: u32) -> (r: u64)
        requires
            wa <= 8,
            wb <= 8,
            x < span(wa),
            y < span(wb),
            self.admits(wa, wb),
            self == BinaryAlu::Div || self == BinaryAlu::Rem ==> y != 0,
            self == BinaryAlu::SDiv || self == BinaryAlu::SRem ==> signed(y as int, wb) != 0,
        ensures
            r == low(self.value(x, y, wa, wb), 8),
    {
        match self {
            BinaryAlu::Add => sum_low(x, y, wa),
            BinaryAlu::Sub => difference_low(x, y, wa),
            BinaryAlu::Mult => product_low(x, y, wa),
            BinaryAlu::Div => {
                proof {
                    assert(x as int / y as int <= x) by (nonlinear_arith)
                        requires
                            y > 0,
                    ;
                }
                x / y
            },
            BinaryAlu::SDiv => signed_quotient(sext(x, wa), sext(y, wb)),
            BinaryAlu::Rem => x % y,
            BinaryAlu::SRem => signed_remainder(sext(x, wa), sext(y, wb)),
            BinaryAlu::Carry => as_flag(sum_low(x, y, wa) < x),
            BinaryAlu::SCarry => {
                let sum: i128 = sext(x, wa) as i128 + sext(y, wa) as i128;
                as_flag(!in_signed_range(sum, wa))
            },
            BinaryAlu::SBorrow => {
                let diff: i128 = sext(x, wa) as i128 - sext(y, wa) as i128;
                as_flag(!in_signed_range(diff, wa))
            },
            BinaryAlu::And => x & y,
            BinaryAlu::Or => x | y,
            BinaryAlu::Xor => x ^ y,
            BinaryAlu::Left => if y >= (8 * wa) as u64 {
                0
            } else {
                mask(x << y, wa)
            },
            BinaryAlu::Right => if y >= (8 * wa) as u64 {
                0
            } else {
                mask(x, wa) >> y
            },
            BinaryAlu::SRight => signed_shift(sext(x, wa), y, wa),
            BinaryAlu::Equal => as_flag(mask(x, wa) == mask(y, wa)),
            BinaryAlu::NotEqual => as_flag(mask(x, wa) != mask(y, wa)),
            BinaryAlu::Less => as_flag(mask(x, wa) < mask(y, wa)),
            BinaryAlu::SLess => as_flag(sext(x, wa) < sext(y, wa)),
            BinaryAlu::LessEqual => as_flag(mask(x, wa) <= mask(y, wa)),
            BinaryAlu::SLessEqual => as_flag(sext(x, wa) <= sext(y, wa)),
            BinaryAlu::BoolAnd => as_flag(x != 0 && y != 0),
            BinaryAlu::BoolOr => as_flag(x != 0 || y != 0),
            BinaryAlu::BoolXor => as_flag((x != 0) != (y != 0)),
            BinaryAlu::Piece => side_by_side(x, y, wb),
        }
    }
}

impl UnaryAlu {
    /// The value of the operation, in eight bytes.
    fn compute(self, x: u64, w: u32) -> (r: u64)
        requires
            w <= 8,
            x < span(w),
            self.admits(w),
        ensures
            r == low(self.value(x, w), 8),
    {
        match self {
            UnaryAlu::Copy => x,
            UnaryAlu::Negate => {
                proof {
                    low_of_low(-(x as int), 8, w);
                }
                mask(0u64.wrapping_sub(x), w)
            },
            UnaryAlu::Not => {
                proof {
                    low_of_low(-1 - x, 8, w);
                }
                mask(u64::MAX - x, w)
            },
            UnaryAlu::SExt => from_signed(sext(x, w)),
            UnaryAlu::BoolNot => as_flag(x == 0),
            UnaryAlu::PopCount => count_ones(x),
            UnaryAlu::Lzcount => {
                proof {
                    lemma_span_is_power(w);
                    lemma_leading_zeros(x, (8 * w) as nat);
                    vstd::std_specs::bits::axiom_u64_leading_zeros(x);
                }
                (x.leading_zeros() - (64 - 8 * w)) as u64
            },
        }
    }
}

impl<'a> SlabState<'a> {
    /// Writes the low bytes of a result and falls through.
    fn finish(&mut self, dst: &Varnode, v: u64, Ghost(exact): Ghost<int>) -> (r: Result<
        Control,
        ConcError,
    >)
        requires
            v == low(exact, 8),
        ensures
            (r, final(self)@) == finish(old(self)@, *dst, exact),
            final(final(self).register)@ == final(old(self).register)@,
            final(final(self).ram)@ == final(old(self).ram)@,
            final(self).custom@.len() == old(self).custom@.len(),
            forall|i: int|
                0 <= i < old(self).custom@.len() ==> (#[trigger] final(self).custom@[i]).0
                    == old(self).custom@[i].0 && final(final(self).custom@[i].1)@
                    == final(old(self).custom@[i].1)@,
    {
        proof {
            if dst.size <= 8 {
                low_of_low(exact, 8, dst.size);
            }
        }
        match self.write(dst, mask(v, dst.size)) {
            Ok(_) => Ok(Control::Next),
            Err(e) => Err(e),
        }
    }

    fn binary(&mut self, alu: BinaryAlu, dst: &Varnode, a: &Varnode, b: &Varnode) -> (r: Result<
        Control,
        ConcError,
    >)
        requires
            binary_defined(old(self)@, alu, *a, *b),
        ensures
            (r, final(self)@) == binary_outcome(old(self)@, alu, *dst, *a, *b),
            final(final(self).register)@ == final(old(self).register)@,
            final(final(self).ram)@ == final(old(self).ram)@,
            final(self).custom@.len() == old(self).custom@.len(),
            forall|i: int|
                0 <= i < old(self).custom@.len() ==> (#[trigger] final(self).custom@[i]).0
                    == old(self).custom@[i].0 && final(final(self).custom@[i].1)@
                    == final(old(self).custom@[i].1)@,
    {
        let x: u64 = match self.read(a) {
            Ok(x) => x,
            Err(e) => {
                return Err(e);
            },
        };
        let y: u64 = match self.read(b) {
            Ok(y) => y,
            Err(e) => {
                return Err(e);
            },
        };
        let zero = match alu {
            BinaryAlu::Div | BinaryAlu::Rem => y == 0,
            BinaryAlu::SDiv | BinaryAlu::SRem => sext(y, b.size) == 0,
            _ => false,
        };
        if zero {
            return Err(ConcError::DivByZero);
        }
        let v = alu.compute(x, y, a.size, b.size);
        self.finish(dst, v, Ghost(alu.value(x, y, a.size, b.size)))
    }

    fn unary(&mut self, alu: UnaryAlu, dst: &Varnode, src: &Varnode) -> (r: Result<
        Control,
        ConcError,
    >)
        requires
            old(self)@.load(*src) is Ok ==> alu.admits(src.size),
        ensures
            (r, final(self)@) == unary_outcome(old(self)@, alu, *dst, *src),
            final(final(self).register)@ == final(old(self).register)@,
            final(final(self).ram)@ == final(old(self).ram)@,
            final(self).custom@.len() == old(self).custom@.len(),
            forall|i: int|
                0 <= i < old(self).custom@.len() ==> (#[trigger] final(self).custom@[i]).0
                    == old(self).custom@[i].0 && final(final(self).custom@[i].1)@
                    == final(old(self).custom@[i].1)@,
    {
        match self.read(src) {
            Ok(x) => {
                let v = alu.compute(x, src.size);
                self.finish(dst, v, Ghost(alu.value(x, src.size)))
            },
            Err(e) => Err(e),
        }
    }

    /// The location that `size` bytes of `space` have at the address held in `addr`.
    fn deref(&self, space: SpaceId, addr: &Varnode, size: u32) -> (r: Result<Varnode, ConcError>)
        ensures
            match self@.load(*addr) {
                Ok(a) => r == Ok::<Varnode, ConcError>(at_address(space, a, size)),
                Err(e) => r == Err::<Varnode, ConcError>(e),
            },
    {
        match self.read(addr) {
            Ok(a) => Ok(Varnode::new(space, a, size)),
            Err(e) => Err(e),
        }
    }

    /// Execute one operation. Sequencing is the caller's.
    ///
    /// Direct targets are addresses; indirect targets are read. A refused
    /// operation leaves every slab as it was.
    pub fn step(&mut self, op: &R2ILOp) -> (r: Result<Control, ConcError>)
        requires
            step_defined(old(self)@, *op),
        ensures
            (r, final(self)@) == step_outcome(old(self)@, *op),
            final(final(self).register)@ == final(old(self).register)@,
            final(final(self).ram)@ == final(old(self).ram)@,
            final(self).custom@.len() == old(self).custom@.len(),
            forall|i: int|
                0 <= i < old(self).custom@.len() ==> (#[trigger] final(self).custom@[i]).0
                    == old(self).custom@[i].0 && final(final(self).custom@[i].1)@
                    == final(old(self).custom@[i].1)@,
    {
        match op {
            R2ILOp::Copy { dst, src } => self.unary(UnaryAlu::Copy, dst, src),
            R2ILOp::Load { dst, space, addr } => {
                let at = match self.deref(*space, addr, dst.size) {
                    Ok(at) => at,
                    Err(e) => {
                        return Err(e);
                    },
                };
                let v: u64 = match self.read(&at) {
                    Ok(v) => v,
                    Err(e) => {
                        return Err(e);
                    },
                };
                self.finish(dst, v, Ghost(v as int))
            },
            R2ILOp::Store { space, addr, val } => {
                let v: u64 = match self.read(val) {
                    Ok(v) => v,
                    Err(e) => {
                        return Err(e);
                    },
                };
                let at = match self.deref(*space, addr, val.size) {
                    Ok(at) => at,
                    Err(e) => {
                        return Err(e);
                    },
                };
                self.finish(&at, v, Ghost(v as int))
            },
            R2ILOp::IntAdd { dst, a, b } => self.binary(BinaryAlu::Add, dst, a, b),
            R2ILOp::IntSub { dst, a, b } => self.binary(BinaryAlu::Sub, dst, a, b),
            R2ILOp::IntMult { dst, a, b } => self.binary(BinaryAlu::Mult, dst, a, b),
            R2ILOp::IntDiv { dst, a, b } => self.binary(BinaryAlu::Div, dst, a, b),
            R2ILOp::IntSDiv { dst, a, b } => self.binary(BinaryAlu::SDiv, dst, a, b),
            R2ILOp::IntRem { dst, a, b } => self.binary(BinaryAlu::Rem, dst, a, b),
            R2ILOp::IntSRem { dst, a, b } => self.binary(BinaryAlu::SRem, dst, a, b),
            R2ILOp::IntNegate { dst, src } => self.unary(UnaryAlu::Negate, dst, src),
            R2ILOp::IntCarry { dst, a, b } => self.binary(BinaryAlu::Carry, dst, a, b),
            R2ILOp::IntSCarry { dst, a, b } => self.binary(BinaryAlu::SCarry, dst, a, b),
            R2ILOp::IntSBorrow { dst, a, b } => self.binary(BinaryAlu::SBorrow, dst, a, b),
            R2ILOp::IntAnd { dst, a, b } => self.binary(BinaryAlu::And, dst, a, b),
            R2ILOp::IntOr { dst, a, b } => self.binary(BinaryAlu::Or, dst, a, b),
            R2ILOp::IntXor { dst, a, b } => self.binary(BinaryAlu::Xor, dst, a, b),
            R2ILOp::IntNot { dst, src } => self.unary(UnaryAlu::Not, dst, src),
            R2ILOp::IntLeft { dst, a, b } => self.binary(BinaryAlu::Left, dst, a, b),
            R2ILOp::IntRight { dst, a, b } => self.binary(BinaryAlu::Right, dst, a, b),
            R2ILOp::IntSRight { dst, a, b } => self.binary(BinaryAlu::SRight, dst, a, b),
            R2ILOp::IntEqual { dst, a, b } => self.binary(BinaryAlu::Equal, dst, a, b),
            R2ILOp::IntNotEqual { dst, a, b } => self.binary(BinaryAlu::NotEqual, dst, a, b),
            R2ILOp::IntLess { dst, a, b } => self.binary(BinaryAlu::Less, dst, a, b),
            R2ILOp::IntSLess { dst, a, b } => self.binary(BinaryAlu::SLess, dst, a, b),
            R2ILOp::IntLessEqual { dst, a, b } => self.binary(BinaryAlu::LessEqual, dst, a, b),
            R2ILOp::IntSLessEqual { dst, a, b } => self.binary(BinaryAlu::SLessEqual, dst, a, b),
            R2ILOp::IntZExt { dst, src } => self.unary(UnaryAlu::Copy, dst, src),
            R2ILOp::IntSExt { dst, src } => self.unary(UnaryAlu::SExt, dst, src),
            R2ILOp::BoolNot { dst, src } => self.unary(UnaryAlu::BoolNot, dst, src),
            R2ILOp::BoolAnd { dst, a, b } => self.binary(BinaryAlu::BoolAnd, dst, a, b),
            R2ILOp::BoolOr { dst, a, b } => self.binary(BinaryAlu::BoolOr, dst, a, b),
            R2ILOp::BoolXor { dst, a, b } => self.binary(BinaryAlu::BoolXor, dst, a, b),
            R2ILOp::Piece { dst, hi, lo } => self.binary(BinaryAlu::Piece, dst, hi, lo),
            R2ILOp::Subpiece { dst, src, offset } => {
                if *offset >= src.size {
                    return Err(
                        ConcError::SubpieceOutOfRange { offset: *offset, size: src.size },
                    );
                }
                match self.read(src) {
                    Ok(v) => {
                        let p = span_of(*offset);
                        proof {
                            assert(0 <= v as int / p as int <= v) by (nonlinear_arith)
                                requires
                                    p > 0,
                            ;
                        }
                        self.finish(dst, v / p, Ghost(v as int / span(*offset)))
                    },
                    Err(e) => Err(e),
                }
            },
            R2ILOp::PopCount { dst, src } => self.unary(UnaryAlu::PopCount, dst, src),
            R2ILOp::Lzcount { dst, src } => self.unary(UnaryAlu::Lzcount, dst, src),
            R2ILOp::Branch { target } => Ok(Control::Jump(target.offset)),
            R2ILOp::CBranch { target, cond } => match self.read(cond) {
                Ok(c) => if c != 0 {
                    Ok(Control::Jump(target.offset))
                } else {
                    Ok(Control::Next)
                },
                Err(e) => Err(e),
            },
            R2ILOp::Call { target } => Ok(Control::Call(target.offset)),
            R2ILOp::BranchInd { target } => match self.read(target) {
                Ok(v) => Ok(Control::Jump(v)),
                Err(e) => Err(e),
            },
            R2ILOp::CallInd { target } => match self.read(target) {
                Ok(v) => Ok(Control::Call(v)),
                Err(e) => Err(e),
            },
            R2ILOp::Return { target } => match self.read(target) {
                Ok(v) => Ok(Control::Return(v)),
                Err(e) => Err(e),
            },
            R2ILOp::Nop => Ok(Control::Next),
            R2ILOp::Fence { .. } => Err(ConcError::Unsupported("Fence")),
            R2ILOp::LoadLinked { .. } => Err(ConcError::Unsupported("LoadLinked")),
            R2ILOp::StoreConditional { .. } => Err(ConcError::Unsupported("StoreConditional")),
            R2ILOp::AtomicCAS { .. } => Err(ConcError::Unsupported("AtomicCAS")),
            R2ILOp::LoadGuarded { .. } => Err(ConcError::Unsupported("LoadGuarded")),
            R2ILOp::StoreGuarded { .. } => Err(ConcError::Unsupported("StoreGuarded")),
            R2ILOp::FloatAdd { .. } => Err(ConcError::Unsupported("FloatAdd")),
            R2ILOp::FloatSub { .. } => Err(ConcError::Unsupported("FloatSub")),
            R2ILOp::FloatMult { .. } => Err(ConcError::Unsupported("FloatMult")),
            R2ILOp::FloatDiv { .. } => Err(ConcError::Unsupported("FloatDiv")),
            R2ILOp::FloatNeg { .. } => Err(ConcError::Unsupported("FloatNeg")),
            R2ILOp::FloatAbs { .. } => Err(ConcError::Unsupported("FloatAbs")),
            R2ILOp::FloatSqrt { .. } => Err(ConcError::Unsupported("FloatSqrt")),
            R2ILOp::FloatCeil { .. } => Err(ConcError::Unsupported("FloatCeil")),
            R2ILOp::FloatFloor { .. } => Err(ConcError::Unsupported("FloatFloor")),
            R2ILOp::FloatRound { .. } => Err(ConcError::Unsupported("FloatRound")),
            R2ILOp::FloatNaN { .. } => Err(ConcError::Unsupported("FloatNaN")),
            R2ILOp::FloatEqual { .. } => Err(ConcError::Unsupported("FloatEqual")),
            R2ILOp::FloatNotEqual { .. } => Err(ConcError::Unsupported("FloatNotEqual")),
            R2ILOp::FloatLess { .. } => Err(ConcError::Unsupported("FloatLess")),
            R2ILOp::FloatLessEqual { .. } => Err(ConcError::Unsupported("FloatLessEqual")),
            R2ILOp::Int2Float { .. } => Err(ConcError::Unsupported("Int2Float")),
            R2ILOp::Float2Int { .. } => Err(ConcError::Unsupported("Float2Int")),
            R2ILOp::FloatFloat { .. } => Err(ConcError::Unsupported("FloatFloat")),
            R2ILOp::Trunc { .. } => Err(ConcError::Unsupported("Trunc")),
            R2ILOp::CallOther { .. } => Err(ConcError::Unsupported("CallOther")),
            R2ILOp::Unimplemented => Err(ConcError::Unsupported("Unimplemented")),
            R2ILOp::CpuId { .. } => Err(ConcError::Unsupported("CpuId")),
            R2ILOp::Breakpoint => Err(ConcError::Unsupported("Breakpoint")),
            R2ILOp::Multiequal { .. } => Err(ConcError::Unsupported("Multiequal")),
            R2ILOp::Indirect { .. } => Err(ConcError::Unsupported("Indirect")),
            R2ILOp::PtrAdd { .. } => Err(ConcError::Unsupported("PtrAdd")),
            R2ILOp::PtrSub { .. } => Err(ConcError::Unsupported("PtrSub")),
            R2ILOp::SegmentOp { .. } => Err(ConcError::Unsupported("SegmentOp")),
            R2ILOp::New { .. } => Err(ConcError::Unsupported("New")),
            R2ILOp::Cast { .. } => Err(ConcError::Unsupported("Cast")),
            R2ILOp::Extract { .. } => Err(ConcError::Unsupported("Extract")),
            R2ILOp::Insert { .. } => Err(ConcError::Unsupported("Insert")),
        }
    }
}

} // verus!
