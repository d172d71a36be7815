//! What C expressions come out as.

use crate::ast::expr::{BinaryOp, Expr, UnaryOp};
use crate::ast::types::Type;
use crate::conc::word::{span, truncated_div, truncated_rem};
use vstd::arithmetic::power2::pow2;
use vstd::prelude::*;

verus! {

/// A number as a word of 64 bits.
pub open spec fn word(v: int) -> u64 {
    (v % span(8)) as u64
}

/// Do two numbers differ by whole spans of words of `n` bytes only?
pub open spec fn same_word(u: int, v: int, n: u32) -> bool {
    (u - v) % span(n) == 0
}

/// A number converted to a signed or unsigned integer of some bits.
pub open spec fn converted(ty: Type, v: int) -> int {
    match ty {
        Type::UInt(bits) => v % pow2(bits as nat) as int,
        Type::Int(bits) => {
            let p = pow2(bits as nat) as int;
            let m = v % p;
            if 2 * m >= p {
                m - p
            } else {
                m
            }
        },
        _ => v,
    }
}

/// Is a number one that an integer type holds?
pub open spec fn in_type(ty: Type, v: int) -> bool {
    match ty {
        Type::UInt(bits) => 0 <= v < pow2(bits as nat),
        Type::Int(bits) => -pow2(bits as nat) <= 2 * v < pow2(bits as nat),
        _ => true,
    }
}

/// One for true, zero for false.
pub open spec fn truth(b: bool) -> int {
    if b {
        1
    } else {
        0
    }
}

/// The value of a binary operator on two numbers.
pub open spec fn binary_value(op: BinaryOp, x: int, y: int) -> int {
    match op {
        BinaryOp::Add => x + y,
        BinaryOp::Sub => x - y,
        BinaryOp::Mul => x * y,
        BinaryOp::Div => truncated_div(x, y),
        BinaryOp::Mod => truncated_rem(x, y),
        BinaryOp::BitAnd => (word(x) & word(y)) as int,
        BinaryOp::BitOr => (word(x) | word(y)) as int,
        BinaryOp::BitXor => (word(x) ^ word(y)) as int,
        BinaryOp::Shl => x * pow2(y as nat),
        BinaryOp::Shr => x / pow2(y as nat) as int,
        BinaryOp::And => truth(x != 0 && y != 0),
        BinaryOp::Or => truth(x != 0 || y != 0),
        BinaryOp::Eq => truth(x == y),
        BinaryOp::Ne => truth(x != y),
        BinaryOp::Lt => truth(x < y),
        BinaryOp::Le => truth(x <= y),
        BinaryOp::Gt => truth(x > y),
        BinaryOp::Ge => truth(x >= y),
        BinaryOp::Assign => y,
    }
}

/// The value of a unary operator on a number.
pub open spec fn unary_value(op: UnaryOp, x: int) -> int {
    match op {
        UnaryOp::Neg => -x,
        UnaryOp::BitNot => -1 - x,
        UnaryOp::Not => truth(x == 0),
    }
}

/// The number that an expression comes out as: arithmetic without overflow, over the
/// numbers that `env` gives to names, accesses, calls and whatever else is no arithmetic.
pub open spec fn eval(e: Expr, env: spec_fn(Expr) -> int) -> int
    decreases e,
{
    match e {
        Expr::IntLit(v) => v as int,
        Expr::UIntLit(v) => v as int,
        Expr::Paren(inner) => eval(*inner, env),
        Expr::Cast { ty, expr } => converted(ty, eval(*expr, env)),
        Expr::Unary { op, operand } => unary_value(op, eval(*operand, env)),
        Expr::Binary { op, left, right } => binary_value(op, eval(*left, env), eval(*right, env)),
        _ => env(e),
    }
}

} // verus!
