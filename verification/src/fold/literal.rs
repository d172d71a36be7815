//! Literals and the arithmetic on them.

use crate::ast::expr::{binary, BinaryOp, CExpr, Expr};
use crate::ast::types::{CType, Type};
use crate::il::metadata::MemoryOrdering;
use crate::text::digits;
use vstd::arithmetic::power2::pow2;
use vstd::prelude::*;

verus! {

/// A number, where it fits 64 signed bits.
pub open spec fn fit(v: int) -> Option<i64> {
    if i64::MIN <= v <= i64::MAX {
        Some(v as i64)
    } else {
        None
    }
}

fn narrow(v: i128) -> (r: Option<i64>)
    ensures
        r == fit(v as int),
{
    if -0x8000_0000_0000_0000 <= v && v <= 0x7fff_ffff_ffff_ffff {
        Some(v as i64)
    } else {
        None
    }
}

/// The value of a literal, or of an arithmetic expression of literals, where
/// every step of it fits 64 signed bits.
pub open spec fn literal(e: Expr) -> Option<i64>
    decreases e,
{
    match e {
        Expr::IntLit(v) => Some(v),
        Expr::UIntLit(v) => fit(v as int),
        Expr::Paren(inner) => literal(*inner),
        Expr::Cast { ty, expr } => literal(*expr),
        Expr::Binary { op, left, right } => match (literal(*left), literal(*right)) {
            (Some(a), Some(b)) => literal_binary(op, a, b),
            _ => None,
        },
        _ => None,
    }
}

/// The value of a binary operation on two literals.
pub open spec fn literal_binary(op: BinaryOp, a: i64, b: i64) -> Option<i64> {
    match op {
        BinaryOp::Add => fit(a + b),
        BinaryOp::Sub => fit(a - b),
        BinaryOp::Mul => fit(a * b),
        BinaryOp::BitAnd => Some(a & b),
        BinaryOp::BitOr => Some(a | b),
        BinaryOp::BitXor => Some(a ^ b),
        BinaryOp::Shl => if 0 <= b <= 62 {
            fit(a * pow2(b as nat))
        } else {
            None
        },
        BinaryOp::Shr => if 0 <= b <= 62 {
            Some(a >> b)
        } else {
            None
        },
        _ => None,
    }
}

/// A power of two that fits 64 signed bits.
pub fn power_of_two(n: i64) -> (r: i64)
    requires
        0 <= n <= 62,
    ensures
        r == pow2(n as nat),
        r > 0,
{
    let mut k: i64 = 0;
    let mut p: i64 = 1;
    proof {
        vstd::arithmetic::power2::lemma2_to64();
    }
    while k < n
        invariant
            0 <= k <= n <= 62,
            p == pow2(k as nat),
            0 < p,
        decreases n - k,
    {
        proof {
            vstd::arithmetic::power2::lemma_pow2_unfold((k + 1) as nat);
            lemma_pow2_small(k as nat + 1);
        }
        p = p * 2;
        k = k + 1;
    }
    p
}

proof fn lemma_pow2_small(n: nat)
    requires
        n <= 62,
    ensures
        pow2(n) <= 0x4000_0000_0000_0000,
{
    vstd::arithmetic::power2::lemma2_to64();
    vstd::arithmetic::power2::lemma2_to64_rest();
    if n < 62 {
        vstd::arithmetic::power2::lemma_pow2_strictly_increases(n, 62);
    }
}

fn fold_literals(op: BinaryOp, a: i64, b: i64) -> (r: Option<i64>)
    ensures
        r == literal_binary(op, a, b),
{
    match op {
        BinaryOp::Add => narrow(a as i128 + b as i128),
        BinaryOp::Sub => narrow(a as i128 - b as i128),
        BinaryOp::Mul => checked_product(a, b),
        BinaryOp::BitAnd => Some(a & b),
        BinaryOp::BitOr => Some(a | b),
        BinaryOp::BitXor => Some(a ^ b),
        BinaryOp::Shl => if 0 <= b && b <= 62 {
            checked_product(a, power_of_two(b))
        } else {
            None
        },
        BinaryOp::Shr => if 0 <= b && b <= 62 {
            Some(a >> b)
        } else {
            None
        },
        _ => None,
    }
}

/// A product, where it fits 64 signed bits.
pub fn checked_product(a: i64, b: i64) -> (r: Option<i64>)
    ensures
        r == fit(a * b),
{
    proof {
        assert(-0x8000_0000_0000_0000 * 0x8000_0000_0000_0000 <= a * b <= 0x8000_0000_0000_0000
            * 0x8000_0000_0000_0000) by (nonlinear_arith)
            requires
                -0x8000_0000_0000_0000 <= a <= 0x8000_0000_0000_0000,
                -0x8000_0000_0000_0000 <= b <= 0x8000_0000_0000_0000,
        ;
    }
    narrow(a as i128 * b as i128)
}

/// A sum, where it fits 64 signed bits.
pub fn checked_sum(a: i64, b: i64) -> (r: Option<i64>)
    ensures
        r == fit(a + b),
{
    narrow(a as i128 + b as i128)
}

/// A difference, where it fits 64 signed bits.
pub fn checked_difference(a: i64, b: i64) -> (r: Option<i64>)
    ensures
        r == fit(a - b),
{
    narrow(a as i128 - b as i128)
}

/// The nearest number that fits 64 signed bits.
pub open spec fn clamp(v: int) -> i64 {
    if v > i64::MAX {
        i64::MAX
    } else if v < i64::MIN {
        i64::MIN
    } else {
        v as i64
    }
}

/// A sum, held within 64 signed bits.
pub fn clamped_sum(a: i64, b: i64) -> (r: i64)
    ensures
        r == clamp(a + b),
{
    let v: i128 = a as i128 + b as i128;
    if v > 0x7fff_ffff_ffff_ffff {
        i64::MAX
    } else if v < -0x8000_0000_0000_0000 {
        i64::MIN
    } else {
        v as i64
    }
}

/// A difference, held within 64 signed bits.
pub fn clamped_difference(a: i64, b: i64) -> (r: i64)
    ensures
        r == clamp(a - b),
{
    let v: i128 = a as i128 - b as i128;
    if v > 0x7fff_ffff_ffff_ffff {
        i64::MAX
    } else if v < -0x8000_0000_0000_0000 {
        i64::MIN
    } else {
        v as i64
    }
}

/// The value of a literal, or of an arithmetic expression of literals.
pub fn literal_to_i64(expr: &CExpr) -> (r: Option<i64>)
    ensures
        r == literal(expr@),
    decreases expr,
{
    match expr {
        CExpr::IntLit(v) => Some(*v),
        CExpr::UIntLit(v) => if *v <= 0x7fff_ffff_ffff_ffff {
            Some(*v as i64)
        } else {
            None
        },
        CExpr::Paren(inner) => literal_to_i64(inner),
        CExpr::Cast { ty, expr: inner } => literal_to_i64(inner),
        CExpr::Binary { op, left, right } => match (literal_to_i64(left), literal_to_i64(right)) {
            (Some(a), Some(b)) => fold_literals(*op, a, b),
            _ => None,
        },
        _ => None,
    }
}

/// The literal zero.
pub open spec fn zero_literal(e: Expr) -> bool {
    e == Expr::IntLit(0) || e == Expr::UIntLit(0)
}

/// The literal zero.
pub fn is_literal_zero_expr(e: &CExpr) -> (r: bool)
    ensures
        r == zero_literal(e@),
{
    match e {
        CExpr::IntLit(v) => *v == 0,
        CExpr::UIntLit(v) => *v == 0,
        _ => false,
    }
}

/// The literal one.
pub open spec fn one_literal(e: Expr) -> bool {
    e == Expr::IntLit(1) || e == Expr::UIntLit(1)
}

/// The literal one.
pub fn is_one_expr(e: &CExpr) -> (r: bool)
    ensures
        r == one_literal(e@),
{
    match e {
        CExpr::IntLit(v) => *v == 1,
        CExpr::UIntLit(v) => *v == 1,
        _ => false,
    }
}

/// A mask of every bit in a width of one to eight bytes.
pub open spec fn full_mask(e: Expr, width: u32) -> bool
    decreases e,
{
    0 < width <= 8 && match e {
        Expr::UIntLit(v) => v == crate::conc::word::span(width) - 1,
        Expr::IntLit(v) => v == -1 || v == crate::conc::word::span(width) - 1,
        Expr::Paren(inner) => full_mask(*inner, width),
        Expr::Cast { ty, expr } => full_mask(*expr, width),
        _ => false,
    }
}

/// A mask of every bit in a width.
pub fn is_all_ones_mask_expr(expr: &CExpr, width_bytes: u32) -> (r: bool)
    ensures
        r == full_mask(expr@, width_bytes),
    decreases expr,
{
    if width_bytes == 0 || width_bytes > 8 {
        return false;
    }
    let mask: u64 = if width_bytes == 8 {
        u64::MAX
    } else {
        crate::conc::word::span_of(width_bytes) - 1
    };
    match expr {
        CExpr::UIntLit(v) => *v == mask,
        CExpr::IntLit(v) => *v == -1 || (*v >= 0 && *v as u64 == mask),
        CExpr::Paren(inner) => is_all_ones_mask_expr(inner, width_bytes),
        CExpr::Cast { ty, expr: inner } => is_all_ones_mask_expr(inner, width_bytes),
        _ => false,
    }
}

/// A binary expression without operands that change nothing.
pub open spec fn simplified(op: BinaryOp, left: Expr, right: Expr, width: Option<u32>) -> Expr {
    match op {
        BinaryOp::Sub => if zero_literal(right) {
            left
        } else {
            binary(op, left, right)
        },
        BinaryOp::Add => if zero_literal(right) {
            left
        } else if zero_literal(left) {
            right
        } else {
            binary(op, left, right)
        },
        BinaryOp::BitOr => if zero_literal(right) {
            left
        } else if zero_literal(left) {
            right
        } else {
            binary(op, left, right)
        },
        BinaryOp::BitXor => if left == right {
            Expr::IntLit(0)
        } else if zero_literal(right) {
            left
        } else if zero_literal(left) {
            right
        } else {
            binary(op, left, right)
        },
        BinaryOp::Mul => if one_literal(right) {
            left
        } else if one_literal(left) {
            right
        } else {
            binary(op, left, right)
        },
        BinaryOp::Div => if one_literal(right) {
            left
        } else {
            binary(op, left, right)
        },
        BinaryOp::BitAnd => match width {
            Some(w) => if full_mask(right, w) {
                left
            } else if full_mask(left, w) {
                right
            } else {
                binary(op, left, right)
            },
            None => binary(op, left, right),
        },
        _ => binary(op, left, right),
    }
}

/// A binary expression without operands that change nothing.
pub fn identity_simplify_binary(
    op: BinaryOp,
    left: CExpr,
    right: CExpr,
    width_bytes: Option<u32>,
) -> (r: CExpr)
    ensures
        r@ == simplified(op, left@, right@, width_bytes),
{
    match op {
        BinaryOp::Sub => if is_literal_zero_expr(&right) {
            left
        } else {
            CExpr::binary(op, left, right)
        },
        BinaryOp::Add | BinaryOp::BitOr => if is_literal_zero_expr(&right) {
            left
        } else if is_literal_zero_expr(&left) {
            right
        } else {
            CExpr::binary(op, left, right)
        },
        BinaryOp::BitXor => if left.same(&right) {
            CExpr::IntLit(0)
        } else if is_literal_zero_expr(&right) {
            left
        } else if is_literal_zero_expr(&left) {
            right
        } else {
            CExpr::binary(op, left, right)
        },
        BinaryOp::Mul => if is_one_expr(&right) {
            left
        } else if is_one_expr(&left) {
            right
        } else {
            CExpr::binary(op, left, right)
        },
        BinaryOp::Div => if is_one_expr(&right) {
            left
        } else {
            CExpr::binary(op, left, right)
        },
        BinaryOp::BitAnd => {
            if let Some(width) = width_bytes {
                if is_all_ones_mask_expr(&right, width) {
                    return left;
                }
                if is_all_ones_mask_expr(&left, width) {
                    return right;
                }
            }
            CExpr::binary(op, left, right)
        },
        _ => CExpr::binary(op, left, right),
    }
}

/// An expression without operands that change nothing at its root.
pub open spec fn root_simplified(e: Expr) -> Expr {
    match e {
        Expr::Binary { op, left, right } => simplified(op, *left, *right, None),
        _ => e,
    }
}

/// An expression without operands that change nothing at its root.
pub fn identity_simplify_expr(expr: CExpr) -> (r: CExpr)
    ensures
        r@ == root_simplified(expr@),
{
    match expr {
        CExpr::Binary { op, left, right } => identity_simplify_binary(op, *left, *right, None),
        other => other,
    }
}

/// A number of at most four decimal digits, its digits read as hexadecimal.
pub open spec fn digits_as_hex(v: u64) -> Option<u64> {
    if v < 10000 {
        Some(
            ((v / 1000) * 0x1000 + (v / 100 % 10) * 0x100 + (v / 10 % 10) * 0x10 + v % 10) as u64,
        )
    } else {
        None
    }
}

/// A number of at most four decimal digits, its digits read as hexadecimal.
pub fn reinterpret_decimal_digits_as_hex(value: u64) -> (r: Option<u64>)
    ensures
        r == digits_as_hex(value),
{
    if value < 10000 {
        Some(
            (value / 1000) * 0x1000 + (value / 100 % 10) * 0x100 + (value / 10 % 10) * 0x10
                + value % 10,
        )
    } else {
        None
    }
}

/// A literal whose decimal digits are read as hexadecimal. `depth` counts the
/// wrappers taken off; past `limit` there is no answer.
pub open spec fn hex_literal(e: Expr, depth: int, limit: int) -> Option<u64>
    decreases e,
{
    if depth > limit {
        None
    } else {
        match e {
            Expr::Paren(inner) => hex_literal(*inner, depth + 1, limit),
            Expr::AddrOf(inner) => hex_literal(*inner, depth + 1, limit),
            Expr::Cast { ty, expr } => hex_literal(*expr, depth + 1, limit),
            Expr::IntLit(v) => if v >= 0 {
                digits_as_hex(v as u64)
            } else {
                None
            },
            Expr::UIntLit(v) => digits_as_hex(v),
            _ => None,
        }
    }
}

/// A literal whose decimal digits are read as hexadecimal.
pub fn hex_digit_literal_value(expr: &CExpr, depth: u32) -> (r: Option<u64>)
    ensures
        r == hex_literal(expr@, depth as int, crate::fold::context::MAX_SEMANTIC_RENDER_DEPTH as int),
    decreases expr,
{
    if depth > crate::fold::context::MAX_SEMANTIC_RENDER_DEPTH {
        return None;
    }
    match expr {
        CExpr::Paren(inner) => hex_digit_literal_value(inner, depth + 1),
        CExpr::AddrOf(inner) => hex_digit_literal_value(inner, depth + 1),
        CExpr::Cast { ty, expr: inner } => hex_digit_literal_value(inner, depth + 1),
        CExpr::IntLit(v) => if *v >= 0 {
            reinterpret_decimal_digits_as_hex(*v as u64)
        } else {
            None
        },
        CExpr::UIntLit(v) => reinterpret_decimal_digits_as_hex(*v),
        _ => None,
    }
}

/// Eight times a size, held within 32 bits.
pub open spec fn size_bits(size: u32) -> u32 {
    if 8 * size > u32::MAX {
        u32::MAX
    } else {
        (8 * size) as u32
    }
}

/// Eight times a size, held within 32 bits.
pub fn bits_of(size: u32) -> (r: u32)
    ensures
        r == size_bits(size),
{
    if size > 0x1fff_ffff {
        u32::MAX
    } else {
        8 * size
    }
}

/// The signed integer type of a size in bytes.
pub open spec fn signed_type(size: u32) -> Type {
    if size == 0 {
        Type::Unknown
    } else {
        Type::Int(size_bits(size))
    }
}

/// The signed integer type of a size in bytes.
pub fn type_from_size(size: u32) -> (r: CType)
    ensures
        r@ == signed_type(size),
{
    if size == 0 {
        CType::Unknown
    } else {
        CType::Int(bits_of(size))
    }
}

/// The unsigned integer type of a size in bytes.
pub open spec fn unsigned_type(size: u32) -> Type {
    if size == 0 {
        Type::Unknown
    } else {
        Type::UInt(size_bits(size))
    }
}

/// The unsigned integer type of a size in bytes.
pub fn uint_type_from_size(size: u32) -> (r: CType)
    ensures
        r@ == unsigned_type(size),
{
    if size == 0 {
        CType::Unknown
    } else {
        CType::UInt(bits_of(size))
    }
}

/// How a memory ordering is written.
pub open spec fn ordering_text(ordering: MemoryOrdering) -> Seq<char> {
    match ordering {
        MemoryOrdering::Relaxed => "relaxed"@,
        MemoryOrdering::Acquire => "acquire"@,
        MemoryOrdering::Release => "release"@,
        MemoryOrdering::AcqRel => "acq_rel"@,
        MemoryOrdering::SeqCst => "seq_cst"@,
        MemoryOrdering::Unknown => "unknown"@,
    }
}

/// How a memory ordering is written.
pub fn memory_ordering_name(ordering: &MemoryOrdering) -> (r: &'static str)
    ensures
        r@ == ordering_text(*ordering),
{
    match ordering {
        MemoryOrdering::Relaxed => "relaxed",
        MemoryOrdering::Acquire => "acquire",
        MemoryOrdering::Release => "release",
        MemoryOrdering::AcqRel => "acq_rel",
        MemoryOrdering::SeqCst => "seq_cst",
        MemoryOrdering::Unknown => "unknown",
    }
}

/// What a binary operator computes on 64-bit words, for the operators that
/// simplification knows.
pub open spec fn word_op(op: BinaryOp, x: u64, y: u64) -> u64 {
    match op {
        BinaryOp::Add => crate::conc::word::low(x + y, 8),
        BinaryOp::Sub => crate::conc::word::low(x - y, 8),
        BinaryOp::Mul => crate::conc::word::low(x * y, 8),
        BinaryOp::Div => x / y,
        BinaryOp::BitOr => x | y,
        BinaryOp::BitXor => x ^ y,
        BinaryOp::BitAnd => x & y,
        _ => 0,
    }
}

/// A reading of expressions as 64-bit words that reads literals as themselves
/// and the known operators as arithmetic.
pub open spec fn reads_as_words(val: spec_fn(Expr) -> u64, op: BinaryOp, left: Expr, right: Expr) -> bool {
    &&& forall|v: i64| #[trigger]
        val(Expr::IntLit(v)) == crate::conc::word::low(v as int, 8)
    &&& forall|v: u64| #[trigger] val(Expr::UIntLit(v)) == v
    &&& val(binary(op, left, right)) == word_op(op, val(left), val(right))
}

/// Leaving out operands that change nothing keeps the value of an expression.
pub proof fn simplification_keeps_the_value(
    val: spec_fn(Expr) -> u64,
    op: BinaryOp,
    left: Expr,
    right: Expr,
)
    requires
        reads_as_words(val, op, left, right),
        op == BinaryOp::Add || op == BinaryOp::Sub || op == BinaryOp::Mul || op == BinaryOp::Div
            || op == BinaryOp::BitOr || op == BinaryOp::BitXor || op == BinaryOp::BitAnd,
    ensures
        val(simplified(op, left, right, None)) == word_op(op, val(left), val(right)),
{
    let x = val(left);
    let y = val(right);
    assert(x | 0 == x && 0 | x == x && x ^ 0 == x && 0 ^ x == x && x ^ x == 0) by (bit_vector);
    assert(y | 0 == y && 0 | y == y && y ^ 0 == y && 0 ^ y == y) by (bit_vector);
    assert(val(Expr::IntLit(0)) == 0);
    if zero_literal(right) {
        assert(y == 0);
    }
    if zero_literal(left) {
        assert(x == 0);
    }
    if one_literal(right) {
        assert(val(Expr::IntLit(1)) == 1);
        assert(y == 1);
        assert(x * y == x) by (nonlinear_arith)
            requires
                y == 1,
        ;
    }
    if one_literal(left) {
        assert(val(Expr::IntLit(1)) == 1);
        assert(x == 1);
        assert(x * y == y) by (nonlinear_arith)
            requires
                x == 1,
        ;
    }
}

/// Masking with every bit of a width keeps a value that fits the width.
pub proof fn full_masks_keep_what_fits(x: u64, width: u32)
    requires
        0 < width <= 8,
        x < crate::conc::word::span(width),
    ensures
        x & ((crate::conc::word::span(width) - 1) as u64) == x,
{
    if width == 1 {
        assert(x < 0x100 ==> x & 0xffu64 == x) by (bit_vector);
    } else if width == 2 {
        assert(x < 0x1_0000 ==> x & 0xffffu64 == x) by (bit_vector);
    } else if width == 3 {
        assert(x < 0x100_0000 ==> x & 0xff_ffffu64 == x) by (bit_vector);
    } else if width == 4 {
        assert(x < 0x1_0000_0000 ==> x & 0xffff_ffffu64 == x) by (bit_vector);
    } else if width == 5 {
        assert(x < 0x100_0000_0000 ==> x & 0xff_ffff_ffffu64 == x) by (bit_vector);
    } else if width == 6 {
        assert(x < 0x1_0000_0000_0000 ==> x & 0xffff_ffff_ffffu64 == x) by (bit_vector);
    } else if width == 7 {
        assert(x < 0x100_0000_0000_0000 ==> x & 0xff_ffff_ffff_ffffu64 == x) by (bit_vector);
    } else {
        assert(x & 0xffff_ffff_ffff_ffffu64 == x) by (bit_vector);
    }
}

/// Does an expression of literals hold no cast and no shift?
pub open spec fn free_of_casts(e: Expr) -> bool
    decreases e,
{
    match e {
        Expr::Cast { ty, expr } => false,
        Expr::Paren(inner) => free_of_casts(*inner),
        Expr::Binary { op, left, right } => op != BinaryOp::Shl && op != BinaryOp::Shr && free_of_casts(*left)
            && free_of_casts(*right),
        _ => true,
    }
}

/// The value of an expression of literals is the number that it comes out as, in words of
/// eight bytes.
pub proof fn literals_come_out_as_they_are(e: Expr, env: spec_fn(Expr) -> int)
    requires
        free_of_casts(e),
        literal(e) is Some,
    ensures
        crate::ast::eval::same_word(crate::ast::eval::eval(e, env), literal(e)->0 as int, 8),
    decreases e,
{
    match e {
        Expr::Paren(inner) => {
            literals_come_out_as_they_are(*inner, env);
        },
        Expr::Binary { op, left, right } => {
            literals_come_out_as_they_are(*left, env);
            literals_come_out_as_they_are(*right, env);
            crate::fold::meaning::folded_literals_are_the_same_word(
                op,
                crate::ast::eval::eval(*left, env),
                crate::ast::eval::eval(*right, env),
                literal(*left)->0,
                literal(*right)->0,
            );
        },
        _ => {},
    }
}

} // verus!
