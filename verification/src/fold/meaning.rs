//! What lowered statements compute.
//!
//! A reading of a function rewrites expressions by what it knows. Where all that it knows
//! is true of some numbers, the right side of every statement that it lowers an operation
//! to comes out, over these numbers, as what the executor computes.

use crate::ast::expr::{cast, BinaryOp, Expr, UnaryOp};
use crate::ast::stmt::Stmt;
use crate::ast::types::Type;
use crate::ast::eval::{binary_value, converted, in_type, same_word, truth, eval, word};
use crate::conc::meaning::{cuts_are_masks, signed_shifts_divide};
use crate::conc::slab::{BinaryAlu, UnaryAlu};
use crate::conc::word::{low, low_of_low, signed, span, truncated_div, truncated_rem};
use crate::fold::call_args::is_name;
use crate::fold::casts::{cast_to, needs_cast};
use crate::fold::levels::Reading;
use crate::fold::literal::{
    full_mask, one_literal, root_simplified, signed_type, simplified, size_bits, unsigned_type,
};
use crate::fold::names::generic_arg;
use crate::fold::tables::rewritten;
use crate::ssa::{SSAOp, SSAVar, Var};
use vstd::arithmetic::div_mod::{
    lemma_fundamental_div_mod, lemma_fundamental_div_mod_converse, lemma_mod_bound,
    lemma_mod_multiples_basic, lemma_small_mod,
};
use vstd::arithmetic::power2::{lemma2_to64, lemma2_to64_rest, lemma_pow2_adds, lemma_pow2_pos, lemma_pow2_unfold, pow2};
use vstd::prelude::*;

verus! {

proof fn lemma_span_is_power(n: u32)
    requires
        n <= 8,
    ensures
        span(n) == pow2((8 * n) as nat),
        span(n) > 0,
{
    lemma2_to64();
    lemma2_to64_rest();
}

/// Being the same word is told by the remainder.
proof fn lemma_same_word_is_same_rest(u: int, v: int, n: u32)
    ensures
        same_word(u, v, n) <==> u % span(n) == v % span(n),
{
    let p = span(n);
    lemma_fundamental_div_mod(u, p);
    lemma_fundamental_div_mod(v, p);
    lemma_mod_bound(u, p);
    lemma_mod_bound(v, p);
    let a = u / p;
    let b = v / p;
    if u % p == v % p {
        assert(u - v == (a - b) * p) by (nonlinear_arith)
            requires
                u == p * a + u % p,
                v == p * b + v % p,
                u % p == v % p,
        ;
        lemma_mod_multiples_basic(a - b, p);
    }
    if (u - v) % p == 0 {
        lemma_fundamental_div_mod(u - v, p);
        let c = (u - v) / p;
        assert(u == p * (c + b) + v % p) by (nonlinear_arith)
            requires
                u - v == p * c,
                v == p * b + v % p,
        ;
        lemma_fundamental_div_mod_converse(u, p, c + b, v % p);
    }
}

proof fn lemma_narrower_words(u: int, v: int, n: u32)
    requires
        same_word(u, v, 8),
        n <= 8,
    ensures
        same_word(u, v, n),
{
    lemma_same_word_is_same_rest(u, v, 8);
    lemma_same_word_is_same_rest(u, v, n);
    low_of_low(u, 8, n);
    low_of_low(v, 8, n);
    lemma_mod_bound(u, span(8));
    lemma_mod_bound(v, span(8));
    lemma_mod_bound(u, span(n));
    lemma_mod_bound(v, span(n));
    assert(low(u, n) == u % span(n));
    assert(low(v, n) == v % span(n));
}

proof fn lemma_same_words_chain(u: int, v: int, t: int, n: u32)
    requires
        same_word(u, v, n),
        same_word(v, t, n),
    ensures
        same_word(u, t, n),
{
    lemma_same_word_is_same_rest(u, v, n);
    lemma_same_word_is_same_rest(v, t, n);
    lemma_same_word_is_same_rest(u, t, n);
}

proof fn lemma_word_is_same(v: int, n: u32)
    requires
        n <= 8,
    ensures
        0 <= v % span(n) < span(n),
        low(v, n) == v % span(n),
        same_word(low(v, n) as int, v, n),
        same_word(v, low(v, n) as int, n),
{
    lemma_mod_bound(v, span(n));
    lemma_small_mod((v % span(n)) as nat, span(n) as nat);
    lemma_same_word_is_same_rest(low(v, n) as int, v, n);
    lemma_same_word_is_same_rest(v, low(v, n) as int, n);
}

proof fn lemma_converted(ty: Type, v: int)
    requires
        ty matches Type::UInt(bits) ==> bits > 0,
        ty matches Type::Int(bits) ==> bits > 0,
    ensures
        in_type(ty, converted(ty, v)),
        in_type(ty, v) ==> converted(ty, v) == v,
{
    match ty {
        Type::UInt(bits) => {
            lemma_pow2_pos(bits as nat);
            lemma_mod_bound(v, pow2(bits as nat) as int);
            if in_type(ty, v) {
                lemma_small_mod(v as nat, pow2(bits as nat));
            }
        },
        Type::Int(bits) => {
            let p = pow2(bits as nat) as int;
            lemma_pow2_pos(bits as nat);
            lemma_pow2_unfold(bits as nat);
            lemma_mod_bound(v, p);
            if in_type(ty, v) {
                if v >= 0 {
                    lemma_small_mod(v as nat, p as nat);
                } else {
                    lemma_fundamental_div_mod_converse(v, p, -1, v + p);
                }
            }
        },
        _ => {},
    }
}

/// Conversion to the integer types of a size is taking the word, or taking it as a signed
/// number.
proof fn lemma_converted_is_word(v: int, n: u32)
    requires
        0 < n <= 8,
    ensures
        converted(unsigned_type(n), v) == low(v, n),
        converted(signed_type(n), v) == signed(v, n),
{
    lemma_span_is_power(n);
    lemma_mod_bound(v, span(n));
    assert(size_bits(n) == 8 * n);
}

/// The bits of words depend on the words alone.
proof fn lemma_bits_of_words(x: int, y: int, n: u32)
    requires
        n <= 8,
    ensures
        same_word((word(x) & word(y)) as int, (low(x, n) & low(y, n)) as int, n),
        same_word((word(x) | word(y)) as int, (low(x, n) | low(y, n)) as int, n),
        same_word((word(x) ^ word(y)) as int, (low(x, n) ^ low(y, n)) as int, n),
{
    let u = word(x);
    let v = word(y);
    lemma_mod_bound(x, span(8));
    lemma_mod_bound(y, span(8));
    low_of_low(x, 8, n);
    low_of_low(y, 8, n);
    lemma_mod_bound(x, span(n));
    lemma_mod_bound(y, span(n));
    assert(u == low(x, 8) && v == low(y, 8));
    let m = (span(n) - 1) as u64;
    cuts_are_masks(u, n);
    cuts_are_masks(v, n);
    let a = low(x, n);
    let b = low(y, n);
    lemma_mod_bound(u as int, span(n));
    lemma_mod_bound(v as int, span(n));
    assert(a == u & m);
    assert(b == v & m);
    assert((u & v) & m == ((u & m) & (v & m)) & m) by (bit_vector);
    assert((u | v) & m == ((u & m) | (v & m)) & m) by (bit_vector);
    assert((u ^ v) & m == ((u & m) ^ (v & m)) & m) by (bit_vector);
    cuts_are_masks(u & v, n);
    cuts_are_masks(u | v, n);
    cuts_are_masks(u ^ v, n);
    cuts_are_masks(a & b, n);
    cuts_are_masks(a | b, n);
    cuts_are_masks(a ^ b, n);
    lemma_same_word_is_same_rest((u & v) as int, (a & b) as int, n);
    lemma_same_word_is_same_rest((u | v) as int, (a | b) as int, n);
    lemma_same_word_is_same_rest((u ^ v) as int, (a ^ b) as int, n);
}

/// Does an operand that counts as a mask of all bits have them all?
pub open spec fn mask_has_all_bits(e: Expr, width: Option<u32>, env: spec_fn(Expr) -> int) -> bool {
    width matches Some(w) ==> full_mask(e, w) ==> same_word(eval(e, env), -1, w)
}

/// Leaving out operands that change nothing changes no word: a sum or a product comes out
/// the same, operations on bits leave the same 64 bits, and a mask leaves the bits of the
/// width that it covers.
pub proof fn leaving_out_operands_changes_no_word(
    op: BinaryOp,
    left: Expr,
    right: Expr,
    width: Option<u32>,
    env: spec_fn(Expr) -> int,
)
    requires
        op == BinaryOp::BitAnd ==> mask_has_all_bits(left, width, env) && mask_has_all_bits(
            right,
            width,
            env,
        ),
    ensures
        op != BinaryOp::BitAnd ==> same_word(
            eval(simplified(op, left, right, width), env),
            binary_value(op, eval(left, env), eval(right, env)),
            8,
        ),
        op == BinaryOp::BitAnd && width is None ==> eval(simplified(op, left, right, width), env)
            == binary_value(op, eval(left, env), eval(right, env)),
        op == BinaryOp::BitAnd && (width matches Some(w) && w <= 8) ==> same_word(
            eval(simplified(op, left, right, width), env),
            binary_value(op, eval(left, env), eval(right, env)),
            width->0,
        ),
        op != BinaryOp::BitAnd && op != BinaryOp::BitOr && op != BinaryOp::BitXor ==> eval(
            simplified(op, left, right, width),
            env,
        ) == binary_value(op, eval(left, env), eval(right, env)),
{
    let x = eval(left, env);
    let y = eval(right, env);
    let u = word(x);
    let v = word(y);
    lemma_word_is_same(x, 8);
    lemma_word_is_same(y, 8);
    assert(u == low(x, 8) && v == low(y, 8));
    assert(u | 0 == u) by (bit_vector);
    assert(0 | v == v) by (bit_vector);
    assert(u ^ 0 == u) by (bit_vector);
    assert(0 ^ v == v) by (bit_vector);
    assert(u ^ u == 0) by (bit_vector);
    assert(word(0) == 0);
    lemma_same_word_is_same_rest(0, 0, 8);
    match op {
        BinaryOp::Mul => {
            assert(x * 1 == x && 1 * y == y) by (nonlinear_arith);
        },
        BinaryOp::Div => {
            if one_literal(right) {
                crate::conc::laws::signed_division_truncates(x, 1);
                assert(truncated_div(x, 1) * 1 == truncated_div(x, 1)) by (nonlinear_arith);
            }
        },
        BinaryOp::BitAnd => {
            if let Some(w) = width {
                if w <= 8 {
                    lemma_all_bits_mask(x, y, w);
                    lemma_all_bits_mask(y, x, w);
                    assert(u & v == v & u) by (bit_vector);
                    lemma_same_word_is_same_rest((u & v) as int, (u & v) as int, w);
                }
            }
        },
        _ => {},
    }
    lemma_same_word_is_same_rest(
        binary_value(op, x, y),
        binary_value(op, x, y),
        8,
    );
}

proof fn lemma_all_bits_mask(x: int, y: int, n: u32)
    requires
        n <= 8,
    ensures
        same_word(y, -1, n) ==> same_word(x, (word(x) & word(y)) as int, n),
{
    if same_word(y, -1, n) {
        lemma_bits_of_words(x, y, n);
        lemma_word_is_same(x, n);
        lemma_word_is_same(y, n);
        lemma_same_word_is_same_rest(y, -1, n);
        lemma_fundamental_div_mod_converse(-1, span(n), -1, span(n) - 1);
        let a = low(x, n);
        let m = (span(n) - 1) as u64;
        assert(low(y, n) == m);
        cuts_are_masks(a, n);
        lemma_small_mod(a as nat, span(n) as nat);
        assert(a & m == a);
        lemma_same_word_is_same_rest((word(x) & word(y)) as int, a as int, n);
        lemma_same_word_is_same_rest(x, (word(x) & word(y)) as int, n);
        lemma_same_word_is_same_rest(x, a as int, n);
    }
}

/// The root of an expression without operands that change nothing is the same word.
pub proof fn leaving_out_at_the_root_changes_no_word(e: Expr, env: spec_fn(Expr) -> int)
    ensures
        same_word(eval(root_simplified(e), env), eval(e, env), 8),
        !(e matches Expr::Binary { op, left, right } && (op == BinaryOp::BitOr || op
            == BinaryOp::BitXor)) ==> eval(root_simplified(e), env) == eval(e, env),
{
    lemma_same_word_is_same_rest(eval(e, env), eval(e, env), 8);
    match e {
        Expr::Binary { op, left, right } => {
            leaving_out_operands_changes_no_word(op, *left, *right, None, env);
        },
        _ => {},
    }
}

/// Does a statement assign, to a left side, a number that is a given word?
pub open spec fn assigns(s: Option<Stmt>, to: Expr, env: spec_fn(Expr) -> int, v: int, n: u32) -> bool {
    s matches Some(Stmt::Expr(Expr::Binary { op, left, right })) && op == BinaryOp::Assign && *left == to
        && same_word(eval(*right, env), v, n)
}

/// Is there nothing to assign: is a name given to itself, cast or not?
pub open spec fn nothing_to_assign(to: Expr, env: spec_fn(Expr) -> int, v: int, n: u32) -> bool {
    exists|r: Expr|
        same_word(#[trigger] eval(r, env), v, n) && (r == to || (to matches Expr::Var(name) && (
        generic_arg(name) || (r matches Expr::Cast { ty, expr } && is_name(*expr, name)))))
}

/// Does a statement give its left side a word, or is there nothing to give?
#[verifier::opaque]
pub open spec fn gives(s: Option<Stmt>, to: Expr, env: spec_fn(Expr) -> int, v: int, n: u32) -> bool {
    assigns(s, to, env, v, n) || (s is None && nothing_to_assign(to, env, v, n))
}

impl Reading {
    /// Is all that this reading knows true of some numbers? Meanings come out as the
    /// expressions that they stand for, and so does every rewriting.
    #[verifier::opaque]
    pub open spec fn faithful(&self, env: spec_fn(Expr) -> int) -> bool {
        &&& forall|e: Expr|
            eval(#[trigger] self.semantic(e, 0, Seq::empty()), env) == eval(e, env)
        &&& forall|e: Expr|
            eval(#[trigger] rewritten(self.ctx.answers.stack_rewrites@, e), env) == eval(e, env)
        &&& forall|v: Var, e: Expr|
            eval(#[trigger] self.predicate_rhs(v, e), env) == eval(e, env)
        &&& forall|e: Expr| eval(#[trigger] self.collapsed(e), env) == eval(e, env)
    }

    /// The left side that an assignment to a variable has.
    pub open spec fn target_for(&self, dst: Var) -> Expr {
        rewritten(self.ctx.answers.stack_rewrites@, self.lhs(dst))
    }

    /// Is a variable an ordinary one: no stack slot, and no owner of a call's result?
    pub open spec fn ordinary(&self, dst: Var) -> bool {
        self.target_for(dst) matches Expr::Var(name) ==> self.storage_offset(name) is None
            && self.definition_of_owner(name) is None
    }

    /// Does an operand have the type that an operation reads it as, where no cast says so?
    pub open spec fn typed(&self, v: Var, ty: Type, env: spec_fn(Expr) -> int) -> bool {
        !needs_cast(ty, self.var_hint(v)) ==> in_type(ty, eval(self.expr_of(v), env))
    }

    proof fn lemma_assign(&self, dst: Var, rhs: Expr, env: spec_fn(Expr) -> int, v: int, n: u32)
        requires
            self.faithful(env),
            self.ordinary(dst),
            n <= 8,
            same_word(eval(rhs, env), v, n),
        ensures
            gives(self.assign(self.lhs(dst), rhs), self.target_for(dst), env, v, n),
    {
        self.lemma_assign_to(self.lhs(dst), rhs, env, v, n);
    }

    /// Is a left side an ordinary one: no stack slot, and no owner of a call's result?
    pub open spec fn ordinary_side(&self, lhs: Expr) -> bool {
        rewritten(self.ctx.answers.stack_rewrites@, lhs) matches Expr::Var(name) ==> self.storage_offset(
            name,
        ) is None && self.definition_of_owner(name) is None
    }

    proof fn lemma_assign_to(&self, lhs: Expr, rhs: Expr, env: spec_fn(Expr) -> int, v: int, n: u32)
        requires
            self.faithful(env),
            self.ordinary_side(lhs),
            n <= 8,
            same_word(eval(rhs, env), v, n),
        ensures
            gives(
                self.assign(lhs, rhs),
                rewritten(self.ctx.answers.stack_rewrites@, lhs),
                env,
                v,
                n,
            ),
    {
        reveal(Reading::faithful);
        reveal(gives);
        reveal(Reading::assign);
        let to = rewritten(self.ctx.answers.stack_rewrites@, lhs);
        leaving_out_at_the_root_changes_no_word(rhs, env);
        let plain = root_simplified(rhs);
        let meant = self.semantic(plain, 0, Seq::empty());
        let shown = rewritten(self.ctx.answers.stack_rewrites@, meant);
        assert(eval(shown, env) == eval(plain, env));
        lemma_narrower_words(eval(plain, env), eval(rhs, env), n);
        lemma_same_words_chain(eval(plain, env), eval(rhs, env), v, n);
        assert(self.assigned(to, rhs) == shown);
        match to {
            Expr::Var(name) => {
                assert(self.own_call(name, shown) == shown);
                if self.idle_assignment(name, shown) {
                    if !generic_arg(name) {
                        assert(shown matches Expr::Cast { ty, expr } && is_name(*expr, name));
                    }
                    assert(nothing_to_assign(to, env, v, n));
                }
            },
            _ => {},
        }
    }

    proof fn lemma_operand(&self, dst: Var, v: Var, ty: Option<Type>, env: spec_fn(Expr) -> int)
        requires
            self.faithful(env),
            ty matches Some(t) ==> self.typed(v, t, env),
            ty matches Some(Type::UInt(bits)) ==> bits > 0,
            ty matches Some(Type::Int(bits)) ==> bits > 0,
        ensures
            eval(self.operand(dst, v, ty), env) == match ty {
                Some(t) => converted(t, eval(self.expr_of(v), env)),
                None => eval(self.expr_of(v), env),
            },
    {
        reveal(Reading::faithful);
        if let Some(t) = ty {
            let e = self.expr_of(v);
            lemma_converted(t, eval(e, env));
            if let Expr::Cast { ty: own, expr } = e {
                lemma_converted(t, eval(*expr, env));
            }
        }
    }

    proof fn lemma_binary(
        &self,
        dst: Var,
        a: Var,
        b: Var,
        op: BinaryOp,
        ty: Option<Type>,
        env: spec_fn(Expr) -> int,
        v: int,
        n: u32,
    )
        requires
            self.faithful(env),
            self.ordinary(dst),
            n <= 8,
            op == BinaryOp::BitAnd ==> n == dst.size && mask_has_all_bits(
                self.operand(dst, a, ty),
                Some(dst.size),
                env,
            ) && mask_has_all_bits(self.operand(dst, b, ty), Some(dst.size), env),
            ty matches Some(t) ==> self.typed(a, t, env) && self.typed(b, t, env),
            ty matches Some(Type::UInt(bits)) ==> bits > 0,
            ty matches Some(Type::Int(bits)) ==> bits > 0,
            same_word(
                binary_value(
                    op,
                    match ty {
                        Some(t) => converted(t, eval(self.expr_of(a), env)),
                        None => eval(self.expr_of(a), env),
                    },
                    match ty {
                        Some(t) => converted(t, eval(self.expr_of(b), env)),
                        None => eval(self.expr_of(b), env),
                    },
                ),
                v,
                n,
            ),
        ensures
            gives(self.binary_typed(dst, a, b, op, ty), self.target_for(dst), env, v, n),
    {
        reveal(Reading::binary_typed);
        let l = self.operand(dst, a, ty);
        let r = self.operand(dst, b, ty);
        let width = if dst.size > 0 {
            Some(dst.size)
        } else {
            None
        };
        self.lemma_operand(dst, a, ty, env);
        self.lemma_operand(dst, b, ty, env);
        leaving_out_operands_changes_no_word(op, l, r, width, env);
        let raw = simplified(op, l, r, width);
        let x = eval(l, env);
        let y = eval(r, env);
        let whole = binary_value(op, x, y);
        if op != BinaryOp::BitAnd {
            lemma_narrower_words(eval(raw, env), whole, n);
        } else if dst.size == 0 {
            lemma_same_word_is_same_rest(whole, whole, n);
        }
        lemma_same_words_chain(eval(raw, env), whole, v, n);
        assert(eval(self.predicate_rhs(dst, raw), env) == eval(raw, env)) by {
            reveal(Reading::faithful);
        }
        let shown = if crate::fold::lower::compares(op) {
            self.predicate_rhs(dst, raw)
        } else {
            raw
        };
        assert(self.typed_rhs(dst, None, shown) == shown);
        self.lemma_assign(dst, shown, env, v, n);
    }
}

proof fn lemma_sums_of_words(x: int, u: int, y: int, v: int, n: u32)
    requires
        n <= 8,
        same_word(x, u, n),
        same_word(y, v, n),
    ensures
        same_word(x + y, u + v, n),
        same_word(x - y, u - v, n),
        same_word(x * y, u * v, n),
{
    let p = span(n);
    lemma_fundamental_div_mod(x - u, p);
    lemma_fundamental_div_mod(y - v, p);
    let a = (x - u) / p;
    let b = (y - v) / p;
    assert((x + y) - (u + v) == (a + b) * p) by (nonlinear_arith)
        requires
            x - u == p * a,
            y - v == p * b,
    ;
    assert((x - y) - (u - v) == (a - b) * p) by (nonlinear_arith)
        requires
            x - u == p * a,
            y - v == p * b,
    ;
    assert(x * y - u * v == (a * y + u * b) * p) by (nonlinear_arith)
        requires
            x - u == p * a,
            y - v == p * b,
    ;
    lemma_mod_multiples_basic(a + b, p);
    lemma_mod_multiples_basic(a - b, p);
    lemma_mod_multiples_basic(a * y + u * b, p);
}

proof fn lemma_left_shift_is_product(x: u64, y: u64)
    requires
        y < 64,
    ensures
        same_word((x << y) as int, x * pow2(y as nat), 8),
    decreases y,
{
    lemma2_to64();
    if y == 0 {
        assert(x << 0u64 == x) by (bit_vector);
        assert(x * 1 == x) by (nonlinear_arith);
        lemma_same_word_is_same_rest(x as int, x as int, 8);
    } else {
        let m: u64 = (y - 1) as u64;
        lemma_left_shift_is_product(x, m);
        let z: u64 = x << m;
        assert(m + 1 == y && y < 64 ==> (x << y) == ((x << m) << 1u64)) by (bit_vector);
        assert((z << 1u64) == if z >= 0x8000_0000_0000_0000 {
            2 * (z - 0x8000_0000_0000_0000)
        } else {
            2 * z
        }) by (bit_vector);
        let d: int = if z >= 0x8000_0000_0000_0000 {
            -1
        } else {
            0
        };
        assert((z << 1u64) as int - 2 * z == d * span(8)) by {
            assert(span(8) == 0x1_0000_0000_0000_0000);
        }
        lemma_mod_multiples_basic(d, span(8));
        assert(same_word((x << y) as int, 2 * z, 8));
        let t = x * pow2(m as nat);
        lemma_same_word_is_same_rest(2, 2, 8);
        lemma_sums_of_words(2, 2, z as int, t, 8);
        lemma_same_words_chain((x << y) as int, 2 * z, 2 * t, 8);
        lemma_pow2_unfold(y as nat);
        assert(2 * t == x * pow2(y as nat)) by (nonlinear_arith)
            requires
                t == x * pow2(m as nat),
                pow2(y as nat) == 2 * pow2(m as nat),
        ;
    }
}

proof fn lemma_left_shift_of_words(x: int, y: u64, n: u32)
    requires
        0 < n <= 8,
    ensures
        same_word(x * pow2(y as nat), BinaryAlu::Left.value(low(x, n), y, n, n), n),
{
    let u = low(x, n);
    let p = pow2(y as nat) as int;
    lemma_word_is_same(x, n);
    lemma_same_word_is_same_rest(p, p, n);
    lemma_sums_of_words(x, u as int, p, p, n);
    lemma_span_is_power(n);
    if y >= 8 * n {
        lemma_pow2_adds((8 * n) as nat, (y - 8 * n) as nat);
        let k = pow2((y - 8 * n) as nat) as int;
        assert(x * p == (x * k) * span(n)) by (nonlinear_arith)
            requires
                p == span(n) * k,
        ;
        lemma_mod_multiples_basic(x * k, span(n));
    } else {
        lemma_left_shift_is_product(u, y);
        let z = (u << y) as int;
        lemma_narrower_words(z, u * p, n);
        lemma_word_is_same(z, n);
        lemma_same_word_is_same_rest(z, u * p, n);
        lemma_same_word_is_same_rest(u * p, z, n);
        lemma_same_words_chain(x * p, u * p, z, n);
        lemma_same_words_chain(x * p, z, low(z, n) as int, n);
    }
}

proof fn lemma_right_shifts_of_words(u: u64, y: u64, n: u32)
    requires
        0 < n <= 8,
        u < span(n),
    ensures
        same_word(u as int / pow2(y as nat) as int, BinaryAlu::Right.value(u, y, n, n), n),
        same_word(
            signed(u as int, n) / pow2(y as nat) as int,
            BinaryAlu::SRight.value(u, y, n, n),
            n,
        ),
{
    lemma_span_is_power(n);
    lemma_pow2_pos(y as nat);
    lemma_small_mod(u as nat, span(n) as nat);
    let p = pow2(y as nat) as int;
    let s = signed(u as int, n);
    let q = u as int / p;
    lemma_same_word_is_same_rest(q, q, n);
    if y < 8 * n {
        vstd::bits::lemma_u64_shr_is_div(u, y);
        signed_shifts_divide(s as i64, y);
        lemma_word_is_same(s / p, n);
    } else {
        if y > 8 * n {
            vstd::arithmetic::power2::lemma_pow2_strictly_increases((8 * n) as nat, y as nat);
        }
        lemma_fundamental_div_mod_converse(u as int, p, 0, u as int);
        crate::conc::laws::wide_signed_shifts_leave_the_sign(u, y, n, n);
        if s < 0 {
            lemma_fundamental_div_mod_converse(s, p, -1, s + p);
            lemma_fundamental_div_mod_converse(-1, span(n), -1, span(n) - 1);
            lemma_small_mod((span(n) - 1) as nat, span(n) as nat);
            lemma_same_word_is_same_rest(-1, span(n) - 1, n);
        } else {
            lemma_fundamental_div_mod_converse(s, p, 0, s);
            lemma_same_word_is_same_rest(0, 0, n);
        }
    }
}

proof fn lemma_equal_in_type(ty: Type, x: int, y: int, w: u32)
    requires
        0 < w <= 8,
        ty == unsigned_type(w) || ty == signed_type(w),
        in_type(ty, x),
        in_type(ty, y),
    ensures
        x == y <==> low(x, w) == low(y, w),
        low(low(x, w) as int, w) == low(x, w),
        low(low(y, w) as int, w) == low(y, w),
{
    lemma_converted(ty, x);
    lemma_converted(ty, y);
    lemma_converted_is_word(x, w);
    lemma_converted_is_word(y, w);
    lemma_word_is_same(x, w);
    lemma_word_is_same(y, w);
    lemma_small_mod((x % span(w)) as nat, span(w) as nat);
    lemma_small_mod((y % span(w)) as nat, span(w) as nat);
}

proof fn lemma_truth_values(x: int, y: int)
    requires
        0 <= x <= 1,
        0 <= y <= 1,
    ensures
        word(x) == x,
        word(y) == y,
        same_word(
            binary_value(BinaryOp::And, x, y),
            BinaryAlu::BoolAnd.value(word(x), word(y), 8, 8),
            8,
        ),
        same_word(
            binary_value(BinaryOp::Or, x, y),
            BinaryAlu::BoolOr.value(word(x), word(y), 8, 8),
            8,
        ),
        same_word(
            binary_value(BinaryOp::BitXor, x, y),
            BinaryAlu::BoolXor.value(word(x), word(y), 8, 8),
            8,
        ),
{
    lemma_small_mod(x as nat, span(8) as nat);
    lemma_small_mod(y as nat, span(8) as nat);
    assert(0u64 ^ 0 == 0 && 1u64 ^ 0 == 1 && 0u64 ^ 1 == 1 && 1u64 ^ 1 == 0) by (bit_vector);
    lemma_same_word_is_same_rest(0, 0, 8);
    lemma_same_word_is_same_rest(1, 1, 8);
}

impl Reading {
    /// A sum lowers to an assignment of the word that the executor computes from the
    /// words of the operands.
    pub proof fn additions_add(&self, dst: SSAVar, a: SSAVar, b: SSAVar, env: spec_fn(Expr) -> int)
        requires
            self.faithful(env),
            self.ordinary(dst@),
            0 < dst.size <= 8,
        ensures
            gives(
                self.stmt_of(SSAOp::IntAdd { dst, a, b }),
                self.target_for(dst@),
                env,
                BinaryAlu::Add.value(
                    low(eval(self.expr_of(a@), env), dst.size),
                    low(eval(self.expr_of(b@), env), dst.size),
                    dst.size,
                    dst.size,
                ),
                dst.size,
            ),
    {
        let x = eval(self.expr_of(a@), env);
        let y = eval(self.expr_of(b@), env);
        let w = dst.size;
        let u = low(x, w) as int;
        let v = low(y, w) as int;
        lemma_word_is_same(x, w);
        lemma_word_is_same(y, w);
        lemma_sums_of_words(x, u, y, v, w);
        lemma_word_is_same(u + v, w);
        lemma_same_words_chain(x + y, u + v, low(u + v, w) as int, w);
        self.lemma_binary(dst@, a@, b@, BinaryOp::Add, None, env, low(u + v, w) as int, w);
    }

    /// A difference lowers to an assignment of the word that the executor computes from the
    /// words of the operands.
    pub proof fn subtractions_subtract(&self, dst: SSAVar, a: SSAVar, b: SSAVar, env: spec_fn(Expr) -> int)
        requires
            self.faithful(env),
            self.ordinary(dst@),
            0 < dst.size <= 8,
        ensures
            gives(
                self.stmt_of(SSAOp::IntSub { dst, a, b }),
                self.target_for(dst@),
                env,
                BinaryAlu::Sub.value(
                    low(eval(self.expr_of(a@), env), dst.size),
                    low(eval(self.expr_of(b@), env), dst.size),
                    dst.size,
                    dst.size,
                ),
                dst.size,
            ),
    {
        let x = eval(self.expr_of(a@), env);
        let y = eval(self.expr_of(b@), env);
        let w = dst.size;
        let u = low(x, w) as int;
        let v = low(y, w) as int;
        lemma_word_is_same(x, w);
        lemma_word_is_same(y, w);
        lemma_sums_of_words(x, u, y, v, w);
        lemma_word_is_same(u - v, w);
        lemma_same_words_chain(x - y, u - v, low(u - v, w) as int, w);
        self.lemma_binary(dst@, a@, b@, BinaryOp::Sub, None, env, low(u - v, w) as int, w);
    }

    /// A product lowers to an assignment of the word that the executor computes from the
    /// words of the operands.
    pub proof fn multiplications_multiply(&self, dst: SSAVar, a: SSAVar, b: SSAVar, env: spec_fn(Expr) -> int)
        requires
            self.faithful(env),
            self.ordinary(dst@),
            0 < dst.size <= 8,
        ensures
            gives(
                self.stmt_of(SSAOp::IntMult { dst, a, b }),
                self.target_for(dst@),
                env,
                BinaryAlu::Mult.value(
                    low(eval(self.expr_of(a@), env), dst.size),
                    low(eval(self.expr_of(b@), env), dst.size),
                    dst.size,
                    dst.size,
                ),
                dst.size,
            ),
    {
        let x = eval(self.expr_of(a@), env);
        let y = eval(self.expr_of(b@), env);
        let w = dst.size;
        let u = low(x, w) as int;
        let v = low(y, w) as int;
        lemma_word_is_same(x, w);
        lemma_word_is_same(y, w);
        lemma_sums_of_words(x, u, y, v, w);
        lemma_word_is_same(u * v, w);
        lemma_same_words_chain(x * y, u * v, low(u * v, w) as int, w);
        self.lemma_binary(dst@, a@, b@, BinaryOp::Mul, None, env, low(u * v, w) as int, w);
    }

    /// A conjunction of bits lowers to an assignment of the word that the executor
    /// computes from the words of the operands.
    pub proof fn conjunctions_conjoin(&self, dst: SSAVar, a: SSAVar, b: SSAVar, env: spec_fn(Expr) -> int)
        requires
            self.faithful(env),
            self.ordinary(dst@),
            0 < dst.size <= 8,
            mask_has_all_bits(self.operand(dst@, a@, None), Some(dst.size), env),
            mask_has_all_bits(self.operand(dst@, b@, None), Some(dst.size), env),
        ensures
            gives(
                self.stmt_of(SSAOp::IntAnd { dst, a, b }),
                self.target_for(dst@),
                env,
                BinaryAlu::And.value(
                    low(eval(self.expr_of(a@), env), dst.size),
                    low(eval(self.expr_of(b@), env), dst.size),
                    dst.size,
                    dst.size,
                ),
                dst.size,
            ),
    {
        let x = eval(self.expr_of(a@), env);
        let y = eval(self.expr_of(b@), env);
        let w = dst.size;
        let u = low(x, w);
        let v = low(y, w);
        lemma_bits_of_words(x, y, w);
        self.lemma_binary(dst@, a@, b@, BinaryOp::BitAnd, None, env, (u & v) as int, w);
    }

    /// A disjunction of bits lowers to an assignment of the word that the executor
    /// computes from the words of the operands.
    pub proof fn disjunctions_disjoin(&self, dst: SSAVar, a: SSAVar, b: SSAVar, env: spec_fn(Expr) -> int)
        requires
            self.faithful(env),
            self.ordinary(dst@),
            0 < dst.size <= 8,
        ensures
            gives(
                self.stmt_of(SSAOp::IntOr { dst, a, b }),
                self.target_for(dst@),
                env,
                BinaryAlu::Or.value(
                    low(eval(self.expr_of(a@), env), dst.size),
                    low(eval(self.expr_of(b@), env), dst.size),
                    dst.size,
                    dst.size,
                ),
                dst.size,
            ),
    {
        let x = eval(self.expr_of(a@), env);
        let y = eval(self.expr_of(b@), env);
        let w = dst.size;
        let u = low(x, w);
        let v = low(y, w);
        lemma_bits_of_words(x, y, w);
        self.lemma_binary(dst@, a@, b@, BinaryOp::BitOr, None, env, (u | v) as int, w);
    }

    /// An exclusive disjunction of bits lowers to an assignment of the word that the executor
    /// computes from the words of the operands.
    pub proof fn exclusive_disjunctions_tell_apart(&self, dst: SSAVar, a: SSAVar, b: SSAVar, env: spec_fn(Expr) -> int)
        requires
            self.faithful(env),
            self.ordinary(dst@),
            0 < dst.size <= 8,
        ensures
            gives(
                self.stmt_of(SSAOp::IntXor { dst, a, b }),
                self.target_for(dst@),
                env,
                BinaryAlu::Xor.value(
                    low(eval(self.expr_of(a@), env), dst.size),
                    low(eval(self.expr_of(b@), env), dst.size),
                    dst.size,
                    dst.size,
                ),
                dst.size,
            ),
    {
        let x = eval(self.expr_of(a@), env);
        let y = eval(self.expr_of(b@), env);
        let w = dst.size;
        let u = low(x, w);
        let v = low(y, w);
        lemma_bits_of_words(x, y, w);
        self.lemma_binary(dst@, a@, b@, BinaryOp::BitXor, None, env, (u ^ v) as int, w);
    }

    /// An unsigned division lowers to an assignment of the word that the executor computes
    /// from the words of the operands.
    pub proof fn unsigned_divisions_divide(&self, dst: SSAVar, a: SSAVar, b: SSAVar, env: spec_fn(Expr) -> int)
        requires
            self.faithful(env),
            self.ordinary(dst@),
            0 < dst.size <= 8,
            self.typed(a@, unsigned_type(dst.size), env),
            self.typed(b@, unsigned_type(dst.size), env),
            low(eval(self.expr_of(b@), env), dst.size) != 0,
        ensures
            gives(
                self.stmt_of(SSAOp::IntDiv { dst, a, b }),
                self.target_for(dst@),
                env,
                BinaryAlu::Div.value(
                    low(eval(self.expr_of(a@), env), dst.size),
                    low(eval(self.expr_of(b@), env), dst.size),
                    dst.size,
                    dst.size,
                ),
                dst.size,
            ),
    {
        let x = eval(self.expr_of(a@), env);
        let y = eval(self.expr_of(b@), env);
        let w = dst.size;
        let u = low(x, w) as int;
        let v = low(y, w) as int;
        lemma_word_is_same(x, w);
        lemma_word_is_same(y, w);
        lemma_converted_is_word(x, w);
        lemma_converted_is_word(y, w);
        lemma_same_word_is_same_rest(u / v, u / v, w);
        self.lemma_binary(dst@, a@, b@, BinaryOp::Div, Some(unsigned_type(w)), env, u / v, w);
    }

    /// An unsigned remainder lowers to an assignment of the word that the executor computes
    /// from the words of the operands.
    pub proof fn unsigned_remainders_remain(&self, dst: SSAVar, a: SSAVar, b: SSAVar, env: spec_fn(Expr) -> int)
        requires
            self.faithful(env),
            self.ordinary(dst@),
            0 < dst.size <= 8,
            self.typed(a@, unsigned_type(dst.size), env),
            self.typed(b@, unsigned_type(dst.size), env),
            low(eval(self.expr_of(b@), env), dst.size) != 0,
        ensures
            gives(
                self.stmt_of(SSAOp::IntRem { dst, a, b }),
                self.target_for(dst@),
                env,
                BinaryAlu::Rem.value(
                    low(eval(self.expr_of(a@), env), dst.size),
                    low(eval(self.expr_of(b@), env), dst.size),
                    dst.size,
                    dst.size,
                ),
                dst.size,
            ),
    {
        let x = eval(self.expr_of(a@), env);
        let y = eval(self.expr_of(b@), env);
        let w = dst.size;
        let u = low(x, w) as int;
        let v = low(y, w) as int;
        lemma_word_is_same(x, w);
        lemma_word_is_same(y, w);
        lemma_converted_is_word(x, w);
        lemma_converted_is_word(y, w);
        lemma_same_word_is_same_rest(u % v, u % v, w);
        self.lemma_binary(dst@, a@, b@, BinaryOp::Mod, Some(unsigned_type(w)), env, u % v, w);
    }

    /// A signed division lowers to an assignment of the word that the executor computes
    /// from the words of the operands.
    pub proof fn signed_divisions_divide(&self, dst: SSAVar, a: SSAVar, b: SSAVar, env: spec_fn(Expr) -> int)
        requires
            self.faithful(env),
            self.ordinary(dst@),
            0 < dst.size <= 8,
            self.typed(a@, signed_type(dst.size), env),
            self.typed(b@, signed_type(dst.size), env),
            low(eval(self.expr_of(b@), env), dst.size) != 0,
        ensures
            gives(
                self.stmt_of(SSAOp::IntSDiv { dst, a, b }),
                self.target_for(dst@),
                env,
                BinaryAlu::SDiv.value(
                    low(eval(self.expr_of(a@), env), dst.size),
                    low(eval(self.expr_of(b@), env), dst.size),
                    dst.size,
                    dst.size,
                ),
                dst.size,
            ),
    {
        let x = eval(self.expr_of(a@), env);
        let y = eval(self.expr_of(b@), env);
        let w = dst.size;
        let u = low(x, w) as int;
        let v = low(y, w) as int;
        lemma_word_is_same(x, w);
        lemma_word_is_same(y, w);
        lemma_small_mod(u as nat, span(w) as nat);
        lemma_small_mod(v as nat, span(w) as nat);
        lemma_converted_is_word(x, w);
        lemma_converted_is_word(y, w);
        let q = truncated_div(signed(u, w), signed(v, w));
        lemma_same_word_is_same_rest(q, q, w);
        self.lemma_binary(dst@, a@, b@, BinaryOp::Div, Some(signed_type(w)), env, q, w);
    }

    /// A signed remainder lowers to an assignment of the word that the executor computes
    /// from the words of the operands.
    pub proof fn signed_remainders_remain(&self, dst: SSAVar, a: SSAVar, b: SSAVar, env: spec_fn(Expr) -> int)
        requires
            self.faithful(env),
            self.ordinary(dst@),
            0 < dst.size <= 8,
            self.typed(a@, signed_type(dst.size), env),
            self.typed(b@, signed_type(dst.size), env),
            low(eval(self.expr_of(b@), env), dst.size) != 0,
        ensures
            gives(
                self.stmt_of(SSAOp::IntSRem { dst, a, b }),
                self.target_for(dst@),
                env,
                BinaryAlu::SRem.value(
                    low(eval(self.expr_of(a@), env), dst.size),
                    low(eval(self.expr_of(b@), env), dst.size),
                    dst.size,
                    dst.size,
                ),
                dst.size,
            ),
    {
        let x = eval(self.expr_of(a@), env);
        let y = eval(self.expr_of(b@), env);
        let w = dst.size;
        let u = low(x, w) as int;
        let v = low(y, w) as int;
        lemma_word_is_same(x, w);
        lemma_word_is_same(y, w);
        lemma_small_mod(u as nat, span(w) as nat);
        lemma_small_mod(v as nat, span(w) as nat);
        lemma_converted_is_word(x, w);
        lemma_converted_is_word(y, w);
        let q = truncated_rem(signed(u, w), signed(v, w));
        lemma_same_word_is_same_rest(q, q, w);
        self.lemma_binary(dst@, a@, b@, BinaryOp::Mod, Some(signed_type(w)), env, q, w);
    }

    /// A shift to the left lowers to an assignment of the word that the executor computes
    /// from the words of the operands.
    pub proof fn left_shifts_shift(&self, dst: SSAVar, a: SSAVar, b: SSAVar, env: spec_fn(Expr) -> int)
        requires
            self.faithful(env),
            self.ordinary(dst@),
            0 < dst.size <= 8,
            0 <= eval(self.expr_of(b@), env) < span(dst.size),
        ensures
            gives(
                self.stmt_of(SSAOp::IntLeft { dst, a, b }),
                self.target_for(dst@),
                env,
                BinaryAlu::Left.value(
                    low(eval(self.expr_of(a@), env), dst.size),
                    low(eval(self.expr_of(b@), env), dst.size),
                    dst.size,
                    dst.size,
                ),
                dst.size,
            ),
    {
        let x = eval(self.expr_of(a@), env);
        let y = eval(self.expr_of(b@), env);
        let w = dst.size;
        let u = low(x, w);
        lemma_word_is_same(x, w);
        lemma_small_mod(y as nat, span(w) as nat);
        let v = y as u64;
        let r = BinaryAlu::Left.value(u, v, w, w);
        lemma_left_shift_of_words(x, v, w);
        self.lemma_binary(dst@, a@, b@, BinaryOp::Shl, None, env, r, w);
    }

    /// A shift to the right lowers to an assignment of the word that the executor
    /// computes from the words of the operands.
    pub proof fn right_shifts_shift(&self, dst: SSAVar, a: SSAVar, b: SSAVar, env: spec_fn(Expr) -> int)
        requires
            self.faithful(env),
            self.ordinary(dst@),
            0 < dst.size <= 8,
            self.typed(a@, unsigned_type(dst.size), env),
            self.typed(b@, unsigned_type(dst.size), env),
            0 <= 2 * eval(self.expr_of(b@), env) < span(dst.size),
        ensures
            gives(
                self.stmt_of(SSAOp::IntRight { dst, a, b }),
                self.target_for(dst@),
                env,
                BinaryAlu::Right.value(
                    low(eval(self.expr_of(a@), env), dst.size),
                    low(eval(self.expr_of(b@), env), dst.size),
                    dst.size,
                    dst.size,
                ),
                dst.size,
            ),
    {
        let x = eval(self.expr_of(a@), env);
        let y = eval(self.expr_of(b@), env);
        let w = dst.size;
        let u = low(x, w);
        lemma_word_is_same(x, w);
        lemma_small_mod(u as nat, span(w) as nat);
        lemma_small_mod(y as nat, span(w) as nat);
        lemma_converted_is_word(x, w);
        lemma_converted_is_word(y, w);
        let v = y as u64;
        lemma_right_shifts_of_words(u, v, w);
        let r = BinaryAlu::Right.value(u, v, w, w);
        self.lemma_binary(dst@, a@, b@, BinaryOp::Shr, Some(unsigned_type(w)), env, r, w);
    }

    /// A signed shift to the right lowers to an assignment of the word that the executor
    /// computes from the words of the operands.
    pub proof fn signed_right_shifts_shift(&self, dst: SSAVar, a: SSAVar, b: SSAVar, env: spec_fn(Expr) -> int)
        requires
            self.faithful(env),
            self.ordinary(dst@),
            0 < dst.size <= 8,
            self.typed(a@, signed_type(dst.size), env),
            self.typed(b@, signed_type(dst.size), env),
            0 <= 2 * eval(self.expr_of(b@), env) < span(dst.size),
        ensures
            gives(
                self.stmt_of(SSAOp::IntSRight { dst, a, b }),
                self.target_for(dst@),
                env,
                BinaryAlu::SRight.value(
                    low(eval(self.expr_of(a@), env), dst.size),
                    low(eval(self.expr_of(b@), env), dst.size),
                    dst.size,
                    dst.size,
                ),
                dst.size,
            ),
    {
        let x = eval(self.expr_of(a@), env);
        let y = eval(self.expr_of(b@), env);
        let w = dst.size;
        let u = low(x, w);
        lemma_word_is_same(x, w);
        lemma_small_mod(u as nat, span(w) as nat);
        lemma_small_mod(y as nat, span(w) as nat);
        lemma_converted_is_word(x, w);
        lemma_converted_is_word(y, w);
        let v = y as u64;
        lemma_right_shifts_of_words(u, v, w);
        let r = BinaryAlu::SRight.value(u, v, w, w);
        self.lemma_binary(dst@, a@, b@, BinaryOp::Shr, Some(signed_type(w)), env, r, w);
    }

    /// Equality lowers to an assignment of what the executor computes from the words of
    /// the operands, where both are read as one integer type.
    pub proof fn equality_is_told(&self, dst: SSAVar, a: SSAVar, b: SSAVar, env: spec_fn(Expr) -> int)
        requires
            self.faithful(env),
            self.ordinary(dst@),
            0 < a.size <= 8,
            a.size == b.size,
            exists|ty: Type|
                (ty == unsigned_type(a.size) || ty == signed_type(a.size)) && in_type(
                    ty,
                    eval(self.expr_of(a@), env),
                ) && #[trigger] in_type(ty, eval(self.expr_of(b@), env)),
        ensures
            gives(
                self.stmt_of(SSAOp::IntEqual { dst, a, b }),
                self.target_for(dst@),
                env,
                BinaryAlu::Equal.value(
                    low(eval(self.expr_of(a@), env), a.size),
                    low(eval(self.expr_of(b@), env), a.size),
                    a.size,
                    a.size,
                ),
                8,
            ),
    {
        let x = eval(self.expr_of(a@), env);
        let y = eval(self.expr_of(b@), env);
        let w = a.size;
        let ty = choose|ty: Type|
            (ty == unsigned_type(a.size) || ty == signed_type(a.size)) && in_type(
                ty,
                eval(self.expr_of(a@), env),
            ) && #[trigger] in_type(ty, eval(self.expr_of(b@), env));
        lemma_equal_in_type(ty, x, y, w);
        lemma_same_word_is_same_rest(truth(x == y), truth(x == y), 8);
        self.lemma_binary(dst@, a@, b@, BinaryOp::Eq, None, env, truth(x == y), 8);
    }

    /// Inequality lowers to an assignment of what the executor computes from the words of
    /// the operands, where both are read as one integer type.
    pub proof fn inequality_is_told(&self, dst: SSAVar, a: SSAVar, b: SSAVar, env: spec_fn(Expr) -> int)
        requires
            self.faithful(env),
            self.ordinary(dst@),
            0 < a.size <= 8,
            a.size == b.size,
            exists|ty: Type|
                (ty == unsigned_type(a.size) || ty == signed_type(a.size)) && in_type(
                    ty,
                    eval(self.expr_of(a@), env),
                ) && #[trigger] in_type(ty, eval(self.expr_of(b@), env)),
        ensures
            gives(
                self.stmt_of(SSAOp::IntNotEqual { dst, a, b }),
                self.target_for(dst@),
                env,
                BinaryAlu::NotEqual.value(
                    low(eval(self.expr_of(a@), env), a.size),
                    low(eval(self.expr_of(b@), env), a.size),
                    a.size,
                    a.size,
                ),
                8,
            ),
    {
        let x = eval(self.expr_of(a@), env);
        let y = eval(self.expr_of(b@), env);
        let w = a.size;
        let ty = choose|ty: Type|
            (ty == unsigned_type(a.size) || ty == signed_type(a.size)) && in_type(
                ty,
                eval(self.expr_of(a@), env),
            ) && #[trigger] in_type(ty, eval(self.expr_of(b@), env));
        lemma_equal_in_type(ty, x, y, w);
        lemma_same_word_is_same_rest(truth(x != y), truth(x != y), 8);
        self.lemma_binary(dst@, a@, b@, BinaryOp::Ne, None, env, truth(x != y), 8);
    }

    /// The order of words lowers to an assignment
    /// of what the executor computes from them.
    pub proof fn unsigned_order_is_told(&self, dst: SSAVar, a: SSAVar, b: SSAVar, env: spec_fn(Expr) -> int)
        requires
            self.faithful(env),
            self.ordinary(dst@),
            0 < a.size <= 8,
            a.size == b.size,
            self.typed(a@, unsigned_type(a.size), env),
            self.typed(b@, unsigned_type(a.size), env),
        ensures
            gives(
                self.stmt_of(SSAOp::IntLess { dst, a, b }),
                self.target_for(dst@),
                env,
                BinaryAlu::Less.value(
                    low(eval(self.expr_of(a@), env), a.size),
                    low(eval(self.expr_of(b@), env), a.size),
                    a.size,
                    a.size,
                ),
                8,
            ),
    {
        let x = eval(self.expr_of(a@), env);
        let y = eval(self.expr_of(b@), env);
        let w = a.size;
        lemma_converted_is_word(x, w);
        lemma_converted_is_word(y, w);
        lemma_word_is_same(x, w);
        lemma_word_is_same(y, w);
        lemma_small_mod((x % span(w)) as nat, span(w) as nat);
        lemma_small_mod((y % span(w)) as nat, span(w) as nat);
        let u = low(x, w) as int;
        let v = low(y, w) as int;
        lemma_same_word_is_same_rest(truth(u < v), truth(u < v), 8);
        self.lemma_binary(dst@, a@, b@, BinaryOp::Lt, Some(unsigned_type(w)), env, truth(u < v), 8);
    }

    /// The order of words, equality allowed, lowers to an assignment
    /// of what the executor computes from them.
    pub proof fn unsigned_order_or_equality_is_told(&self, dst: SSAVar, a: SSAVar, b: SSAVar, env: spec_fn(Expr) -> int)
        requires
            self.faithful(env),
            self.ordinary(dst@),
            0 < a.size <= 8,
            a.size == b.size,
            self.typed(a@, unsigned_type(a.size), env),
            self.typed(b@, unsigned_type(a.size), env),
        ensures
            gives(
                self.stmt_of(SSAOp::IntLessEqual { dst, a, b }),
                self.target_for(dst@),
                env,
                BinaryAlu::LessEqual.value(
                    low(eval(self.expr_of(a@), env), a.size),
                    low(eval(self.expr_of(b@), env), a.size),
                    a.size,
                    a.size,
                ),
                8,
            ),
    {
        let x = eval(self.expr_of(a@), env);
        let y = eval(self.expr_of(b@), env);
        let w = a.size;
        lemma_converted_is_word(x, w);
        lemma_converted_is_word(y, w);
        lemma_word_is_same(x, w);
        lemma_word_is_same(y, w);
        lemma_small_mod((x % span(w)) as nat, span(w) as nat);
        lemma_small_mod((y % span(w)) as nat, span(w) as nat);
        let u = low(x, w) as int;
        let v = low(y, w) as int;
        lemma_same_word_is_same_rest(truth(u <= v), truth(u <= v), 8);
        self.lemma_binary(dst@, a@, b@, BinaryOp::Le, Some(unsigned_type(w)), env, truth(u <= v), 8);
    }

    /// The order of words taken as signed numbers lowers to an assignment
    /// of what the executor computes from them.
    pub proof fn signed_order_is_told(&self, dst: SSAVar, a: SSAVar, b: SSAVar, env: spec_fn(Expr) -> int)
        requires
            self.faithful(env),
            self.ordinary(dst@),
            0 < a.size <= 8,
            a.size == b.size,
            self.typed(a@, signed_type(a.size), env),
            self.typed(b@, signed_type(a.size), env),
        ensures
            gives(
                self.stmt_of(SSAOp::IntSLess { dst, a, b }),
                self.target_for(dst@),
                env,
                BinaryAlu::SLess.value(
                    low(eval(self.expr_of(a@), env), a.size),
                    low(eval(self.expr_of(b@), env), a.size),
                    a.size,
                    a.size,
                ),
                8,
            ),
    {
        let x = eval(self.expr_of(a@), env);
        let y = eval(self.expr_of(b@), env);
        let w = a.size;
        lemma_converted_is_word(x, w);
        lemma_converted_is_word(y, w);
        lemma_word_is_same(x, w);
        lemma_word_is_same(y, w);
        lemma_small_mod((x % span(w)) as nat, span(w) as nat);
        lemma_small_mod((y % span(w)) as nat, span(w) as nat);
        let u = signed(x, w);
        let v = signed(y, w);
        lemma_same_word_is_same_rest(truth(u < v), truth(u < v), 8);
        self.lemma_binary(dst@, a@, b@, BinaryOp::Lt, Some(signed_type(w)), env, truth(u < v), 8);
    }

    /// The order of words taken as signed numbers, equality allowed, lowers to an assignment
    /// of what the executor computes from them.
    pub proof fn signed_order_or_equality_is_told(&self, dst: SSAVar, a: SSAVar, b: SSAVar, env: spec_fn(Expr) -> int)
        requires
            self.faithful(env),
            self.ordinary(dst@),
            0 < a.size <= 8,
            a.size == b.size,
            self.typed(a@, signed_type(a.size), env),
            self.typed(b@, signed_type(a.size), env),
        ensures
            gives(
                self.stmt_of(SSAOp::IntSLessEqual { dst, a, b }),
                self.target_for(dst@),
                env,
                BinaryAlu::SLessEqual.value(
                    low(eval(self.expr_of(a@), env), a.size),
                    low(eval(self.expr_of(b@), env), a.size),
                    a.size,
                    a.size,
                ),
                8,
            ),
    {
        let x = eval(self.expr_of(a@), env);
        let y = eval(self.expr_of(b@), env);
        let w = a.size;
        lemma_converted_is_word(x, w);
        lemma_converted_is_word(y, w);
        lemma_word_is_same(x, w);
        lemma_word_is_same(y, w);
        lemma_small_mod((x % span(w)) as nat, span(w) as nat);
        lemma_small_mod((y % span(w)) as nat, span(w) as nat);
        let u = signed(x, w);
        let v = signed(y, w);
        lemma_same_word_is_same_rest(truth(u <= v), truth(u <= v), 8);
        self.lemma_binary(dst@, a@, b@, BinaryOp::Le, Some(signed_type(w)), env, truth(u <= v), 8);
    }

    /// A Boolean conjunction of truth values lowers to an assignment of what the
    /// executor computes.
    pub proof fn boolean_conjunctions_decide(&self, dst: SSAVar, a: SSAVar, b: SSAVar, env: spec_fn(Expr) -> int)
        requires
            self.faithful(env),
            self.ordinary(dst@),
            0 <= eval(self.expr_of(a@), env) <= 1,
            0 <= eval(self.expr_of(b@), env) <= 1,
        ensures
            gives(
                self.stmt_of(SSAOp::BoolAnd { dst, a, b }),
                self.target_for(dst@),
                env,
                BinaryAlu::BoolAnd.value(
                    word(eval(self.expr_of(a@), env)),
                    word(eval(self.expr_of(b@), env)),
                    8,
                    8,
                ),
                8,
            ),
    {
        let x = eval(self.expr_of(a@), env);
        let y = eval(self.expr_of(b@), env);
        reveal(Reading::boolean);
        lemma_truth_values(x, y);
        let e = crate::ast::expr::binary(BinaryOp::And, self.expr_of(a@), self.expr_of(b@));
        let shown = self.predicate_rhs(dst@, e);
        assert(eval(shown, env) == eval(e, env)) by {
            reveal(Reading::faithful);
        }
        self.lemma_assign(dst@, shown, env, BinaryAlu::BoolAnd.value(word(x), word(y), 8, 8), 8);
    }

    /// A Boolean disjunction of truth values lowers to an assignment of what the
    /// executor computes.
    pub proof fn boolean_disjunctions_decide(&self, dst: SSAVar, a: SSAVar, b: SSAVar, env: spec_fn(Expr) -> int)
        requires
            self.faithful(env),
            self.ordinary(dst@),
            0 <= eval(self.expr_of(a@), env) <= 1,
            0 <= eval(self.expr_of(b@), env) <= 1,
        ensures
            gives(
                self.stmt_of(SSAOp::BoolOr { dst, a, b }),
                self.target_for(dst@),
                env,
                BinaryAlu::BoolOr.value(
                    word(eval(self.expr_of(a@), env)),
                    word(eval(self.expr_of(b@), env)),
                    8,
                    8,
                ),
                8,
            ),
    {
        let x = eval(self.expr_of(a@), env);
        let y = eval(self.expr_of(b@), env);
        reveal(Reading::boolean);
        lemma_truth_values(x, y);
        let e = crate::ast::expr::binary(BinaryOp::Or, self.expr_of(a@), self.expr_of(b@));
        let shown = self.predicate_rhs(dst@, e);
        assert(eval(shown, env) == eval(e, env)) by {
            reveal(Reading::faithful);
        }
        self.lemma_assign(dst@, shown, env, BinaryAlu::BoolOr.value(word(x), word(y), 8, 8), 8);
    }

    /// A Boolean exclusive disjunction of truth values lowers to an assignment of what the
    /// executor computes.
    pub proof fn boolean_exclusive_disjunctions_decide(&self, dst: SSAVar, a: SSAVar, b: SSAVar, env: spec_fn(Expr) -> int)
        requires
            self.faithful(env),
            self.ordinary(dst@),
            0 <= eval(self.expr_of(a@), env) <= 1,
            0 <= eval(self.expr_of(b@), env) <= 1,
        ensures
            gives(
                self.stmt_of(SSAOp::BoolXor { dst, a, b }),
                self.target_for(dst@),
                env,
                BinaryAlu::BoolXor.value(
                    word(eval(self.expr_of(a@), env)),
                    word(eval(self.expr_of(b@), env)),
                    8,
                    8,
                ),
                8,
            ),
    {
        let x = eval(self.expr_of(a@), env);
        let y = eval(self.expr_of(b@), env);
        reveal(Reading::boolean);
        lemma_truth_values(x, y);
        let e = crate::ast::expr::binary(BinaryOp::BitXor, self.expr_of(a@), self.expr_of(b@));
        let shown = self.predicate_rhs(dst@, e);
        assert(eval(shown, env) == eval(e, env)) by {
            reveal(Reading::faithful);
        }
        self.lemma_assign(dst@, shown, env, BinaryAlu::BoolXor.value(word(x), word(y), 8, 8), 8);
    }

}

impl Reading {
    /// A negation lowers to an assignment of the word that the executor computes from the
    /// word of the operand.
    pub proof fn negations_negate(&self, dst: SSAVar, src: SSAVar, env: spec_fn(Expr) -> int)
        requires
            self.faithful(env),
            self.ordinary(dst@),
            dst.size <= 8,
        ensures
            gives(
                self.stmt_of(SSAOp::IntNegate { dst, src }),
                self.target_for(dst@),
                env,
                UnaryAlu::Negate.value(low(eval(self.expr_of(src@), env), dst.size), dst.size),
                dst.size,
            ),
    {
        let x = eval(self.expr_of(src@), env);
        let w = dst.size;
        let u = low(x, w) as int;
        lemma_word_is_same(x, w);
        lemma_same_word_is_same_rest(0, 0, w);
        lemma_sums_of_words(0, 0, x, u, w);
        lemma_word_is_same(-u, w);
        lemma_same_words_chain(-x, -u, low(-u, w) as int, w);
        let e = crate::ast::expr::unary(UnaryOp::Neg, self.expr_of(src@));
        assert(eval(e, env) == -x);
        self.lemma_assign(dst@, e, env, low(-u, w) as int, w);
    }

    /// A complement lowers to an assignment of the word that the executor computes from the
    /// word of the operand.
    pub proof fn complements_complement(&self, dst: SSAVar, src: SSAVar, env: spec_fn(Expr) -> int)
        requires
            self.faithful(env),
            self.ordinary(dst@),
            dst.size <= 8,
        ensures
            gives(
                self.stmt_of(SSAOp::IntNot { dst, src }),
                self.target_for(dst@),
                env,
                UnaryAlu::Not.value(low(eval(self.expr_of(src@), env), dst.size), dst.size),
                dst.size,
            ),
    {
        let x = eval(self.expr_of(src@), env);
        let w = dst.size;
        let u = low(x, w) as int;
        lemma_word_is_same(x, w);
        lemma_same_word_is_same_rest(-1, -1, w);
        lemma_sums_of_words(-1, -1, x, u, w);
        lemma_word_is_same(-1 - u, w);
        lemma_same_words_chain(-1 - x, -1 - u, low(-1 - u, w) as int, w);
        let e = crate::ast::expr::unary(UnaryOp::BitNot, self.expr_of(src@));
        assert(eval(e, env) == -1 - x);
        self.lemma_assign(dst@, e, env, low(-1 - u, w) as int, w);
    }

    /// A Boolean negation lowers to an assignment of what the executor computes.
    pub proof fn boolean_negations_decide(&self, dst: SSAVar, src: SSAVar, env: spec_fn(Expr) -> int)
        requires
            self.faithful(env),
            self.ordinary(dst@),
            0 <= eval(self.expr_of(src@), env) <= u64::MAX,
        ensures
            gives(
                self.stmt_of(SSAOp::BoolNot { dst, src }),
                self.target_for(dst@),
                env,
                UnaryAlu::BoolNot.value(eval(self.expr_of(src@), env) as u64, 8),
                8,
            ),
    {
        let x = eval(self.expr_of(src@), env);
        let e = crate::ast::expr::unary(UnaryOp::Not, self.expr_of(src@));
        assert(eval(e, env) == truth(x == 0));
        let shown = self.predicate_rhs(dst@, e);
        assert(eval(shown, env) == eval(e, env)) by {
            reveal(Reading::faithful);
        }
        lemma_same_word_is_same_rest(truth(x == 0), truth(x == 0), 8);
        self.lemma_assign(dst@, shown, env, truth(x == 0), 8);
    }

    /// A change of width or type lowers to an assignment of the operand's number, cut to the
    /// destination.
    pub proof fn zero_extensions_keep_the_word(&self, dst: SSAVar, src: SSAVar, env: spec_fn(Expr) -> int)
        requires
            self.faithful(env),
            self.ordinary(dst@),
            0 < dst.size <= 8,
        ensures
            gives(
                self.stmt_of(SSAOp::IntZExt { dst, src }),
                self.target_for(dst@),
                env,
                eval(self.expr_of(src@), env),
                dst.size,
            ),
    {
        let x = eval(self.expr_of(src@), env);
        self.lemma_resized(dst@, src@, env);
        self.lemma_assign(dst@, self.resized(dst@, src@), env, x, dst.size);
    }

    /// A change of width or type lowers to an assignment of the operand's number, cut to the
    /// destination.
    pub proof fn sign_extensions_keep_the_word(&self, dst: SSAVar, src: SSAVar, env: spec_fn(Expr) -> int)
        requires
            self.faithful(env),
            self.ordinary(dst@),
            0 < dst.size <= 8,
        ensures
            gives(
                self.stmt_of(SSAOp::IntSExt { dst, src }),
                self.target_for(dst@),
                env,
                eval(self.expr_of(src@), env),
                dst.size,
            ),
    {
        let x = eval(self.expr_of(src@), env);
        self.lemma_resized(dst@, src@, env);
        self.lemma_assign(dst@, self.resized(dst@, src@), env, x, dst.size);
    }

    /// A change of width or type lowers to an assignment of the operand's number, cut to the
    /// destination.
    pub proof fn truncations_keep_the_word(&self, dst: SSAVar, src: SSAVar, env: spec_fn(Expr) -> int)
        requires
            self.faithful(env),
            self.ordinary(dst@),
            0 < dst.size <= 8,
        ensures
            gives(
                self.stmt_of(SSAOp::Trunc { dst, src }),
                self.target_for(dst@),
                env,
                eval(self.expr_of(src@), env),
                dst.size,
            ),
    {
        let x = eval(self.expr_of(src@), env);
        self.lemma_resized(dst@, src@, env);
        self.lemma_assign(dst@, self.resized(dst@, src@), env, x, dst.size);
    }

    /// A change of width or type lowers to an assignment of the operand's number, cut to the
    /// destination.
    pub proof fn casts_keep_the_word(&self, dst: SSAVar, src: SSAVar, env: spec_fn(Expr) -> int)
        requires
            self.faithful(env),
            self.ordinary(dst@),
            0 < dst.size <= 8,
        ensures
            gives(
                self.stmt_of(SSAOp::Cast { dst, src }),
                self.target_for(dst@),
                env,
                eval(self.expr_of(src@), env),
                dst.size,
            ),
    {
        let x = eval(self.expr_of(src@), env);
        self.lemma_resized(dst@, src@, env);
        self.lemma_assign(dst@, self.resized(dst@, src@), env, x, dst.size);
    }

    proof fn lemma_resized(&self, dst: Var, src: Var, env: spec_fn(Expr) -> int)
        requires
            self.faithful(env),
            0 < dst.size <= 8,
        ensures
            same_word(eval(self.resized(dst, src), env), eval(self.expr_of(src), env), dst.size),
    {
        let x = eval(self.expr_of(src), env);
        let e = cast(signed_type(dst.size), self.expr_of(src));
        assert(eval(e, env) == converted(signed_type(dst.size), x));
        assert(eval(self.predicate_rhs(dst, e), env) == eval(e, env)) by {
            reveal(Reading::faithful);
        }
        lemma_converted_is_word(x, dst.size);
        let p = span(dst.size);
        lemma_mod_bound(x, p);
        lemma_fundamental_div_mod(x, p);
        let q = x / p;
        assert(x % p - x == (-q) * p) by (nonlinear_arith)
            requires
                x == p * q + x % p,
        ;
        assert(x % p - p - x == (-q - 1) * p) by (nonlinear_arith)
            requires
                x == p * q + x % p,
        ;
        lemma_mod_multiples_basic(-q, p);
        lemma_mod_multiples_basic(-q - 1, p);
    }

    /// A pointer moved by elements lowers to an assignment of the pointer plus, or minus, the
    /// index times the size of an element.
    pub proof fn pointers_move_by_elements(
        &self,
        dst: SSAVar,
        base: SSAVar,
        index: SSAVar,
        element_size: u32,
        env: spec_fn(Expr) -> int,
    )
        requires
            self.faithful(env),
            self.ordinary(dst@),
            element_size > 0,
        ensures
            gives(
                self.stmt_of(SSAOp::PtrAdd { dst, base, index, element_size }),
                self.target_for(dst@),
                env,
                eval(self.expr_of(base@), env) + eval(self.expr_of(index@), env) * element_size,
                8,
            ),
            gives(
                self.stmt_of(SSAOp::PtrSub { dst, base, index, element_size }),
                self.target_for(dst@),
                env,
                eval(self.expr_of(base@), env) - eval(self.expr_of(index@), env) * element_size,
                8,
            ),
    {
        let x = eval(self.expr_of(base@), env);
        let y = eval(self.expr_of(index@), env);
        let by = crate::fold::lower::scaled(self.expr_of(index@), element_size);
        assert(eval(Expr::IntLit(element_size as i64), env) == element_size);
        assert(y * 1 == y) by (nonlinear_arith);
        assert(eval(by, env) == y * element_size);
        let up = self.moved_pointer(base@, index@, element_size, false);
        let down = self.moved_pointer(base@, index@, element_size, true);
        assert(eval(up, env) == x + y * element_size);
        assert(eval(down, env) == x - y * element_size);
        lemma_same_word_is_same_rest(eval(up, env), eval(up, env), 8);
        lemma_same_word_is_same_rest(eval(down, env), eval(down, env), 8);
        self.lemma_assign(dst@, up, env, x + y * element_size, 8);
        self.lemma_assign(dst@, down, env, x - y * element_size, 8);
    }

    proof fn lemma_part(&self, dst: Var, src: Var, offset: u32, env: spec_fn(Expr) -> int)
        requires
            0 < dst.size,
            dst.size + offset <= src.size <= 8,
        ensures
            same_word(
                eval(self.part(dst, src, offset), env),
                low(eval(self.expr_of(src), env), src.size) as int / span(offset),
                dst.size,
            ),
    {
        let x = eval(self.expr_of(src), env);
        let u = low(x, src.size) as int;
        let n = dst.size;
        lemma_word_is_same(x, src.size);
        low_of_low(x, src.size, n);
        lemma_mod_bound(x, span(n));
        lemma_mod_bound(u, span(n));
        lemma_same_word_is_same_rest(x, u, n);
        let e = self.part(dst, src, offset);
        let v = u / span(offset);
        if offset == 0 {
            assert(v == u);
            lemma_converted_is_word(x, n);
            lemma_word_is_same(x, n);
            lemma_same_word_is_same_rest(low(x, n) as int, u, n);
            lemma_small_mod((x % span(n)) as nat, span(n) as nat);
            assert(low(u, n) == low(x, n));
            assert(x % span(n) == u % span(n));
            if dst.size == src.size {
                assert(eval(e, env) == x);
            } else {
                assert(eval(e, env) == converted(unsigned_type(n), x));
            }
        } else {
            let wide = cast(unsigned_type(src.size), self.expr_of(src));
            lemma_converted_is_word(x, src.size);
            assert(eval(wide, env) == u);
            lemma_span_is_power(offset);
            assert(size_bits(offset) == 8 * offset);
            let by = Expr::IntLit(size_bits(offset) as i64);
            assert(eval(by, env) == 8 * offset);
            let shifted = crate::ast::expr::binary(BinaryOp::Shr, wide, by);
            assert(eval(shifted, env) == v);
            lemma_converted_is_word(v, n);
            lemma_word_is_same(v, n);
            assert(eval(e, env) == low(v, n));
        }
    }

    /// A part of a variable lowers to an assignment of the variable's word without the bytes
    /// below the part, cut to the destination.
    pub proof fn parts_are_cut_out(&self, dst: SSAVar, src: SSAVar, offset: u32, env: spec_fn(Expr) -> int)
        requires
            self.faithful(env),
            self.ordinary(dst@),
            0 < dst.size,
            dst.size + offset <= src.size <= 8,
        ensures
            gives(
                self.stmt_of(SSAOp::Subpiece { dst, src, offset }),
                self.target_for(dst@),
                env,
                low(eval(self.expr_of(src@), env), src.size) as int / span(offset),
                dst.size,
            ),
    {
        self.lemma_part(dst@, src@, offset, env);
        let v = low(eval(self.expr_of(src@), env), src.size) as int / span(offset);
        self.lemma_assign(dst@, self.part(dst@, src@, offset), env, v, dst.size);
    }

    /// Operations on floating-point numbers lower like those on integers that go by the same
    /// sign.
    pub proof fn floating_point_goes_by_the_same_signs(&self, dst: SSAVar, a: SSAVar, b: SSAVar)
        ensures
            self.stmt_of(SSAOp::FloatAdd { dst, a, b }) == self.stmt_of(SSAOp::IntAdd { dst, a, b }),
            self.stmt_of(SSAOp::FloatSub { dst, a, b }) == self.stmt_of(SSAOp::IntSub { dst, a, b }),
            self.stmt_of(SSAOp::FloatMult { dst, a, b }) == self.stmt_of(SSAOp::IntMult { dst, a, b }),
            self.stmt_of(SSAOp::FloatEqual { dst, a, b }) == self.stmt_of(SSAOp::IntEqual { dst, a, b }),
            self.stmt_of(SSAOp::FloatNotEqual { dst, a, b }) == self.stmt_of(
                SSAOp::IntNotEqual { dst, a, b },
            ),
            self.stmt_of(SSAOp::FloatNeg { dst, src: a }) == self.stmt_of(
                SSAOp::IntNegate { dst, src: a },
            ),
    {
    }

    /// Division and order of floating-point numbers lower to division and order, told here of
    /// numbers that are whole.
    pub proof fn floating_point_divides_and_compares(
        &self,
        dst: SSAVar,
        a: SSAVar,
        b: SSAVar,
        env: spec_fn(Expr) -> int,
    )
        requires
            self.faithful(env),
            self.ordinary(dst@),
        ensures
            gives(
                self.stmt_of(SSAOp::FloatDiv { dst, a, b }),
                self.target_for(dst@),
                env,
                truncated_div(eval(self.expr_of(a@), env), eval(self.expr_of(b@), env)),
                8,
            ),
            gives(
                self.stmt_of(SSAOp::FloatLess { dst, a, b }),
                self.target_for(dst@),
                env,
                truth(eval(self.expr_of(a@), env) < eval(self.expr_of(b@), env)),
                8,
            ),
            gives(
                self.stmt_of(SSAOp::FloatLessEqual { dst, a, b }),
                self.target_for(dst@),
                env,
                truth(eval(self.expr_of(a@), env) <= eval(self.expr_of(b@), env)),
                8,
            ),
    {
        let x = eval(self.expr_of(a@), env);
        let y = eval(self.expr_of(b@), env);
        lemma_same_word_is_same_rest(truncated_div(x, y), truncated_div(x, y), 8);
        lemma_same_word_is_same_rest(truth(x < y), truth(x < y), 8);
        lemma_same_word_is_same_rest(truth(x <= y), truth(x <= y), 8);
        self.lemma_binary(dst@, a@, b@, BinaryOp::Div, None, env, truncated_div(x, y), 8);
        self.lemma_binary(dst@, a@, b@, BinaryOp::Lt, None, env, truth(x < y), 8);
        self.lemma_binary(dst@, a@, b@, BinaryOp::Le, None, env, truth(x <= y), 8);
    }

    /// A copy lowers to an assignment of its source's number, where it is no copy of an
    /// argument, no copy to a global, and nothing tells more than the source.
    pub proof fn copies_copy(&self, dst: SSAVar, src: SSAVar, env: spec_fn(Expr) -> int)
        requires
            self.faithful(env),
            self.ordinary(dst@),
            !crate::fold::tables::pair_listed(
                self.ctx.answers.arg_copies@,
                dst@.display(),
                src@.display(),
            ),
            !crate::text::has_prefix(dst@.name, "ram:"@),
            !self.looked_behind(self.expr_of(src@)),
            self.var_hint(dst@) matches Some(ty) ==> !needs_cast(ty, self.var_hint(src@)),
        ensures
            gives(
                self.stmt_of(SSAOp::Copy { dst, src }),
                self.target_for(dst@),
                env,
                eval(self.expr_of(src@), env),
                8,
            ),
    {
        let x = eval(self.expr_of(src@), env);
        lemma_same_word_is_same_rest(x, x, 8);
        let e = self.predicate_rhs(src@, self.copied(src@));
        let shown = if !self.pointer_var(src@) && !self.pointer_var(dst@) {
            self.collapsed(e)
        } else {
            e
        };
        assert(eval(shown, env) == x) by {
            reveal(Reading::faithful);
        }
        assert(self.typed_rhs(dst@, Some(src@), shown) == shown);
        self.lemma_assign(dst@, shown, env, x, 8);
    }
}

/// An operator on two literals gives the word that it gives on the numbers that they are
/// words of.
pub proof fn folded_literals_are_the_same_word(op: BinaryOp, x: int, y: int, a: i64, b: i64)
    requires
        same_word(x, a as int, 8),
        same_word(y, b as int, 8),
        crate::fold::literal::literal_binary(op, a, b) is Some,
        op != BinaryOp::Shl && op != BinaryOp::Shr,
    ensures
        same_word(
            binary_value(op, x, y),
            crate::fold::literal::literal_binary(op, a, b)->0 as int,
            8,
        ),
{
    lemma_sums_of_words(x, a as int, y, b as int, 8);
    match op {
        BinaryOp::BitAnd | BinaryOp::BitOr | BinaryOp::BitXor => {
            lemma_same_word_is_same_rest(x, a as int, 8);
            lemma_same_word_is_same_rest(y, b as int, 8);
            let u = a as u64;
            let v = b as u64;
            lemma_i64_word(a);
            lemma_i64_word(b);
            lemma_i64_word(a & b);
            lemma_i64_word(a | b);
            lemma_i64_word(a ^ b);
            assert((a & b) as u64 == (a as u64) & (b as u64)) by (bit_vector);
            assert((a | b) as u64 == (a as u64) | (b as u64)) by (bit_vector);
            assert((a ^ b) as u64 == (a as u64) ^ (b as u64)) by (bit_vector);
            lemma_same_word_is_same_rest((u & v) as int, (a & b) as int, 8);
            lemma_same_word_is_same_rest((u | v) as int, (a | b) as int, 8);
            lemma_same_word_is_same_rest((u ^ v) as int, (a ^ b) as int, 8);
        },
        _ => {},
    }
}

proof fn lemma_i64_word(a: i64)
    ensures
        word(a as int) == a as u64,
        a as int % span(8) == (a as u64) as int % span(8),
        0 <= (a as u64) as int % span(8) == a as u64,
{
    lemma_small_mod((a as u64) as nat, span(8) as nat);
    if a >= 0 {
        assert(a as u64 == a);
    } else {
        lemma_fundamental_div_mod_converse(a as int, span(8), -1, a + span(8));
        assert(a < 0i64 ==> (a as u64) == 0x1_0000_0000_0000_0000 + a) by (bit_vector);
    }
}

/// Integer types call for a cast exactly where they differ in signedness or width; a type
/// that is not known calls for none.
pub proof fn casts_are_written_where_types_differ(bits: u32, other: u32, signed: bool, also: bool)
    ensures
        ({
            let target = if signed {
                Type::Int(bits)
            } else {
                Type::UInt(bits)
            };
            let source = if also {
                Type::Int(other)
            } else {
                Type::UInt(other)
            };
            &&& needs_cast(target, Some(source)) <==> bits != other || signed != also
            &&& !needs_cast(target, None)
        }),
{
}

/// A cast that is written gives the number that the type holds; one that is left out leaves
/// it.
pub proof fn casts_convert(e: Expr, target: Type, source: Option<Type>, env: spec_fn(Expr) -> int)
    requires
        target matches Type::UInt(bits) ==> bits > 0,
        target matches Type::Int(bits) ==> bits > 0,
    ensures
        needs_cast(target, source) ==> eval(cast_to(e, target, source), env) == converted(
            target,
            eval(e, env),
        ),
        !needs_cast(target, source) ==> cast_to(e, target, source) == e,
{
    lemma_converted(target, eval(e, env));
    if let Expr::Cast { ty, expr } = e {
        lemma_converted(target, eval(*expr, env));
        if ty == target {
            assert(eval(e, env) == converted(target, eval(*expr, env)));
        }
    }
}

proof fn lemma_halves_join(x: int, y: int, n: u32)
    requires
        0 < n <= 8,
        0 <= y < span(n),
        0 <= x * span(n),
        x * span(n) + y < span(8),
    ensures
        (word(x * span(n)) | word(y)) == x * span(n) + y,
{
    let h = x * span(n);
    lemma_small_mod(h as nat, span(8) as nat);
    lemma_small_mod(y as nat, span(8) as nat);
    lemma_small_mod(y as nat, span(n) as nat);
    lemma_mod_multiples_basic(x, span(n));
    let u = word(h);
    let v = word(y);
    let m = (span(n) - 1) as u64;
    cuts_are_masks(u, n);
    cuts_are_masks(v, n);
    assert(u & m == 0 && v & m == v ==> (u | v) == u + v) by (bit_vector);
}

impl Reading {
    proof fn lemma_pieced(&self, dst: Var, hi: Var, lo: Var, env: spec_fn(Expr) -> int)
        requires
            0 < lo.size,
            hi.size + lo.size <= dst.size <= 8,
            0 <= eval(self.expr_of(hi), env) < span(hi.size),
            0 <= eval(self.expr_of(lo), env) < span(lo.size),
        ensures
            eval(self.pieced(dst, hi, lo), env) == eval(self.expr_of(hi), env) * span(lo.size) + eval(
                self.expr_of(lo),
                env,
            ),
    {
        let x = eval(self.expr_of(hi), env);
        let y = eval(self.expr_of(lo), env);
        let p = span(lo.size);
        let ty = unsigned_type(dst.size);
        lemma_span_is_power(lo.size);
        crate::conc::word::lemma_span_divides(dst.size, hi.size);
        crate::conc::word::lemma_span_divides(dst.size, lo.size);
        crate::conc::word::lemma_span_divides(8, (hi.size + lo.size) as u32);
        assert(span((hi.size + lo.size) as u32) == span(hi.size) * p);
        assert(0 <= x * p && x * p + y < span(hi.size) * p) by (nonlinear_arith)
            requires
                0 <= x < span(hi.size),
                0 <= y < p,
        ;
        lemma_converted_is_word(x, dst.size);
        lemma_converted_is_word(y, dst.size);
        lemma_small_mod(x as nat, span(dst.size) as nat);
        lemma_small_mod(y as nat, span(dst.size) as nat);
        let high = cast(ty, self.expr_of(hi));
        let low_half = cast(ty, self.expr_of(lo));
        assert(eval(high, env) == x);
        assert(eval(low_half, env) == y);
        let bits = size_bits(lo.size);
        assert(bits == 8 * lo.size);
        let by = Expr::IntLit(bits as i64);
        assert(eval(by, env) == 8 * lo.size);
        let up = crate::ast::expr::binary(BinaryOp::Shl, high, by);
        assert(eval(up, env) == x * p);
        lemma_halves_join(x, y, lo.size);
    }

    /// A variable put together from halves lowers to an assignment of the first half above the
    /// second.
    pub proof fn halves_are_put_together(
        &self,
        dst: SSAVar,
        hi: SSAVar,
        lo: SSAVar,
        env: spec_fn(Expr) -> int,
    )
        requires
            self.faithful(env),
            self.ordinary(dst@),
            0 < lo.size,
            hi.size + lo.size <= dst.size <= 8,
            0 <= eval(self.expr_of(hi@), env) < span(hi.size),
            0 <= eval(self.expr_of(lo@), env) < span(lo.size),
        ensures
            gives(
                self.stmt_of(SSAOp::Piece { dst, hi, lo }),
                self.target_for(dst@),
                env,
                eval(self.expr_of(hi@), env) * span(lo.size) + eval(self.expr_of(lo@), env),
                8,
            ),
    {
        self.lemma_pieced(dst@, hi@, lo@, env);
        let v = eval(self.pieced(dst@, hi@, lo@), env);
        lemma_same_word_is_same_rest(v, v, 8);
        self.lemma_assign(dst@, self.pieced(dst@, hi@, lo@), env, v, 8);
    }

    /// A store lowers to an assignment of the stored variable's number to what lies at the
    /// address, where the variable holds no call's result that the target takes.
    pub proof fn stores_store(&self, space: String, addr: SSAVar, val: SSAVar, env: spec_fn(Expr) -> int)
        requires
            self.faithful(env),
            !crate::fold::tables::pair_listed(
                self.ctx.answers.arg_stores@,
                addr@.display(),
                val@.display(),
            ),
            self.ordinary_side(self.target_of(addr@, val.size, self.access_type(val@))),
            self.taken_call(
                self.target_of(addr@, val.size, self.access_type(val@)),
                val@,
            ) is None,
            !(self.var_hint(val@) matches Some(Type::Pointer(_))),
        ensures
            gives(
                self.stmt_of(SSAOp::Store { space, addr, val }),
                rewritten(
                    self.ctx.answers.stack_rewrites@,
                    self.target_of(addr@, val.size, self.access_type(val@)),
                ),
                env,
                eval(self.expr_of(val@), env),
                8,
            ),
    {
        let lhs = self.target_of(addr@, val.size, self.access_type(val@));
        let x = eval(self.expr_of(val@), env);
        lemma_same_word_is_same_rest(x, x, 8);
        assert(self.stored_value(lhs, val@) == self.expr_of(val@));
        self.lemma_assign_to(lhs, self.expr_of(val@), env, x, 8);
    }

    /// A load lowers to an assignment of what lies at the address, where the destination takes
    /// no call's result.
    pub proof fn loads_load(&self, dst: SSAVar, space: String, addr: SSAVar, env: spec_fn(Expr) -> int)
        requires
            self.faithful(env),
            self.ordinary(dst@),
            self.taken_call(self.lhs(dst@), dst@) is None,
        ensures
            gives(
                self.stmt_of(SSAOp::Load { dst, space, addr }),
                self.target_for(dst@),
                env,
                eval(self.load_of(dst@, addr@, self.access_type(dst@)), env),
                8,
            ),
    {
        let e = self.load_of(dst@, addr@, self.access_type(dst@));
        let x = eval(e, env);
        lemma_same_word_is_same_rest(x, x, 8);
        self.lemma_assign(dst@, e, env, x, 8);
    }

    /// What lies at an address that has no shape of its own is written as a dereference of that
    /// very address.
    pub proof fn a_dereference_keeps_its_address(
        &self,
        addr: Var,
        e: Expr,
        ty: Type,
        env: spec_fn(Expr) -> int,
    )
        requires
            self.address(e, 0) is None,
        ensures
            self.typed_load(addr, e, ty) matches Expr::Deref(at) && eval(*at, env) == eval(e, env),
    {
        let target = Type::Pointer(Box::new(ty));
        assert(eval(cast(target, e), env) == eval(e, env));
        assert(eval(self.as_pointer(addr, e, target), env) == eval(e, env));
    }
}

impl Reading {
    /// The value of an operation is the right side of the assignment that it lowers to; that of
    /// a copy is its source.
    pub proof fn the_value_is_what_is_assigned(&self, op: SSAOp, left: Box<Expr>, right: Box<Expr>)
        requires
            !(op is Copy),
            self.stmt_of(op) == Some(
                Stmt::Expr(Expr::Binary { op: BinaryOp::Assign, left, right }),
            ),
        ensures
            self.value_of(op) == *right,
    {
    }

    /// The value of a copy is its source.
    pub proof fn the_value_of_a_copy_is_its_source(&self, dst: SSAVar, src: SSAVar)
        ensures
            self.value_of(SSAOp::Copy { dst, src }) == self.expr_of(src@),
    {
    }
}

} // verus!
