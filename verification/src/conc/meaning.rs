//! What each operation computes, told by the bytes and bits that it leaves behind.

use crate::conc::laws::read_gives_back_the_write;
use crate::conc::slab::{
    binary_outcome, finish, le_bytes, le_value, step_outcome, unary_outcome, BinaryAlu, ConcError,
    Control, Slabs, UnaryAlu,
};
use crate::conc::word::{abs, low, low_of_low, ones, signed, span, truncated_div, truncated_rem};
use crate::il::op::R2ILOp;
use crate::il::space::SpaceId;
use crate::il::varnode::Varnode;
use vstd::arithmetic::div_mod::{
    lemma_div_denominator, lemma_fundamental_div_mod, lemma_fundamental_div_mod_converse,
    lemma_mod_bound, lemma_mod_breakdown, lemma_small_mod,
};
use vstd::arithmetic::power2::{lemma2_to64, lemma2_to64_rest, lemma_pow2_adds, lemma_pow2_pos, lemma_pow2_unfold, pow2};
use vstd::prelude::*;
use vstd::std_specs::bits::u64_leading_zeros;

verus! {

/// Is the binary digit of a number at place `i` one?
pub open spec fn bit(v: int, i: nat) -> bool {
    (v / pow2(i) as int) % 2 == 1
}

/// The byte of a number at place `k`, the least significant at place zero.
pub open spec fn byte(v: int, k: nat) -> int {
    (v / pow2(8 * k) as int) % 256
}

/// Did an operation run, and does `dst` hold a number behind it?
pub open spec fn leaves(s: Slabs, op: R2ILOp, dst: Varnode, r: int) -> bool {
    step_outcome(s, op).0 == Ok::<Control, ConcError>(Control::Next) && step_outcome(s, op).1.load(dst)
        == Ok::<u64, ConcError>(r as u64) && 0 <= r <= u64::MAX
}

/// Does a varnode hold a number?
pub open spec fn holds(s: Slabs, vn: Varnode, v: int) -> bool {
    s.load(vn) == Ok::<u64, ConcError>(v as u64) && 0 <= v <= u64::MAX
}

/// A word of `n` bytes holds `8 * n` binary digits.
pub proof fn words_have_eight_bits_a_byte(n: u32)
    requires
        n <= 8,
    ensures
        span(n) == pow2((8 * n) as nat),
{
    lemma2_to64();
    lemma2_to64_rest();
}

/// Reading a word as a signed number changes it by whole spans only, and brings it into
/// the signed range.
pub proof fn signed_words_are_congruent(v: int, n: u32)
    requires
        0 < n <= 8,
    ensures
        (signed(v, n) - v) % span(n) == 0,
        -span(n) <= 2 * signed(v, n) < span(n),
{
    let p = span(n);
    lemma_fundamental_div_mod(v, p);
    lemma_mod_bound(v, p);
    let q = v / p;
    let m = v % p;
    assert(m - v == -q * p) by (nonlinear_arith)
        requires
            v == p * q + m,
    ;
    assert((-q) * p % p == 0) by {
        vstd::arithmetic::div_mod::lemma_mod_multiples_basic(-q, p);
    }
    assert((-q - 1) * p % p == 0) by {
        vstd::arithmetic::div_mod::lemma_mod_multiples_basic(-q - 1, p);
    }
    assert((-q - 1) * p == -q * p - p) by (nonlinear_arith);
}

proof fn lemma_le_value_bound(bytes: Seq<u8>)
    requires
        bytes.len() <= 8,
    ensures
        0 <= le_value(bytes) < span(bytes.len() as u32),
    decreases bytes.len(),
{
    if bytes.len() > 0 {
        lemma_le_value_bound(bytes.drop_first());
    }
}

/// What is read fits the bytes that it is read from.
pub proof fn words_fit_their_size(s: Slabs, vn: Varnode, v: int)
    requires
        holds(s, vn, v),
    ensures
        vn.size <= 8,
        0 <= v < span(vn.size),
{
    if vn.space == SpaceId::Const {
        lemma_mod_bound(vn.offset as int, span(vn.size));
    } else {
        let bytes = s.locate(vn)->Ok_0;
        lemma_le_value_bound(bytes.subrange(vn.offset as int, vn.offset + vn.size));
    }
}

proof fn lemma_le_value_byte(bytes: Seq<u8>, k: nat)
    requires
        k < bytes.len() <= 8,
    ensures
        byte(le_value(bytes), k) == bytes[k as int],
    decreases k,
{
    let rest = bytes.drop_first();
    let v = le_value(bytes);
    let w = le_value(rest);
    lemma_le_value_bound(rest);
    lemma2_to64();
    if k > 0 {
        lemma_le_value_byte(rest, (k - 1) as nat);
        lemma_pow2_adds(8, (8 * (k - 1)) as nat);
        lemma_pow2_pos((8 * (k - 1)) as nat);
        assert(v / 256 == w);
        lemma_div_denominator(v, 256, pow2((8 * (k - 1)) as nat) as int);
        assert((8 + 8 * (k - 1)) as nat == 8 * k);
        assert(pow2(8 * k) == 256 * pow2((8 * (k - 1)) as nat));
        assert(v / pow2(8 * k) as int == w / pow2((8 * (k - 1)) as nat) as int);
        assert(rest[k - 1] == bytes[k as int]);
    } else {
        assert(pow2(8 * k) == 1);
        assert(v / 1 == v);
    }
}

/// Words lie in memory with their least significant byte first.
pub proof fn reads_are_little_endian(s: Slabs, vn: Varnode, v: int, k: nat)
    requires
        vn.space != SpaceId::Const,
        holds(s, vn, v),
        k < vn.size,
    ensures
        byte(v, k) == s.slab(vn.space)->Ok_0[vn.offset + k],
{
    let bytes = s.locate(vn)->Ok_0;
    let window = bytes.subrange(vn.offset as int, vn.offset + vn.size);
    lemma_le_value_bound(window);
    lemma_le_value_byte(window, k);
}

proof fn lemma_le_bytes_byte(v: int, n: nat, k: nat)
    requires
        k < n <= 8,
        0 <= v,
    ensures
        le_bytes(v, n).len() == n,
        le_bytes(v, n)[k as int] == byte(v, k),
    decreases n,
{
    lemma2_to64();
    let rest = le_bytes(v / 256, (n - 1) as nat);
    lemma_le_bytes_len(v / 256, (n - 1) as nat);
    if k > 0 {
        lemma_le_bytes_byte(v / 256, (n - 1) as nat, (k - 1) as nat);
        lemma_pow2_adds(8, (8 * (k - 1)) as nat);
        lemma_pow2_pos((8 * (k - 1)) as nat);
        lemma_div_denominator(v, 256, pow2((8 * (k - 1)) as nat) as int);
        assert((8 + 8 * (k - 1)) as nat == 8 * k);
        assert(pow2(8 * k) == 256 * pow2((8 * (k - 1)) as nat));
        assert(v / pow2(8 * k) as int == (v / 256) / pow2((8 * (k - 1)) as nat) as int);
        assert(le_bytes(v, n)[k as int] == rest[k - 1]);
    } else {
        assert(pow2(8 * k) == 1);
        assert(v / 1 == v);
    }
}

proof fn lemma_le_bytes_len(v: int, n: nat)
    ensures
        le_bytes(v, n).len() == n,
    decreases n,
{
    if n > 0 {
        lemma_le_bytes_len(v / 256, (n - 1) as nat);
    }
}

/// A write puts each byte of a number in its place, the least significant first.
pub proof fn writes_are_little_endian(s: Slabs, vn: Varnode, v: u64, k: nat)
    requires
        s.store(vn, v) is Ok,
        k < vn.size,
    ensures
        s.store(vn, v)->Ok_0.slab(vn.space) is Ok,
        s.store(vn, v)->Ok_0.slab(vn.space)->Ok_0[vn.offset + k] == byte(v as int, k),
{
    lemma_le_bytes_byte(v as int, vn.size as nat, k);
}

/// A place can be written exactly where it can be read, but for constants.
pub proof fn places_are_written_where_they_are_read(s: Slabs, vn: Varnode, v: u64)
    requires
        vn.space != SpaceId::Const,
    ensures
        s.store(vn, v) is Ok <==> s.load(vn) is Ok,
        s.store(vn, v) is Err ==> s.store(vn, v)->Err_0 == s.load(vn)->Err_0,
{
}

/// A place can be read where its slab is there and reaches as far, and where it is at
/// most eight bytes wide.
pub proof fn places_within_their_slab_are_read(s: Slabs, vn: Varnode, bytes: Seq<u8>)
    requires
        vn.space == SpaceId::Register ==> bytes == s.register,
        vn.space == SpaceId::Ram ==> bytes == s.ram,
        vn.space == SpaceId::Unique ==> bytes == s.unique,
        vn.space matches SpaceId::Custom(id) ==> s.custom.dom().contains(id) && bytes == s.custom[id],
        vn.space != SpaceId::Const && vn.space != SpaceId::Unresolved,
    ensures
        s.load(vn) is Ok <==> vn.size <= 8 && vn.offset + vn.size <= bytes.len(),
        vn.size > 8 ==> s.load(vn) == Err::<u64, ConcError>(ConcError::WidthTooWide(vn.size)),
        vn.size <= 8 && vn.offset + vn.size > bytes.len() ==> s.load(vn) == Err::<u64, ConcError>(
            ConcError::OutOfBounds {
                space: vn.space,
                offset: vn.offset,
                size: vn.size,
                len: bytes.len() as usize,
            },
        ),
        s.slab(vn.space) == Ok::<Seq<u8>, ConcError>(bytes),
{
}

/// What a step that finishes with a number leaves in its destination.
proof fn lemma_finish_leaves(s: Slabs, dst: Varnode, v: int)
    requires
        finish(s, dst, v).0 is Ok,
    ensures
        finish(s, dst, v).1.load(dst) == Ok::<u64, ConcError>(low(v, dst.size)),
        dst.size <= 8,
        0 <= v % span(dst.size) <= u64::MAX,
{
    read_gives_back_the_write(s, dst, low(v, dst.size));
    lemma_mod_bound(v, span(dst.size));
    low_of_low(v, dst.size, dst.size);
}

/// The number that an operation on two operands computes, cut to its destination.
proof fn lemma_binary_leaves(
    s: Slabs,
    op: R2ILOp,
    alu: BinaryAlu,
    dst: Varnode,
    a: Varnode,
    b: Varnode,
    x: int,
    y: int,
    r: int,
)
    requires
        step_outcome(s, op) == binary_outcome(s, alu, dst, a, b),
        holds(s, a, x),
        holds(s, b, y),
        leaves(s, op, dst, r),
    ensures
        r == alu.value(x as u64, y as u64, a.size, b.size) % span(dst.size),
        0 <= x < span(a.size),
        0 <= y < span(b.size),
        0 <= r < span(dst.size),
        a.size <= 8,
        b.size <= 8,
        dst.size <= 8,
        (alu == BinaryAlu::Div || alu == BinaryAlu::Rem) ==> y != 0,
        (alu == BinaryAlu::SDiv || alu == BinaryAlu::SRem) ==> signed(y, b.size) != 0,
{
    words_fit_their_size(s, a, x);
    words_fit_their_size(s, b, y);
    let v = alu.value(x as u64, y as u64, a.size, b.size);
    lemma_finish_leaves(s, dst, v);
    lemma_mod_bound(v, span(dst.size));
}

proof fn lemma_unary_leaves(
    s: Slabs,
    op: R2ILOp,
    alu: UnaryAlu,
    dst: Varnode,
    src: Varnode,
    x: int,
    r: int,
)
    requires
        step_outcome(s, op) == unary_outcome(s, alu, dst, src),
        holds(s, src, x),
        leaves(s, op, dst, r),
    ensures
        r == alu.value(x as u64, src.size) % span(dst.size),
        0 <= x < span(src.size),
        0 <= r < span(dst.size),
        src.size <= 8,
        dst.size <= 8,
{
    words_fit_their_size(s, src, x);
    let v = alu.value(x as u64, src.size);
    lemma_finish_leaves(s, dst, v);
    lemma_mod_bound(v, span(dst.size));
}

proof fn lemma_same_word(u: int, v: int, p: int)
    requires
        p > 0,
        u == v % p,
    ensures
        (u - v) % p == 0,
{
    lemma_fundamental_div_mod(v, p);
    let q = v / p;
    assert(u - v == (-q) * p) by (nonlinear_arith)
        requires
            v == p * q + u,
    ;
    vstd::arithmetic::div_mod::lemma_mod_multiples_basic(-q, p);
}

proof fn lemma_cut_twice(v: int, p: int)
    requires
        p > 0,
    ensures
        (v % p) % p == v % p,
{
    lemma_mod_bound(v, p);
    lemma_small_mod((v % p) as nat, p as nat);
}

/// Addition, subtraction and multiplication of words of one size: the word left behind
/// differs from the sum, the difference or the product by whole spans only.
pub proof fn arithmetic_wraps(s: Slabs, dst: Varnode, a: Varnode, b: Varnode, x: int, y: int, r: int)
    requires
        holds(s, a, x),
        holds(s, b, y),
        dst.size == a.size,
    ensures
        leaves(s, R2ILOp::IntAdd { dst, a, b }, dst, r) ==> (r - (x + y)) % span(dst.size) == 0 && 0 <= r
            < span(dst.size),
        leaves(s, R2ILOp::IntSub { dst, a, b }, dst, r) ==> (r - (x - y)) % span(dst.size) == 0 && 0 <= r
            < span(dst.size),
        leaves(s, R2ILOp::IntMult { dst, a, b }, dst, r) ==> (r - x * y) % span(dst.size) == 0 && 0 <= r
            < span(dst.size),
{
    let p = span(dst.size);
    if leaves(s, R2ILOp::IntAdd { dst, a, b }, dst, r) {
        lemma_binary_leaves(s, R2ILOp::IntAdd { dst, a, b }, BinaryAlu::Add, dst, a, b, x, y, r);
        lemma_mod_bound(x + y, p);
        lemma_cut_twice(x + y, p);
        lemma_same_word(r, x + y, p);
    }
    if leaves(s, R2ILOp::IntSub { dst, a, b }, dst, r) {
        lemma_binary_leaves(s, R2ILOp::IntSub { dst, a, b }, BinaryAlu::Sub, dst, a, b, x, y, r);
        lemma_mod_bound(x - y, p);
        lemma_cut_twice(x - y, p);
        lemma_same_word(r, x - y, p);
    }
    if leaves(s, R2ILOp::IntMult { dst, a, b }, dst, r) {
        lemma_binary_leaves(s, R2ILOp::IntMult { dst, a, b }, BinaryAlu::Mult, dst, a, b, x, y, r);
        lemma_mod_bound(x * y, p);
        lemma_cut_twice(x * y, p);
        lemma_same_word(r, x * y, p);
    }
}

/// Division of words of one size: the quotient is how often the divisor goes into the
/// dividend, and the remainder is what is left.
pub proof fn unsigned_division_shares_out(
    s: Slabs,
    dst: Varnode,
    a: Varnode,
    b: Varnode,
    x: int,
    y: int,
    r: int,
)
    requires
        holds(s, a, x),
        holds(s, b, y),
        dst.size == a.size,
        b.size <= a.size,
    ensures
        leaves(s, R2ILOp::IntDiv { dst, a, b }, dst, r) ==> y > 0 && r * y <= x < (r + 1) * y,
        leaves(s, R2ILOp::IntRem { dst, a, b }, dst, r) ==> y > 0 && 0 <= r < y && (x - r) % y == 0,
{
    if leaves(s, R2ILOp::IntDiv { dst, a, b }, dst, r) {
        lemma_binary_leaves(s, R2ILOp::IntDiv { dst, a, b }, BinaryAlu::Div, dst, a, b, x, y, r);
        lemma_fundamental_div_mod(x, y);
        lemma_mod_bound(x, y);
        let q = x / y;
        assert(0 <= q <= x) by (nonlinear_arith)
            requires
                x == y * q + x % y,
                0 <= x % y < y,
                x >= 0,
                y > 0,
        ;
        lemma_small_mod(q as nat, span(dst.size) as nat);
        assert(q * y <= x < (q + 1) * y) by (nonlinear_arith)
            requires
                x == y * q + x % y,
                0 <= x % y < y,
        ;
    }
    if leaves(s, R2ILOp::IntRem { dst, a, b }, dst, r) {
        lemma_binary_leaves(s, R2ILOp::IntRem { dst, a, b }, BinaryAlu::Rem, dst, a, b, x, y, r);
        lemma_mod_bound(x, y);
        lemma_small_mod((x % y) as nat, span(dst.size) as nat);
        lemma_same_word(r, x, y);
        let d = r - x;
        assert((-d) % y == 0) by {
            lemma_fundamental_div_mod(d, y);
            let q = d / y;
            assert(-d == (-q) * y) by (nonlinear_arith)
                requires
                    d == y * q,
            ;
            vstd::arithmetic::div_mod::lemma_mod_multiples_basic(-q, y);
        }
    }
}

/// Signed division of words of one size rounds toward zero: the word left behind is that
/// of a quotient whose product with the divisor lies between zero and the dividend, less
/// than a divisor away from it. The remainder is what is missing.
pub proof fn signed_division_shares_out(
    s: Slabs,
    dst: Varnode,
    a: Varnode,
    b: Varnode,
    x: int,
    y: int,
    r: int,
)
    requires
        holds(s, a, x),
        holds(s, b, y),
        dst.size == a.size,
        a.size > 0,
        b.size > 0,
    ensures
        leaves(s, R2ILOp::IntSDiv { dst, a, b }, dst, r) ==> exists|q: int, m: int|
            #![trigger q * signed(y, b.size) + m]
            (r - q) % span(dst.size) == 0 && signed(x, a.size) == q * signed(y, b.size) + m && abs(m)
                < abs(signed(y, b.size)) && (m != 0 ==> (m < 0) == (signed(x, a.size) < 0)),
        leaves(s, R2ILOp::IntSRem { dst, a, b }, dst, r) ==> exists|q: int, m: int|
            #![trigger q * signed(y, b.size) + m]
            (r - m) % span(dst.size) == 0 && signed(x, a.size) == q * signed(y, b.size) + m && abs(m)
                < abs(signed(y, b.size)) && (m != 0 ==> (m < 0) == (signed(x, a.size) < 0)),
{
    let sx = signed(x, a.size);
    let sy = signed(y, b.size);
    let p = span(dst.size);
    if leaves(s, R2ILOp::IntSDiv { dst, a, b }, dst, r) {
        lemma_binary_leaves(s, R2ILOp::IntSDiv { dst, a, b }, BinaryAlu::SDiv, dst, a, b, x, y, r);
        crate::conc::laws::signed_division_truncates(sx, sy);
        lemma_same_word(r, truncated_div(sx, sy), p);
        assert(sx == truncated_div(sx, sy) * sy + truncated_rem(sx, sy));
    }
    if leaves(s, R2ILOp::IntSRem { dst, a, b }, dst, r) {
        lemma_binary_leaves(s, R2ILOp::IntSRem { dst, a, b }, BinaryAlu::SRem, dst, a, b, x, y, r);
        crate::conc::laws::signed_division_truncates(sx, sy);
        lemma_same_word(r, truncated_rem(sx, sy), p);
        assert(sx == truncated_div(sx, sy) * sy + truncated_rem(sx, sy));
    }
}

/// Division refuses a divisor of zero, and no other operation does.
pub proof fn only_division_refuses_zero(s: Slabs, dst: Varnode, a: Varnode, b: Varnode, x: int, y: int)
    requires
        holds(s, a, x),
        holds(s, b, y),
    ensures
        y == 0 <==> step_outcome(s, R2ILOp::IntDiv { dst, a, b }).0 == Err::<Control, ConcError>(
            ConcError::DivByZero,
        ),
        y == 0 <==> step_outcome(s, R2ILOp::IntRem { dst, a, b }).0 == Err::<Control, ConcError>(
            ConcError::DivByZero,
        ),
        y == 0 <==> step_outcome(s, R2ILOp::IntSDiv { dst, a, b }).0 == Err::<Control, ConcError>(
            ConcError::DivByZero,
        ),
        y == 0 <==> step_outcome(s, R2ILOp::IntSRem { dst, a, b }).0 == Err::<Control, ConcError>(
            ConcError::DivByZero,
        ),
{
    words_fit_their_size(s, b, y);
    lemma_small_mod(y as nat, span(b.size) as nat);
}

proof fn lemma_bit_of_shift(x: u64, i: u64)
    requires
        i < 64,
    ensures
        bit(x as int, i as nat) <==> (x >> i) & 1 == 1,
{
    vstd::bits::lemma_u64_shr_is_div(x, i);
    let z: u64 = x >> i;
    assert(z & 1 == z % 2) by (bit_vector);
}

proof fn lemma_bit_of_cut(v: int, n: nat, i: nat)
    requires
        i < n,
        v >= 0,
    ensures
        bit(v % pow2(n) as int, i) == bit(v, i),
{
    lemma_pow2_adds(i, (n - i) as nat);
    lemma_pow2_pos(i);
    lemma_pow2_pos((n - i) as nat);
    lemma_pow2_unfold((n - i) as nat);
    let p = pow2(i) as int;
    let q = pow2((n - i) as nat) as int;
    lemma_mod_breakdown(v, p, q);
    let c = v % (p * q);
    lemma_mod_bound(v, p);
    assert(c == p * ((v / p) % q) + v % p);
    lemma_fundamental_div_mod_converse(c, p, (v / p) % q, v % p);
    let half = pow2((n - i - 1) as nat) as int;
    lemma_pow2_pos((n - i - 1) as nat);
    lemma_mod_breakdown(v / p, 2, half);
    let d = (v / p) % q;
    assert(q == 2 * half);
    assert(d == 2 * (((v / p) / 2) % half) + (v / p) % 2);
    assert(d % 2 == (v / p) % 2) by {
        lemma_fundamental_div_mod_converse(d, 2, ((v / p) / 2) % half, (v / p) % 2);
    }
}

/// The bits that operations on bits leave behind: of conjunction those that both
/// operands have, of disjunction those that one of them has, of exclusive disjunction
/// those that exactly one has, of negation those that the operand lacks.
pub proof fn bitwise_operations_go_by_bits(
    s: Slabs,
    dst: Varnode,
    a: Varnode,
    b: Varnode,
    x: int,
    y: int,
    r: int,
    i: nat,
)
    requires
        holds(s, a, x),
        holds(s, b, y),
        i < 8 * dst.size,
        dst.size <= a.size,
    ensures
        leaves(s, R2ILOp::IntAnd { dst, a, b }, dst, r) ==> (bit(r, i) <==> bit(x, i) && bit(y, i)),
        leaves(s, R2ILOp::IntOr { dst, a, b }, dst, r) ==> (bit(r, i) <==> bit(x, i) || bit(y, i)),
        leaves(s, R2ILOp::IntXor { dst, a, b }, dst, r) ==> (bit(r, i) <==> bit(x, i) != bit(y, i)),
        leaves(s, R2ILOp::IntNot { dst, src: a }, dst, r) ==> (bit(r, i) <==> !bit(x, i)),
{
    let u = x as u64;
    let v = y as u64;
    let n = (8 * dst.size) as nat;
    if dst.size <= 8 {
        let j = i as u64;
        words_have_eight_bits_a_byte(dst.size);
        lemma_bit_of_shift(u, j);
        lemma_bit_of_shift(v, j);
        lemma_bit_of_shift(u & v, j);
        lemma_bit_of_shift(u | v, j);
        lemma_bit_of_shift(u ^ v, j);
        lemma_bit_of_shift(!u, j);
        assert(((u & v) >> j) & 1 == 1 <==> ((u >> j) & 1 == 1 && (v >> j) & 1 == 1)) by (bit_vector);
        assert(((u | v) >> j) & 1 == 1 <==> ((u >> j) & 1 == 1 || (v >> j) & 1 == 1)) by (bit_vector);
        assert(((u ^ v) >> j) & 1 == 1 <==> ((u >> j) & 1 == 1) != ((v >> j) & 1 == 1)) by (bit_vector);
        assert(j < 64 ==> (((!u) >> j) & 1 == 1 <==> !((u >> j) & 1 == 1))) by (bit_vector);
        assert(!u == 0xffff_ffff_ffff_ffff - u) by (bit_vector);
        lemma_bit_of_cut((u & v) as int, n, i);
        lemma_bit_of_cut((u | v) as int, n, i);
        lemma_bit_of_cut((u ^ v) as int, n, i);
        lemma_bit_of_cut((!u) as int, n, i);
    }
    if leaves(s, R2ILOp::IntAnd { dst, a, b }, dst, r) {
        lemma_binary_leaves(s, R2ILOp::IntAnd { dst, a, b }, BinaryAlu::And, dst, a, b, x, y, r);
    }
    if leaves(s, R2ILOp::IntOr { dst, a, b }, dst, r) {
        lemma_binary_leaves(s, R2ILOp::IntOr { dst, a, b }, BinaryAlu::Or, dst, a, b, x, y, r);
    }
    if leaves(s, R2ILOp::IntXor { dst, a, b }, dst, r) {
        lemma_binary_leaves(s, R2ILOp::IntXor { dst, a, b }, BinaryAlu::Xor, dst, a, b, x, y, r);
    }
    if leaves(s, R2ILOp::IntNot { dst, src: a }, dst, r) {
        lemma_unary_leaves(s, R2ILOp::IntNot { dst, src: a }, UnaryAlu::Not, dst, a, x, r);
        low_of_low(-1 - x, a.size, dst.size);
        let p = span(dst.size);
        lemma_mod_bound(-1 - x, span(a.size));
        assert(r == (-1 - x) % p);
        // The complement within eight bytes is the same word.
        lemma_same_word(r, -1 - x, p);
        low_of_low(-1 - x, 8, dst.size);
        assert(0xffff_ffff_ffff_ffff - x == (-1 - x) % span(8)) by {
            lemma_fundamental_div_mod_converse(-1 - x, span(8), -1, 0xffff_ffff_ffff_ffff - x);
        }
    }
}

/// Exclusive disjunction of a number with itself leaves nothing, and a second one with
/// the same operand gives the first operand back.
pub proof fn exclusive_disjunction_undoes_itself(
    s: Slabs,
    dst: Varnode,
    a: Varnode,
    b: Varnode,
    x: int,
    y: int,
    r: int,
)
    requires
        holds(s, a, x),
        holds(s, b, y),
        dst.size == a.size,
        leaves(s, R2ILOp::IntXor { dst, a, b }, dst, r),
    ensures
        x == y ==> r == 0,
        b.size <= a.size ==> ((r as u64) ^ (y as u64)) == x as u64,
{
    lemma_binary_leaves(s, R2ILOp::IntXor { dst, a, b }, BinaryAlu::Xor, dst, a, b, x, y, r);
    let u = x as u64;
    let v = y as u64;
    assert(u ^ u == 0) by (bit_vector);
    assert((u ^ v) ^ v == u) by (bit_vector);
    if b.size <= a.size {
        crate::conc::word::lemma_span_divides(a.size, b.size);
        words_have_eight_bits_a_byte(a.size);
        lemma_xor_fits(u, v, a.size);
        lemma_small_mod((u ^ v) as nat, span(a.size) as nat);
    }
}

/// Cutting a word to some bytes is masking their bits.
pub proof fn cuts_are_masks(u: u64, n: u32)
    requires
        n <= 8,
    ensures
        u as int % span(n) == (u & ((span(n) - 1) as u64)) as int,
{
    if n < 8 {
        words_have_eight_bits_a_byte(n);
        vstd::bits::lemma_low_bits_mask_values();
        vstd::bits::lemma_u64_low_bits_mask_is_mod(u, (8 * n) as nat);
        assert(vstd::bits::low_bits_mask((8 * n) as nat) == span(n) - 1);
        assert(u as int % span(n) == (u % (span(n) as u64)) as int);
    } else {
        assert(u & 0xffff_ffff_ffff_ffff == u) by (bit_vector);
        lemma_small_mod(u as nat, span(8) as nat);
    }
}

proof fn lemma_xor_fits(u: u64, v: u64, n: u32)
    requires
        n <= 8,
        u < span(n),
        v < span(n),
    ensures
        (u ^ v) < span(n),
{
    let m = (span(n) - 1) as u64;
    cuts_are_masks(u, n);
    cuts_are_masks(v, n);
    cuts_are_masks(u ^ v, n);
    lemma_small_mod(u as nat, span(n) as nat);
    lemma_small_mod(v as nat, span(n) as nat);
    assert((u & m) ^ (v & m) == (u ^ v) & m) by (bit_vector);
    lemma_mod_bound((u ^ v) as int, span(n));
}

/// The two's complement: a word and its negation add up to nothing but whole spans.
pub proof fn negation_adds_up_to_nothing(s: Slabs, dst: Varnode, src: Varnode, x: int, r: int)
    requires
        holds(s, src, x),
        dst.size == src.size,
        leaves(s, R2ILOp::IntNegate { dst, src }, dst, r),
    ensures
        (r + x) % span(dst.size) == 0,
        0 <= r < span(dst.size),
{
    lemma_unary_leaves(s, R2ILOp::IntNegate { dst, src }, UnaryAlu::Negate, dst, src, x, r);
    lemma_mod_bound(-x, span(dst.size));
    lemma_cut_twice(-x, span(dst.size));
    lemma_same_word(r, -x, span(dst.size));
}

/// A copy and a zero extension keep the number, as far as the destination holds it.
pub proof fn copies_keep_the_number(s: Slabs, dst: Varnode, src: Varnode, x: int, r: int)
    requires
        holds(s, src, x),
        src.size <= dst.size,
    ensures
        leaves(s, R2ILOp::Copy { dst, src }, dst, r) ==> r == x,
        leaves(s, R2ILOp::IntZExt { dst, src }, dst, r) ==> r == x,
{
    if leaves(s, R2ILOp::Copy { dst, src }, dst, r) {
        lemma_unary_leaves(s, R2ILOp::Copy { dst, src }, UnaryAlu::Copy, dst, src, x, r);
        crate::conc::word::lemma_span_divides(dst.size, src.size);
        lemma_small_mod(x as nat, span(dst.size) as nat);
    }
    if leaves(s, R2ILOp::IntZExt { dst, src }, dst, r) {
        lemma_unary_leaves(s, R2ILOp::IntZExt { dst, src }, UnaryAlu::Copy, dst, src, x, r);
        crate::conc::word::lemma_span_divides(dst.size, src.size);
        lemma_small_mod(x as nat, span(dst.size) as nat);
    }
}

/// A sign extension keeps the number that the word stands for as a signed one.
pub proof fn sign_extension_keeps_the_signed_number(
    s: Slabs,
    dst: Varnode,
    src: Varnode,
    x: int,
    r: int,
)
    requires
        holds(s, src, x),
        0 < src.size <= dst.size,
        leaves(s, R2ILOp::IntSExt { dst, src }, dst, r),
    ensures
        signed(r, dst.size) == signed(x, src.size),
{
    lemma_unary_leaves(s, R2ILOp::IntSExt { dst, src }, UnaryAlu::SExt, dst, src, x, r);
    let p = span(dst.size);
    let v = signed(x, src.size);
    signed_words_are_congruent(x, src.size);
    crate::conc::word::lemma_span_divides(dst.size, src.size);
    assert(-p <= 2 * v < p) by {
        assert(span(src.size) <= p);
    }
    if v < 0 {
        lemma_fundamental_div_mod_converse(v, p, -1, v + p);
    } else {
        lemma_small_mod(v as nat, p as nat);
    }
    lemma_small_mod(r as nat, p as nat);
}

proof fn lemma_shifted_left(x: u64, y: u64, i: u64)
    requires
        y < 64,
        i < 64,
    ensures
        bit((x << y) as int, i as nat) <==> i >= y && bit(x as int, (i - y) as nat),
{
    lemma_bit_of_shift(x << y, i);
    if i >= y {
        let j: u64 = (i - y) as u64;
        lemma_bit_of_shift(x, j);
        assert(j + y == i && i < 64 ==> ((x << y) >> i) & 1 == (x >> j) & 1) by (bit_vector);
    } else {
        assert(i < y && y < 64 ==> ((x << y) >> i) & 1 == 0) by (bit_vector);
    }
}

/// A shift to the left moves every bit up by as many places, and brings in zeros; what
/// leaves the word is gone. A shift by the whole width or more leaves nothing.
pub proof fn left_shifts_move_bits_up(
    s: Slabs,
    dst: Varnode,
    a: Varnode,
    b: Varnode,
    x: int,
    y: int,
    r: int,
    i: nat,
)
    requires
        holds(s, a, x),
        holds(s, b, y),
        i < 8 * dst.size,
        dst.size <= a.size,
        leaves(s, R2ILOp::IntLeft { dst, a, b }, dst, r),
    ensures
        bit(r, i) <==> y < 8 * a.size && i >= y && bit(x, (i - y) as nat),
{
    lemma_binary_leaves(s, R2ILOp::IntLeft { dst, a, b }, BinaryAlu::Left, dst, a, b, x, y, r);
    words_have_eight_bits_a_byte(dst.size);
    words_have_eight_bits_a_byte(a.size);
    if y < 8 * a.size {
        let v = ((x as u64) << (y as u64)) as int;
        low_of_low(v, a.size, dst.size);
        lemma_mod_bound(v, span(a.size));
        lemma_bit_of_cut(v, (8 * dst.size) as nat, i);
        lemma_shifted_left(x as u64, y as u64, i as u64);
    } else {
        lemma_small_mod(0, span(dst.size) as nat);
        lemma_pow2_pos(i);
        assert(0int / pow2(i) as int == 0);
    }
}

/// A shift to the right divides by as many powers of two, rounding down. A shift by the
/// whole width or more leaves nothing.
pub proof fn right_shifts_halve(
    s: Slabs,
    dst: Varnode,
    a: Varnode,
    b: Varnode,
    x: int,
    y: int,
    r: int,
)
    requires
        holds(s, a, x),
        holds(s, b, y),
        dst.size == a.size,
        leaves(s, R2ILOp::IntRight { dst, a, b }, dst, r),
    ensures
        r * pow2(y as nat) <= x < (r + 1) * pow2(y as nat),
{
    lemma_binary_leaves(s, R2ILOp::IntRight { dst, a, b }, BinaryAlu::Right, dst, a, b, x, y, r);
    words_have_eight_bits_a_byte(a.size);
    lemma_pow2_pos(y as nat);
    lemma_small_mod(x as nat, span(a.size) as nat);
    let p = pow2(y as nat) as int;
    if y < 8 * a.size {
        vstd::bits::lemma_u64_shr_is_div(x as u64, y as u64);
        lemma_fundamental_div_mod(x, p);
        lemma_mod_bound(x, p);
        let q = x / p;
        assert(0 <= q <= x && q * p <= x < (q + 1) * p) by (nonlinear_arith)
            requires
                x == p * q + x % p,
                0 <= x % p < p,
                x >= 0,
                p > 0,
        ;
        lemma_small_mod(q as nat, span(dst.size) as nat);
    } else {
        lemma_small_mod(0, span(dst.size) as nat);
        if y > 8 * a.size {
            vstd::arithmetic::power2::lemma_pow2_strictly_increases((8 * a.size) as nat, y as nat);
        }
        assert(r == 0);
        assert(0 * p == 0 && 1 * p == p) by (nonlinear_arith);
    }
}

/// A shift of a signed number to the right divides it by a power of two, rounding down.
pub proof fn signed_shifts_divide(x: i64, n: u64)
    requires
        n < 64,
    ensures
        (x >> n) as int == x as int / pow2(n as nat) as int,
    decreases n,
{
    lemma2_to64();
    if n == 0 {
        assert(x >> 0u64 == x) by (bit_vector);
        assert(x as int / 1 == x);
    } else {
        let m: u64 = (n - 1) as u64;
        signed_shifts_divide(x, m);
        let z: i64 = x >> m;
        assert(m + 1 == n && n < 64 ==> (x >> n) == ((x >> m) >> 1u64)) by (bit_vector);
        let h: i64 = z >> 1u64;
        let l: i64 = z & 1;
        assert(-0x4000_0000_0000_0000i64 <= (z >> 1u64) && (z >> 1u64) <= 0x3fff_ffff_ffff_ffffi64 && 0i64
            <= (z & 1) && (z & 1) <= 1i64) by (bit_vector);
        assert(2 * (z >> 1u64) + (z & 1) == z) by (bit_vector);
        assert(2 * h + l == z);
        assert(h == z as int / 2);
        lemma_pow2_unfold(n as nat);
        lemma_pow2_pos(m as nat);
        let d = pow2(m as nat) as int;
        lemma_fundamental_div_mod(x as int, d);
        lemma_mod_bound(x as int, d);
        assert(x == 2 * d * h + (d * l + x as int % d)) by (nonlinear_arith)
            requires
                x == d * z + x as int % d,
                2 * h + l == z,
        ;
        assert(0 <= d * l + x as int % d < 2 * d) by (nonlinear_arith)
            requires
                0 <= l <= 1,
                0 <= x as int % d < d,
        ;
        lemma_fundamental_div_mod_converse(x as int, 2 * d, h as int, d * l + x as int % d);
        assert(d * 2 == pow2(n as nat));
    }
}

/// A signed shift to the right divides the signed number by as many powers of two,
/// rounding down: the word left behind is that of the quotient. A shift by the whole
/// width or more leaves the sign.
pub proof fn signed_right_shifts_halve(
    s: Slabs,
    dst: Varnode,
    a: Varnode,
    b: Varnode,
    x: int,
    y: int,
    r: int,
)
    requires
        holds(s, a, x),
        holds(s, b, y),
        dst.size == a.size,
        a.size > 0,
        leaves(s, R2ILOp::IntSRight { dst, a, b }, dst, r),
    ensures
        y < 8 * a.size ==> exists|q: int|
            #![trigger q * pow2(y as nat)]
            (r - q) % span(dst.size) == 0 && q * pow2(y as nat) <= signed(x, a.size) < (q + 1) * pow2(
                y as nat,
            ),
        y >= 8 * a.size ==> r == if signed(x, a.size) < 0 {
            span(dst.size) - 1
        } else {
            0
        },
{
    lemma_binary_leaves(s, R2ILOp::IntSRight { dst, a, b }, BinaryAlu::SRight, dst, a, b, x, y, r);
    signed_words_are_congruent(x, a.size);
    let sx = signed(x, a.size);
    let p = span(dst.size);
    if y < 8 * a.size {
        let q = (sx as i64 >> (y as u64)) as int;
        signed_shifts_divide(sx as i64, y as u64);
        let d = pow2(y as nat) as int;
        lemma_pow2_pos(y as nat);
        lemma_fundamental_div_mod(sx, d);
        lemma_mod_bound(sx, d);
        assert(q * d <= sx < (q + 1) * d) by (nonlinear_arith)
            requires
                sx == d * q + sx % d,
                0 <= sx % d < d,
        ;
        lemma_mod_bound(q, p);
        lemma_cut_twice(q, p);
        lemma_same_word(r, q, p);
        assert(q * pow2(y as nat) <= sx);
    } else {
        crate::conc::laws::wide_signed_shifts_leave_the_sign(x as u64, y as u64, a.size, b.size);
        lemma_small_mod(
            (if sx < 0 {
                p - 1
            } else {
                0
            }) as nat,
            p as nat,
        );
    }
}

/// Equality of words of one size is told by one, its absence by zero; and the other way
/// round for inequality.
pub proof fn equality_compares(
    s: Slabs,
    dst: Varnode,
    a: Varnode,
    b: Varnode,
    x: int,
    y: int,
    r: int,
)
    requires
        holds(s, a, x),
        holds(s, b, y),
        a.size == b.size,
        a.size > 0,
        dst.size > 0,
    ensures
        leaves(s, R2ILOp::IntEqual { dst, a, b }, dst, r) ==> r == if x == y {
            1int
        } else {
            0
        },
        leaves(s, R2ILOp::IntNotEqual { dst, a, b }, dst, r) ==> r == if x != y {
            1int
        } else {
            0
        },
{
    words_fit_their_size(s, a, x);
    words_fit_their_size(s, b, y);
    lemma_small_mod(x as nat, span(a.size) as nat);
    lemma_small_mod(y as nat, span(b.size) as nat);
    if dst.size <= 8 {
        lemma_small_mod(0, span(dst.size) as nat);
        lemma_small_mod(1, span(dst.size) as nat);
    }
    if leaves(s, R2ILOp::IntEqual { dst, a, b }, dst, r) {
        lemma_binary_leaves(
            s,
            R2ILOp::IntEqual { dst, a, b },
            BinaryAlu::Equal,
            dst,
            a,
            b,
            x,
            y,
            r,
        );
    }
    if leaves(s, R2ILOp::IntNotEqual { dst, a, b }, dst, r) {
        lemma_binary_leaves(
            s,
            R2ILOp::IntNotEqual { dst, a, b },
            BinaryAlu::NotEqual,
            dst,
            a,
            b,
            x,
            y,
            r,
        );
    }
}

/// The order of words of one size is told by one or zero.
pub proof fn unsigned_order_compares(
    s: Slabs,
    dst: Varnode,
    a: Varnode,
    b: Varnode,
    x: int,
    y: int,
    r: int,
)
    requires
        holds(s, a, x),
        holds(s, b, y),
        a.size == b.size,
        a.size > 0,
        dst.size > 0,
    ensures
        leaves(s, R2ILOp::IntLess { dst, a, b }, dst, r) ==> r == if x < y {
            1int
        } else {
            0
        },
        leaves(s, R2ILOp::IntLessEqual { dst, a, b }, dst, r) ==> r == if x <= y {
            1int
        } else {
            0
        },
{
    words_fit_their_size(s, a, x);
    words_fit_their_size(s, b, y);
    lemma_small_mod(x as nat, span(a.size) as nat);
    lemma_small_mod(y as nat, span(b.size) as nat);
    if dst.size <= 8 {
        lemma_small_mod(0, span(dst.size) as nat);
        lemma_small_mod(1, span(dst.size) as nat);
    }
    if leaves(s, R2ILOp::IntLess { dst, a, b }, dst, r) {
        lemma_binary_leaves(
            s,
            R2ILOp::IntLess { dst, a, b },
            BinaryAlu::Less,
            dst,
            a,
            b,
            x,
            y,
            r,
        );
    }
    if leaves(s, R2ILOp::IntLessEqual { dst, a, b }, dst, r) {
        lemma_binary_leaves(
            s,
            R2ILOp::IntLessEqual { dst, a, b },
            BinaryAlu::LessEqual,
            dst,
            a,
            b,
            x,
            y,
            r,
        );
    }
}

/// The order of words of one size, taken as signed numbers, is told by one or zero.
pub proof fn signed_order_compares(
    s: Slabs,
    dst: Varnode,
    a: Varnode,
    b: Varnode,
    x: int,
    y: int,
    r: int,
)
    requires
        holds(s, a, x),
        holds(s, b, y),
        a.size == b.size,
        a.size > 0,
        dst.size > 0,
    ensures
        leaves(s, R2ILOp::IntSLess { dst, a, b }, dst, r) ==> r == if signed(x, a.size) < signed(y, b.size) {
            1int
        } else {
            0
        },
        leaves(s, R2ILOp::IntSLessEqual { dst, a, b }, dst, r) ==> r == if signed(x, a.size) <= signed(y, b.size) {
            1int
        } else {
            0
        },
{
    words_fit_their_size(s, a, x);
    words_fit_their_size(s, b, y);
    lemma_small_mod(x as nat, span(a.size) as nat);
    lemma_small_mod(y as nat, span(b.size) as nat);
    if dst.size <= 8 {
        lemma_small_mod(0, span(dst.size) as nat);
        lemma_small_mod(1, span(dst.size) as nat);
    }
    if leaves(s, R2ILOp::IntSLess { dst, a, b }, dst, r) {
        lemma_binary_leaves(
            s,
            R2ILOp::IntSLess { dst, a, b },
            BinaryAlu::SLess,
            dst,
            a,
            b,
            x,
            y,
            r,
        );
    }
    if leaves(s, R2ILOp::IntSLessEqual { dst, a, b }, dst, r) {
        lemma_binary_leaves(
            s,
            R2ILOp::IntSLessEqual { dst, a, b },
            BinaryAlu::SLessEqual,
            dst,
            a,
            b,
            x,
            y,
            r,
        );
    }
}

/// Carry and signed overflow of words of one size: one exactly where the sum of the
/// words, the sum of the signed numbers, or their difference leaves the word.
pub proof fn carries_tell_overflow(
    s: Slabs,
    dst: Varnode,
    a: Varnode,
    b: Varnode,
    x: int,
    y: int,
    r: int,
)
    requires
        holds(s, a, x),
        holds(s, b, y),
        a.size == b.size,
        a.size > 0,
        dst.size > 0,
    ensures
        leaves(s, R2ILOp::IntCarry { dst, a, b }, dst, r) ==> r == if x + y >= span(a.size) {
            1int
        } else {
            0
        },
        leaves(s, R2ILOp::IntSCarry { dst, a, b }, dst, r) ==> r == if 2 * (signed(x, a.size) + signed(
            y,
            b.size,
        )) >= span(a.size) || 2 * (signed(x, a.size) + signed(y, b.size)) < -span(a.size) {
            1int
        } else {
            0
        },
        leaves(s, R2ILOp::IntSBorrow { dst, a, b }, dst, r) ==> r == if 2 * (signed(x, a.size) - signed(
            y,
            b.size,
        )) >= span(a.size) || 2 * (signed(x, a.size) - signed(y, b.size)) < -span(a.size) {
            1int
        } else {
            0
        },
{
    words_fit_their_size(s, a, x);
    words_fit_their_size(s, b, y);
    crate::conc::laws::carry_is_two_sided(x as u64, y as u64, a.size);
    if dst.size <= 8 {
        lemma_small_mod(0, span(dst.size) as nat);
        lemma_small_mod(1, span(dst.size) as nat);
    }
    if leaves(s, R2ILOp::IntCarry { dst, a, b }, dst, r) {
        lemma_binary_leaves(s, R2ILOp::IntCarry { dst, a, b }, BinaryAlu::Carry, dst, a, b, x, y, r);
    }
    if leaves(s, R2ILOp::IntSCarry { dst, a, b }, dst, r) {
        lemma_binary_leaves(s, R2ILOp::IntSCarry { dst, a, b }, BinaryAlu::SCarry, dst, a, b, x, y, r);
    }
    if leaves(s, R2ILOp::IntSBorrow { dst, a, b }, dst, r) {
        lemma_binary_leaves(s, R2ILOp::IntSBorrow { dst, a, b }, BinaryAlu::SBorrow, dst, a, b, x, y, r);
    }
}

/// Boolean operations take every number but zero for true, and leave one or zero.
pub proof fn booleans_decide(
    s: Slabs,
    dst: Varnode,
    a: Varnode,
    b: Varnode,
    x: int,
    y: int,
    r: int,
)
    requires
        holds(s, a, x),
        holds(s, b, y),
        dst.size > 0,
    ensures
        leaves(s, R2ILOp::BoolAnd { dst, a, b }, dst, r) ==> (r == 1 <==> x != 0 && y != 0) && (r == 0 <==> x
            == 0 || y == 0),
        leaves(s, R2ILOp::BoolOr { dst, a, b }, dst, r) ==> (r == 1 <==> x != 0 || y != 0) && (r == 0 <==> x
            == 0 && y == 0),
        leaves(s, R2ILOp::BoolXor { dst, a, b }, dst, r) ==> (r == 1 <==> (x != 0 && y == 0) || (x == 0 && y
            != 0)) && (r == 0 <==> (x != 0 && y != 0) || (x == 0 && y == 0)),
        leaves(s, R2ILOp::BoolNot { dst, src: a }, dst, r) ==> (r == 1 <==> x == 0) && (r == 0 <==> x != 0),
{
    if dst.size <= 8 {
        lemma_small_mod(0, span(dst.size) as nat);
        lemma_small_mod(1, span(dst.size) as nat);
    }
    if leaves(s, R2ILOp::BoolAnd { dst, a, b }, dst, r) {
        lemma_binary_leaves(s, R2ILOp::BoolAnd { dst, a, b }, BinaryAlu::BoolAnd, dst, a, b, x, y, r);
    }
    if leaves(s, R2ILOp::BoolOr { dst, a, b }, dst, r) {
        lemma_binary_leaves(s, R2ILOp::BoolOr { dst, a, b }, BinaryAlu::BoolOr, dst, a, b, x, y, r);
    }
    if leaves(s, R2ILOp::BoolXor { dst, a, b }, dst, r) {
        lemma_binary_leaves(s, R2ILOp::BoolXor { dst, a, b }, BinaryAlu::BoolXor, dst, a, b, x, y, r);
    }
    if leaves(s, R2ILOp::BoolNot { dst, src: a }, dst, r) {
        lemma_unary_leaves(s, R2ILOp::BoolNot { dst, src: a }, UnaryAlu::BoolNot, dst, a, x, r);
    }
}

/// Joining puts the first word above the second: the low bytes are those of the second,
/// and what is above them is the first.
pub proof fn joins_put_the_first_above(
    s: Slabs,
    dst: Varnode,
    hi: Varnode,
    lo: Varnode,
    x: int,
    y: int,
    r: int,
)
    requires
        holds(s, hi, x),
        holds(s, lo, y),
        lo.size < 8,
        hi.size + lo.size <= dst.size,
        leaves(s, R2ILOp::Piece { dst, hi, lo }, dst, r),
    ensures
        r % span(lo.size) == y,
        r / span(lo.size) == x,
{
    lemma_binary_leaves(s, R2ILOp::Piece { dst, hi, lo }, BinaryAlu::Piece, dst, hi, lo, x, y, r);
    let p = span(lo.size);
    let v = x * p + y;
    crate::conc::word::lemma_span_divides(dst.size, (hi.size + lo.size) as u32);
    assert(span((hi.size + lo.size) as u32) == span(hi.size) * p);
    assert(0 <= v < span(hi.size) * p) by (nonlinear_arith)
        requires
            v == x * p + y,
            0 <= x < span(hi.size),
            0 <= y < p,
    ;
    lemma_small_mod(v as nat, span(dst.size) as nat);
    lemma_fundamental_div_mod_converse(r, p, x, y);
}

/// A part of a word: each byte left behind is the one as many places up as the part
/// starts at. A part that starts beyond the word is refused.
pub proof fn parts_are_taken_byte_by_byte(
    s: Slabs,
    dst: Varnode,
    src: Varnode,
    offset: u32,
    x: int,
    r: int,
    k: nat,
)
    requires
        holds(s, src, x),
        k < dst.size,
    ensures
        leaves(s, R2ILOp::Subpiece { dst, src, offset }, dst, r) ==> offset < src.size && byte(r, k) == byte(
            x,
            (k + offset) as nat,
        ),
        step_outcome(s, R2ILOp::Subpiece { dst, src, offset }).0 == Err::<Control, ConcError>(
            ConcError::SubpieceOutOfRange { offset, size: src.size },
        ) <==> offset >= src.size,
{
    words_fit_their_size(s, src, x);
    if leaves(s, R2ILOp::Subpiece { dst, src, offset }, dst, r) {
        let p = span(offset);
        let v = x / p;
        words_have_eight_bits_a_byte(offset);
        lemma_pow2_pos((8 * offset) as nat);
        lemma_finish_leaves(s, dst, v);
        lemma_mod_bound(v, span(dst.size));
        words_have_eight_bits_a_byte(dst.size);
        assert(v >= 0) by {
            vstd::arithmetic::div_mod::lemma_div_pos_is_pos(x, p);
        }
        lemma_byte_of_cut(v, dst.size as nat, k);
        lemma_pow2_adds((8 * offset) as nat, 8 * k);
        lemma_pow2_pos(8 * k);
        lemma_div_denominator(x, p, pow2(8 * k) as int);
        assert((8 * offset + 8 * k) as nat == 8 * ((k + offset) as nat));
    }
}

proof fn lemma_byte_of_cut(v: int, n: nat, k: nat)
    requires
        k < n,
        v >= 0,
    ensures
        byte(v % pow2(8 * n) as int, k) == byte(v, k),
{
    lemma_pow2_adds(8 * k, (8 * (n - k)) as nat);
    assert((8 * k + 8 * (n - k)) as nat == 8 * n);
    lemma_pow2_adds(8, (8 * (n - k - 1)) as nat);
    assert((8 + 8 * (n - k - 1)) as nat == (8 * (n - k)) as nat);
    lemma2_to64();
    lemma_pow2_pos(8 * k);
    lemma_pow2_pos((8 * (n - k)) as nat);
    lemma_pow2_pos((8 * (n - k - 1)) as nat);
    let p = pow2(8 * k) as int;
    let q = pow2((8 * (n - k)) as nat) as int;
    let h = pow2((8 * (n - k - 1)) as nat) as int;
    lemma_mod_breakdown(v, p, q);
    let c = v % (p * q);
    lemma_mod_bound(v, p);
    lemma_fundamental_div_mod_converse(c, p, (v / p) % q, v % p);
    lemma_mod_breakdown(v / p, 256, h);
    let d = (v / p) % q;
    assert(q == 256 * h);
    lemma_fundamental_div_mod_converse(d, 256, ((v / p) / 256) % h, (v / p) % 256);
}

/// How many of the first `n` binary digits of a number are one.
pub open spec fn bits_set(v: int, n: nat) -> nat
    decreases n,
{
    if n == 0 {
        0
    } else {
        bits_set(v, (n - 1) as nat) + if bit(v, (n - 1) as nat) {
            1nat
        } else {
            0
        }
    }
}

proof fn lemma_bits_set_shift(v: int, n: nat)
    requires
        v >= 0,
    ensures
        bits_set(v, n + 1) == (if v % 2 == 1 {
            1nat
        } else {
            0
        }) + bits_set(v / 2, n),
    decreases n,
{
    lemma2_to64();
    if n == 0 {
        assert(bits_set(v, 1) == bits_set(v, 0) + if bit(v, 0) {
            1nat
        } else {
            0
        });
        assert(v / 1 == v);
    } else {
        lemma_bits_set_shift(v, (n - 1) as nat);
        lemma_pow2_unfold(n);
        lemma_pow2_pos((n - 1) as nat);
        lemma_div_denominator(v, 2, pow2((n - 1) as nat) as int);
        assert(bit(v, n) == bit(v / 2, (n - 1) as nat));
    }
}

proof fn lemma_ones_are_bits(v: nat, n: nat)
    requires
        v < pow2(n),
    ensures
        ones(v) == bits_set(v as int, n),
    decreases n,
{
    lemma2_to64();
    if n == 0 {
        assert(v == 0);
    } else {
        lemma_pow2_unfold(n);
        lemma_bits_set_shift(v as int, (n - 1) as nat);
        lemma_ones_are_bits(v / 2, (n - 1) as nat);
        if v == 0 {
            assert(ones(0) == 0);
            assert(ones(v / 2) == 0);
        }
    }
}

/// Counting ones counts the places at which the word has a one.
pub proof fn counting_ones_counts_bits(s: Slabs, dst: Varnode, src: Varnode, x: int, r: int)
    requires
        holds(s, src, x),
        dst.size > 0,
        leaves(s, R2ILOp::PopCount { dst, src }, dst, r),
    ensures
        r == bits_set(x, (8 * src.size) as nat),
{
    lemma_unary_leaves(s, R2ILOp::PopCount { dst, src }, UnaryAlu::PopCount, dst, src, x, r);
    words_have_eight_bits_a_byte(src.size);
    lemma_ones_are_bits(x as nat, (8 * src.size) as nat);
    lemma_bits_set_bound(x, (8 * src.size) as nat);
    lemma_small_mod(ones(x as nat), span(dst.size) as nat);
}

proof fn lemma_bits_set_bound(v: int, n: nat)
    ensures
        bits_set(v, n) <= n,
    decreases n,
{
    if n > 0 {
        lemma_bits_set_bound(v, (n - 1) as nat);
    }
}

proof fn lemma_leading_zeros(x: u64)
    ensures
        0 <= u64_leading_zeros(x) <= 64,
        x == 0 <==> u64_leading_zeros(x) == 64,
        x > 0 ==> pow2((63 - u64_leading_zeros(x)) as nat) <= x < pow2((64 - u64_leading_zeros(x)) as nat),
    decreases x,
{
    vstd::std_specs::bits::axiom_u64_leading_zeros(x);
    reveal(u64_leading_zeros);
    lemma2_to64();
    lemma2_to64_rest();
    if x > 1 {
        lemma_leading_zeros(x / 2);
        let n = u64_leading_zeros(x);
        lemma_pow2_unfold((63 - n) as nat);
        lemma_pow2_unfold((64 - n) as nat);
    } else if x == 1 {
        assert(u64_leading_zeros(0u64) == 64);
        assert(u64_leading_zeros(1u64 / 2) == 64);
    }
}

/// Counting leading zeros counts the places above the highest one of the word: the number
/// takes up exactly the others. A word of zero has no other places.
pub proof fn counting_leading_zeros_finds_the_highest_one(
    s: Slabs,
    dst: Varnode,
    src: Varnode,
    x: int,
    r: int,
)
    requires
        holds(s, src, x),
        dst.size > 0,
        leaves(s, R2ILOp::Lzcount { dst, src }, dst, r),
    ensures
        0 <= r <= 8 * src.size,
        x == 0 <==> r == 8 * src.size,
        x > 0 ==> pow2((8 * src.size - r - 1) as nat) <= x < pow2((8 * src.size - r) as nat),
{
    lemma_unary_leaves(s, R2ILOp::Lzcount { dst, src }, UnaryAlu::Lzcount, dst, src, x, r);
    words_have_eight_bits_a_byte(src.size);
    let n = u64_leading_zeros(x as u64);
    lemma_leading_zeros(x as u64);
    let w = (8 * src.size) as int;
    if x > 0 && n < 64 - w {
        if 63 - n > w {
            vstd::arithmetic::power2::lemma_pow2_strictly_increases(w as nat, (63 - n) as nat);
        }
    }
    assert(n >= 64 - w);
    lemma_small_mod((n - (64 - w)) as nat, span(dst.size) as nat);
}

/// An operation on two operands runs exactly where both can be read, the destination can be
/// written, and no divisor is zero. The first operand is reported before the second, and
/// either before the destination.
pub proof fn operands_are_reported_first(s: Slabs, alu: BinaryAlu, dst: Varnode, a: Varnode, b: Varnode)
    ensures
        s.load(a) matches Err(e) ==> binary_outcome(s, alu, dst, a, b) == (
            Err::<Control, ConcError>(e),
            s,
        ),
        s.load(a) is Ok ==> (s.load(b) matches Err(e) ==> binary_outcome(s, alu, dst, a, b) == (
            Err::<Control, ConcError>(e),
            s,
        )),
        s.load(a) is Ok && s.load(b) is Ok ==> (binary_outcome(s, alu, dst, a, b).0 == Ok::<
            Control,
            ConcError,
        >(Control::Next) <==> s.store(dst, 0) is Ok && binary_outcome(s, alu, dst, a, b).0 != Err::<
            Control,
            ConcError,
        >(ConcError::DivByZero)),
{
}

/// An operation on one operand runs exactly where it can be read and the destination can be
/// written.
pub proof fn the_operand_is_reported_first(s: Slabs, alu: UnaryAlu, dst: Varnode, src: Varnode)
    ensures
        s.load(src) matches Err(e) ==> unary_outcome(s, alu, dst, src) == (
            Err::<Control, ConcError>(e),
            s,
        ),
        s.load(src) is Ok ==> (unary_outcome(s, alu, dst, src).0 == Ok::<Control, ConcError>(
            Control::Next,
        ) <==> s.store(dst, 0) is Ok),
{
}

/// A conditional branch is taken exactly where its condition is not zero, and changes
/// nothing.
pub proof fn branches_go_by_their_condition(s: Slabs, target: Varnode, cond: Varnode, c: int)
    requires
        holds(s, cond, c),
    ensures
        step_outcome(s, R2ILOp::CBranch { target, cond }).1 == s,
        c != 0 ==> step_outcome(s, R2ILOp::CBranch { target, cond }).0 == Ok::<Control, ConcError>(
            Control::Jump(target.offset),
        ),
        c == 0 ==> step_outcome(s, R2ILOp::CBranch { target, cond }).0 == Ok::<Control, ConcError>(
            Control::Next,
        ),
{
}

/// A load leaves what lies at the address that its operand holds; a store puts the low bytes
/// of its operand there.
pub proof fn memory_is_reached_by_address(
    s: Slabs,
    dst: Varnode,
    space: SpaceId,
    addr: Varnode,
    val: Varnode,
    place: Varnode,
    at: int,
    v: int,
    x: int,
    r: int,
)
    requires
        holds(s, addr, at),
        place.space == space,
        place.offset == at,
    ensures
        place.size == dst.size && holds(s, place, v) && leaves(
            s,
            R2ILOp::Load { dst, space, addr },
            dst,
            r,
        ) ==> r == v,
        place.size == val.size && holds(s, val, x) && leaves(
            s,
            R2ILOp::Store { space, addr, val },
            place,
            r,
        ) ==> r == x,
{
    let there = crate::conc::slab::at_address(space, at as u64, place.size);
    assert(s.load(there) == s.load(place));
    if place.size == dst.size && holds(s, place, v) && leaves(
        s,
        R2ILOp::Load { dst, space, addr },
        dst,
        r,
    ) {
        words_fit_their_size(s, place, v);
        lemma_finish_leaves(s, dst, v);
        lemma_small_mod(v as nat, span(dst.size) as nat);
    }
    if place.size == val.size && holds(s, val, x) && leaves(
        s,
        R2ILOp::Store { space, addr, val },
        place,
        r,
    ) {
        words_fit_their_size(s, val, x);
        lemma_finish_leaves(s, there, x);
        lemma_small_mod(x as nat, span(val.size) as nat);
        let after = finish(s, there, x).1;
        assert(after.load(there) == after.load(place));
    }
}

} // verus!
