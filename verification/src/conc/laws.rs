//! What holds of every step.

use crate::conc::slab::{
    at_address, finish, flag, le_bytes, le_value, overwrite, step_outcome, BinaryAlu, ConcError,
    Control, Slabs, UnaryAlu,
};
use crate::conc::word::{abs, low, low_of_low, signed, span, truncated_div, truncated_rem};
use crate::il::op::R2ILOp;
use crate::il::space::SpaceId;
use crate::il::varnode::Varnode;
use vstd::prelude::*;

verus! {

/// A refused operation leaves every slab as it was.
pub proof fn refusal_changes_nothing(s: Slabs, op: R2ILOp)
    ensures
        step_outcome(s, op).0 is Err ==> step_outcome(s, op).1 == s,
{
}

/// Only a write that falls through changes a slab: control transfers change none.
pub proof fn control_transfer_changes_nothing(s: Slabs, op: R2ILOp)
    ensures
        (step_outcome(s, op).0 matches Ok(c) && c != Control::Next) ==> step_outcome(s, op).1 == s,
{
}

proof fn lemma_le_bytes_value(v: int, n: nat)
    requires
        n <= 8,
        v >= 0,
    ensures
        le_bytes(v, n).len() == n,
        le_value(le_bytes(v, n)) == v % span(n as u32),
    decreases n,
{
    if n > 0 {
        let m = (n - 1) as nat;
        lemma_le_bytes_value(v / 256, m);
        let bytes = le_bytes(v, n);
        assert(bytes.drop_first() =~= le_bytes(v / 256, m));
        assert(bytes[0] == (v % 256) as u8);
        let p = span(m as u32);
        assert(span(n as u32) == 256 * p);
        assert(v % (256 * p) == v % 256 + 256 * ((v / 256) % p)) by {
            vstd::arithmetic::div_mod::lemma_mod_breakdown(v, 256, p);
        }
    }
}

proof fn lemma_overwrite_window(bytes: Seq<u8>, at: int, patch: Seq<u8>)
    requires
        0 <= at,
        at + patch.len() <= bytes.len(),
    ensures
        overwrite(bytes, at, patch).subrange(at, at + patch.len()) == patch,
{
    assert(overwrite(bytes, at, patch).subrange(at, at + patch.len()) =~= patch);
}

/// A read gives back what a write of the same location wrote, truncated to its size.
pub proof fn read_gives_back_the_write(s: Slabs, vn: Varnode, v: u64)
    requires
        s.store(vn, v) is Ok,
    ensures
        s.store(vn, v)->Ok_0.load(vn) == Ok::<u64, ConcError>(low(v as int, vn.size)),
{
    let bytes = s.locate(vn)->Ok_0;
    let patch = le_bytes(v as int, vn.size as nat);
    lemma_le_bytes_value(v as int, vn.size as nat);
    lemma_overwrite_window(bytes, vn.offset as int, patch);
    assert(overwrite(bytes, vn.offset as int, patch).len() == bytes.len());
}

/// A write changes no byte outside its location, and no other space.
pub proof fn write_touches_nothing_else(s: Slabs, vn: Varnode, v: u64, space: SpaceId, at: int)
    requires
        s.store(vn, v) is Ok,
        s.slab(space) is Ok,
        0 <= at < s.slab(space)->Ok_0.len(),
        space != vn.space || at < vn.offset || vn.offset + vn.size <= at,
    ensures
        s.store(vn, v)->Ok_0.slab(space) is Ok,
        s.store(vn, v)->Ok_0.slab(space)->Ok_0.len() == s.slab(space)->Ok_0.len(),
        s.store(vn, v)->Ok_0.slab(space)->Ok_0[at] == s.slab(space)->Ok_0[at],
{
    lemma_le_bytes_value(v as int, vn.size as nat);
}

/// A write leaves the value of every disjoint location as it was.
pub proof fn disjoint_locations_keep_their_value(s: Slabs, vn: Varnode, v: u64, other: Varnode)
    requires
        s.store(vn, v) is Ok,
        other.space != vn.space || other.offset + other.size <= vn.offset || vn.offset + vn.size
            <= other.offset,
    ensures
        s.store(vn, v)->Ok_0.load(other) == s.load(other),
{
    lemma_le_bytes_value(v as int, vn.size as nat);
    let after = s.store(vn, v)->Ok_0;
    if other.space != SpaceId::Const && s.slab(other.space) is Ok {
        let before_bytes = s.slab(other.space)->Ok_0;
        let after_bytes = after.slab(other.space)->Ok_0;
        assert(after_bytes.len() == before_bytes.len());
        if other.offset + other.size <= before_bytes.len() {
            assert(after_bytes.subrange(other.offset as int, other.offset + other.size)
                =~= before_bytes.subrange(other.offset as int, other.offset + other.size));
        }
    }
}

/// Slabs of the same spaces, each as long in one state as in the other.
#[verifier::opaque]
pub open spec fn same_shape(s: Slabs, t: Slabs) -> bool {
    &&& s.register.len() == t.register.len()
    &&& s.ram.len() == t.ram.len()
    &&& s.unique.len() == t.unique.len()
    &&& s.custom.dom() == t.custom.dom()
    &&& forall|id: u32|
        s.custom.dom().contains(id) ==> (#[trigger] s.custom[id]).len() == t.custom[id].len()
}

proof fn lemma_finish_keeps_shape(s: Slabs, dst: Varnode, v: int)
    ensures
        same_shape(s, finish(s, dst, v).1),
{
    reveal(same_shape);
    let after = finish(s, dst, v).1;
    assert(s.custom.dom() =~= after.custom.dom());
}

/// No step changes the length of a slab, adds one or takes one away.
pub proof fn step_keeps_the_shape(s: Slabs, op: R2ILOp)
    ensures
        same_shape(s, step_outcome(s, op).1),
{
    assert forall|dst: Varnode, v: int| same_shape(s, #[trigger] finish(s, dst, v).1) by {
        lemma_finish_keeps_shape(s, dst, v);
    }
    assert(same_shape(s, s)) by {
        reveal(same_shape);
    }
}

/// The constant space reads as itself in every state and takes no write.
pub proof fn constants_are_read_only(s: Slabs, t: Slabs, value: u64, size: u32, v: u64)
    requires
        size <= 8,
    ensures
        s.load(Varnode { space: SpaceId::Const, offset: value, size, meta: None }) == Ok::<
            u64,
            ConcError,
        >(low(value as int, size)),
        s.load(Varnode { space: SpaceId::Const, offset: value, size, meta: None }) == t.load(
            Varnode { space: SpaceId::Const, offset: value, size, meta: None },
        ),
        s.store(Varnode { space: SpaceId::Const, offset: value, size, meta: None }, v) == Err::<
            Slabs,
            ConcError,
        >(ConcError::ConstWrite),
{
}

/// A handle that could not be resolved is never read or written as a guess.
pub proof fn unresolved_space_fails_closed(s: Slabs, offset: u64, size: u32, v: u64)
    ensures
        s.load(Varnode { space: SpaceId::Unresolved, offset, size, meta: None }) is Err,
        s.store(Varnode { space: SpaceId::Unresolved, offset, size, meta: None }, v) is Err,
{
}

/// The carry of operands of one width is one exactly when their sum leaves that width.
pub proof fn carry_is_two_sided(x: u64, y: u64, w: u32)
    requires
        w <= 8,
        x < span(w),
        y < span(w),
    ensures
        BinaryAlu::Carry.value(x, y, w, w) == flag(x + y >= span(w)),
{
    let total = x + y;
    if total >= span(w) {
        assert(total % span(w) == total - span(w)) by (nonlinear_arith)
            requires
                span(w) <= total < 2 * span(w),
        ;
    } else {
        assert(total % span(w) == total) by (nonlinear_arith)
            requires
                0 <= total < span(w),
        ;
    }
}

/// A shift by the operand's width or more leaves nothing of an unsigned operand.
pub proof fn wide_shifts_leave_zero(x: u64, y: u64, wa: u32, wb: u32)
    requires
        y >= 8 * wa,
    ensures
        BinaryAlu::Left.value(x, y, wa, wb) == 0,
        BinaryAlu::Right.value(x, y, wa, wb) == 0,
{
}

/// An arithmetic right shift by the operand's width or more fills it with the sign.
pub proof fn wide_signed_shifts_leave_the_sign(x: u64, y: u64, wa: u32, wb: u32)
    requires
        0 < wa <= 8,
        y >= 8 * wa,
    ensures
        BinaryAlu::SRight.value(x, y, wa, wb) == if signed(x as int, wa) < 0 {
            span(wa) - 1
        } else {
            0
        },
{
    let sx: i64 = signed(x as int, wa) as i64;
    assert(signed(x as int, wa) == sx);
    let shift: u64 = (8 * wa - 1) as u64;
    crate::conc::meaning::signed_shifts_divide(sx, shift);
    crate::conc::meaning::words_have_eight_bits_a_byte(wa);
    vstd::arithmetic::power2::lemma_pow2_unfold((8 * wa) as nat);
    let half = vstd::arithmetic::power2::pow2(shift as nat) as int;
    assert(2 * half == span(wa));
    vstd::arithmetic::div_mod::lemma_mod_bound(x as int, span(wa));
    assert(-half <= sx < half);
    if sx < 0 {
        vstd::arithmetic::div_mod::lemma_fundamental_div_mod_converse(sx as int, half, -1, sx + half);
        vstd::arithmetic::div_mod::lemma_fundamental_div_mod_converse(-1, span(wa), -1, span(wa) - 1);
    } else {
        vstd::arithmetic::div_mod::lemma_fundamental_div_mod_converse(sx as int, half, 0, sx as int);
        vstd::arithmetic::div_mod::lemma_small_mod(0, span(wa) as nat);
    }
    let q: i64 = sx >> shift;
    assert(q == if sx < 0 {
        -1int
    } else {
        0
    });
    assert(BinaryAlu::SRight.value(x, y, wa, wb) == low(q as int, wa) as int);
    assert(low(q as int, wa) == if sx < 0 {
        span(wa) - 1
    } else {
        0
    });
}

/// Joining two words and cutting the join apart gives both words back.
pub proof fn pieces_come_apart_again(x: u64, y: u64, wa: u32, wb: u32)
    requires
        0 < wb,
        wa + wb <= 8,
        x < span(wa),
        y < span(wb),
    ensures
        ({
            let joined = BinaryAlu::Piece.value(x, y, wa, wb);
            &&& low(joined, (wa + wb) as u32) == joined
            &&& low(joined, wb) == y
            &&& low(joined / span(wb), wa) == x
        }),
{
    let p = span(wb);
    let joined = x * p + y;
    lemma_span_product(wa, wb);
    assert(0 <= joined < span(wa) * p) by (nonlinear_arith)
        requires
            joined == x * p + y,
            0 <= x < span(wa),
            0 <= y < p,
    ;
    vstd::arithmetic::div_mod::lemma_fundamental_div_mod_converse(joined, p, x as int, y as int);
    assert(joined / p == x && joined % p == y);
    vstd::arithmetic::div_mod::lemma_small_mod(joined as nat, span((wa + wb) as u32) as nat);
    vstd::arithmetic::div_mod::lemma_small_mod(x as nat, span(wa) as nat);
}

proof fn lemma_span_product(a: u32, b: u32)
    requires
        a + b <= 8,
    ensures
        span((a + b) as u32) == span(a) * span(b),
{
}

/// Signed division rounds toward zero: quotient and remainder rebuild the
/// dividend, and the remainder is smaller than the divisor.
pub proof fn signed_division_truncates(x: int, y: int)
    requires
        y != 0,
    ensures
        x == truncated_div(x, y) * y + truncated_rem(x, y),
        abs(truncated_rem(x, y)) < abs(y),
        truncated_rem(x, y) != 0 ==> (truncated_rem(x, y) < 0) == (x < 0),
{
    let ax = abs(x);
    let ay = abs(y);
    vstd::arithmetic::div_mod::lemma_fundamental_div_mod(ax, ay);
    let q = ax / ay;
    let r = ax % ay;
    assert(ax == q * ay + r) by (nonlinear_arith)
        requires
            ax == ay * q + r,
    ;
    assert(0 <= r < ay) by {
        vstd::arithmetic::div_mod::lemma_mod_bound(ax, ay);
    }
    assert((-q) * y == -(q * y) && q * (-y) == -(q * y)) by (nonlinear_arith);
}

/// Comparisons and booleans give zero or one.
pub proof fn predicates_give_zero_or_one(x: u64, y: u64, wa: u32, wb: u32)
    ensures
        forall|alu: BinaryAlu|
            #![trigger alu.value(x, y, wa, wb)]
            (alu == BinaryAlu::Equal || alu == BinaryAlu::NotEqual || alu == BinaryAlu::Less || alu
                == BinaryAlu::SLess || alu == BinaryAlu::LessEqual || alu == BinaryAlu::SLessEqual
                || alu == BinaryAlu::BoolAnd || alu == BinaryAlu::BoolOr || alu
                == BinaryAlu::BoolXor || alu == BinaryAlu::Carry || alu == BinaryAlu::SCarry || alu
                == BinaryAlu::SBorrow) ==> alu.value(x, y, wa, wb) == 0 || alu.value(x, y, wa, wb)
                == 1,
        UnaryAlu::BoolNot.value(x, wa) == 0 || UnaryAlu::BoolNot.value(x, wa) == 1,
{
}

/// A direct branch or call goes to its target's offset, whatever the slabs hold;
/// an indirect one goes to the value that the target holds.
pub proof fn direct_targets_are_offsets(s: Slabs, target: Varnode)
    ensures
        step_outcome(s, R2ILOp::Branch { target }) == (
            Ok::<Control, ConcError>(Control::Jump(target.offset)),
            s,
        ),
        step_outcome(s, R2ILOp::Call { target }) == (
            Ok::<Control, ConcError>(Control::Call(target.offset)),
            s,
        ),
        s.load(target) matches Ok(v) ==> step_outcome(s, R2ILOp::BranchInd { target }).0 == Ok::<
            Control,
            ConcError,
        >(Control::Jump(v)) && step_outcome(s, R2ILOp::CallInd { target }).0 == Ok::<
            Control,
            ConcError,
        >(Control::Call(v)) && step_outcome(s, R2ILOp::Return { target }).0 == Ok::<
            Control,
            ConcError,
        >(Control::Return(v)),
{
}

/// A store followed by a load from the same address gives the stored value.
pub proof fn load_gives_back_the_store(
    s: Slabs,
    space: SpaceId,
    addr: u64,
    addr_size: u32,
    val: Varnode,
    dst: Varnode,
)
    requires
        addr_size <= 8,
        low(addr as int, addr_size) == addr,
        dst.size == val.size,
        s.load(val) is Ok,
        s.store(at_address(space, addr, val.size), s.load(val)->Ok_0) is Ok,
    ensures
        ({
            let at = Varnode { space: SpaceId::Const, offset: addr, size: addr_size, meta: None };
            let stored = step_outcome(s, R2ILOp::Store { space, addr: at, val });
            let v = s.load(val)->Ok_0;
            &&& stored.0 == Ok::<Control, ConcError>(Control::Next)
            &&& step_outcome(stored.1, R2ILOp::Load { dst, space, addr: at }) == finish(
                stored.1,
                dst,
                low(v as int, val.size) as int,
            )
        }),
{
    let v = s.load(val)->Ok_0;
    let place = at_address(space, addr, val.size);
    read_gives_back_the_write(s, place, v);
    low_of_low(v as int, val.size, val.size);
    read_gives_back_the_write(s, place, low(v as int, val.size));
}

} // verus!
