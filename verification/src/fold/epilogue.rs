//! How a function leaves: its epilogue and the stack slots it returns through.

use crate::fold::levels::{Folder, Reading};
use crate::fold::names::{control_register, is_control_register_name};
use crate::fold::ownership::added;
use crate::fold::returned::{width_change, width_change_of};
use crate::fold::tables::{entry, in_addresses, in_offsets};
use crate::ssa::{var_views, SSABlock, SSAOp, SSAVar, Var};
use crate::text::{listed, lower, same, same_ignoring_case, same_lower, to_lower};
use vstd::prelude::*;

verus! {

/// The target and source of an operation that moves one value.
pub open spec fn moves(op: SSAOp) -> Option<(Var, Var)> {
    match op {
        SSAOp::Copy { dst, src } => Some((dst@, src@)),
        _ => width_change(op),
    }
}

fn moves_of(op: &SSAOp) -> (r: Option<(&SSAVar, &SSAVar)>)
    ensures
        match r {
            Some(p) => moves(*op) == Some((p.0@, p.1@)),
            None => moves(*op) is None,
        },
{
    match op {
        SSAOp::Copy { dst, src } => Some((dst, src)),
        _ => width_change_of(op),
    }
}

/// Are two variables versions of the same storage?
pub open spec fn same_storage(a: Var, b: Var) -> bool {
    a.name == b.name && a.size == b.size
}

/// Is some version of a storage read?
pub open spec fn storage_read(reads: Seq<Var>, v: Var) -> bool {
    exists|i: int| 0 <= i < reads.len() && same_storage(#[trigger] reads[i], v)
}

fn is_storage_read(op: &SSAOp, v: &SSAVar) -> (r: bool)
    ensures
        r == storage_read(op.reads(), v@),
{
    let list = op.sources();
    let ghost reads = op.reads();
    let mut i: usize = 0;
    while i < list.len()
        invariant
            i <= list@.len(),
            reads == op.reads(),
            var_views(list@) == reads,
            forall|j: int| 0 <= j < i ==> !same_storage(#[trigger] reads[j], v@),
        decreases list@.len() - i,
    {
        assert(reads[i as int] == list@[i as int]@);
        if same(&list[i].name, &v.name) && list[i].size == v.size {
            return true;
        }
        i = i + 1;
    }
    false
}

/// An operation that may stand between a load and a return without changing
/// what is returned.
pub open spec fn harmless(op: SSAOp) -> bool {
    moves(op) is Some || op is IntAdd || op is IntCarry || op is IntSCarry || op is IntSLess
        || op is IntEqual
}

fn is_harmless(op: &SSAOp) -> (r: bool)
    ensures
        r == harmless(*op),
{
    matches!(
        op,
        SSAOp::Copy { .. }
        | SSAOp::IntZExt { .. }
        | SSAOp::IntSExt { .. }
        | SSAOp::Trunc { .. }
        | SSAOp::Cast { .. }
        | SSAOp::IntAdd { .. }
        | SSAOp::IntCarry { .. }
        | SSAOp::IntSCarry { .. }
        | SSAOp::IntSLess { .. }
        | SSAOp::IntEqual { .. }
    )
}

impl Reading {
    /// Is a variable a register that control or the stack goes by?
    pub open spec fn frame_register(&self, v: Var) -> bool {
        control_register(v.name) || listed(self.ctx.arch.stack_pointers@, lower(v.name)) || listed(
            self.ctx.arch.frame_pointers@,
            lower(v.name),
        )
    }

    /// From operation `j` on: is a loaded value only moved to registers that
    /// control or the stack goes by? `used` says that it was moved before.
    pub open spec fn only_restored(&self, ops: Seq<SSAOp>, j: int, v: Var, used: bool) -> bool
        decreases ops.len() - j,
    {
        if j < 0 || j >= ops.len() {
            used
        } else if !ops[j].reads().contains(v) {
            self.only_restored(ops, j + 1, v, used)
        } else {
            match moves(ops[j]) {
                Some(p) => p.1 == v && self.frame_register(p.0) && self.only_restored(
                    ops,
                    j + 1,
                    v,
                    true,
                ),
                None => false,
            }
        }
    }

    /// Does a load only restore a register that control or the stack goes by?
    pub open spec fn restoring_load(&self, block: SSABlock, idx: int, v: Var) -> bool {
        self.only_restored(block.ops@, idx + 1, v, false)
    }

    /// From operation `j` on: is a storage overwritten by a restoring load
    /// before anything reads it?
    pub open spec fn overwritten_from(&self, block: SSABlock, j: int, v: Var) -> bool
        decreases block.ops@.len() - j,
    {
        if j < 0 || j >= block.ops@.len() {
            false
        } else {
            let op = block.ops@[j];
            if storage_read(op.reads(), v) {
                false
            } else if op.defines() is Some && same_storage(op.defines()->0, v) {
                op is Load && self.restoring_load(block, j, op.defines()->0)
            } else {
                self.overwritten_from(block, j + 1, v)
            }
        }
    }

    /// The first load of a variable before operation `n`, from operation `j` on:
    /// does it only restore a register?
    pub open spec fn restored_before(&self, block: SSABlock, j: int, n: int, v: Var) -> bool
        decreases n - j,
    {
        if j < 0 || j >= n || j >= block.ops@.len() {
            false
        } else if block.ops@[j] is Load && block.ops@[j].defines() == Some(v) {
            self.restoring_load(block, j, v)
        } else {
            self.restored_before(block, j + 1, n, v)
        }
    }

    /// Does a move belong to an epilogue: does it restore a register that control
    /// or the stack goes by, or put down a constant that such a load overwrites?
    pub open spec fn epilogue_move(&self, block: SSABlock, i: int, dst: Var, src: Var) -> bool {
        ||| control_register(dst.name)
        ||| same_ignoring_case(dst.name, self.ctx.arch.sp_name@)
        ||| listed(self.ctx.arch.frame_pointers@, lower(dst.name)) && (listed(
            self.ctx.arch.stack_pointers@,
            lower(src.name),
        ) || self.restored_before(block, 0, i, src))
        ||| block.ops@[i] is Copy && src.constant() && self.overwritten_from(block, i + 1, dst)
    }

    /// Does an operation belong to an epilogue that returns nothing itself?
    pub open spec fn epilogue_op(&self, block: SSABlock, i: int) -> bool {
        let op = block.ops@[i];
        match op {
            SSAOp::Return { target } => control_register(target.name@),
            SSAOp::Load { dst, space, addr } => self.frame_register(dst@) || self.restoring_load(
                block,
                i,
                dst@,
            ),
            SSAOp::IntAdd { dst, a, b } => same_ignoring_case(dst.name@, self.ctx.arch.sp_name@),
            SSAOp::IntSub { dst, a, b } => same_ignoring_case(dst.name@, self.ctx.arch.sp_name@),
            _ => match moves(op) {
                Some(p) => self.epilogue_move(block, i, p.0, p.1),
                None => false,
            },
        }
    }

    /// Is a block nothing but an epilogue?
    pub open spec fn epilogue(&self, block: SSABlock) -> bool {
        forall|i: int|
            #![trigger block.ops@[i]]
            0 <= i < block.ops@.len() ==> self.epilogue_op(block, i)
    }

    /// Does a branch go to an address?
    pub open spec fn branches_to(&self, op: SSAOp, exit: u64) -> bool {
        match op {
            SSAOp::Branch { target } => entry(self.ctx.answers.addresses@, target.name@) == Some(exit),
            SSAOp::CBranch { target, cond } => entry(self.ctx.answers.addresses@, target.name@)
                == Some(exit),
            _ => false,
        }
    }

    /// The stack slot that the first `n` operations last store to before control
    /// goes to the exit. `counts` says that control is on its way there.
    pub open spec fn slot_written(&self, ops: Seq<SSAOp>, n: int, exit: u64, counts: bool) -> Option<
        i64,
    >
        decreases n,
    {
        if n <= 0 {
            None
        } else {
            let op = ops[n - 1];
            if op is Store && counts && self.slot_offset(op->Store_addr@) is Some {
                self.slot_offset(op->Store_addr@)
            } else {
                self.slot_written(ops, n - 1, exit, counts || self.branches_to(op, exit))
            }
        }
    }

    /// The stack slot that a block last stores to before control goes to the
    /// exit. In a block of `returning` every store counts.
    pub open spec fn slot_to_exit(
        &self,
        block: SSABlock,
        exit: u64,
        edge_known: bool,
        returning: Seq<u64>,
    ) -> Option<i64> {
        self.slot_written(
            block.ops@,
            block.ops@.len() as int,
            exit,
            edge_known || returning.contains(block.addr),
        )
    }

    /// The stack slots that the first `n` operations load, and whether control
    /// has left; nothing where an operation does more than load and return.
    pub open spec fn slots_loaded(&self, block: SSABlock, n: int) -> Option<(Seq<i64>, bool)>
        decreases n,
    {
        if n <= 0 {
            Some((Seq::empty(), false))
        } else {
            match self.slots_loaded(block, n - 1) {
                Some(p) => {
                    let op = block.ops@[n - 1];
                    match op {
                        SSAOp::Load { dst, space, addr } => if control_register(dst.name@)
                            || self.restoring_load(block, n - 1, dst@) {
                            Some(p)
                        } else {
                            match self.slot_offset(addr@) {
                                Some(offset) => Some((added(p.0, offset), p.1)),
                                None => Some(p),
                            }
                        },
                        SSAOp::Return { target } => if control_register(target.name@) {
                            Some((p.0, true))
                        } else {
                            None
                        },
                        _ => if harmless(op) {
                            Some(p)
                        } else {
                            None
                        },
                    }
                },
                None => None,
            }
        }
    }

    /// The one stack slot that a block loads before it returns.
    pub open spec fn slot_loaded(&self, block: SSABlock) -> Option<i64> {
        match self.slots_loaded(block, block.ops@.len() as int) {
            Some(p) => if p.1 && p.0.len() == 1 {
                Some(p.0[0])
            } else {
                None
            },
            None => None,
        }
    }

    proof fn nothing_loaded_stays(&self, block: SSABlock, i: int, n: int)
        requires
            0 <= i <= n,
            self.slots_loaded(block, i) is None,
        ensures
            self.slots_loaded(block, n) is None,
        decreases n - i,
    {
        if i < n {
            self.nothing_loaded_stays(block, i, n - 1);
        }
    }
}

impl<'a> Folder<'a> {
    fn is_frame_register(&self, v: &SSAVar) -> (r: bool)
        ensures
            r == self@.frame_register(v@),
    {
        let low = to_lower(&v.name);
        is_control_register_name(&v.name) || self.ctx.arch.is_stack_pointer_name(&low)
            || self.ctx.arch.is_frame_pointer_name(&low)
    }

    /// Does a load only restore a register that control or the stack goes by?
    pub fn load_is_control_epilogue_artifact(&self, block: &SSABlock, load_idx: usize, v: &SSAVar) -> (r: bool)
        requires
            load_idx < block.ops@.len(),
        ensures
            r == self@.restoring_load(*block, load_idx as int, v@),
    {
        let count: usize = block.ops.len();
        let mut used = false;
        let mut j: usize = load_idx + 1;
        while j < count
            invariant
                load_idx + 1 <= j <= count,
                count == block.ops@.len(),
                self@.restoring_load(*block, load_idx as int, v@) == self@.only_restored(
                    block.ops@,
                    j as int,
                    v@,
                    used,
                ),
            decreases count - j,
        {
            let op = &block.ops[j];
            if op.uses(v) {
                match moves_of(op) {
                    Some(p) => {
                        if !p.1.same(v) || !self.is_frame_register(p.0) {
                            return false;
                        }
                    },
                    None => {
                        return false;
                    },
                }
                used = true;
            }
            j = j + 1;
        }
        used
    }

    /// Is a storage overwritten by a restoring load before anything reads it?
    pub fn seed_copy_is_overwritten_by_control_epilogue_load(
        &self,
        block: &SSABlock,
        op_idx: usize,
        v: &SSAVar,
    ) -> (r: bool)
        requires
            op_idx < block.ops@.len(),
        ensures
            r == self@.overwritten_from(*block, op_idx + 1, v@),
    {
        let count: usize = block.ops.len();
        let mut j: usize = op_idx + 1;
        while j < count
            invariant
                op_idx + 1 <= j <= count,
                count == block.ops@.len(),
                self@.overwritten_from(*block, op_idx + 1, v@) == self@.overwritten_from(
                    *block,
                    j as int,
                    v@,
                ),
            decreases count - j,
        {
            let op = &block.ops[j];
            if is_storage_read(op, v) {
                return false;
            }
            if let Some(dst) = op.dst() {
                if same(&dst.name, &v.name) && dst.size == v.size {
                    return matches!(op, SSAOp::Load { .. })
                        && self.load_is_control_epilogue_artifact(block, j, dst);
                }
            }
            j = j + 1;
        }
        false
    }

    fn is_restored_before(&self, block: &SSABlock, n: usize, v: &SSAVar) -> (r: bool)
        requires
            n <= block.ops@.len(),
        ensures
            r == self@.restored_before(*block, 0, n as int, v@),
    {
        let mut j: usize = 0;
        while j < n
            invariant
                j <= n <= block.ops@.len(),
                self@.restored_before(*block, 0, n as int, v@) == self@.restored_before(
                    *block,
                    j as int,
                    n as int,
                    v@,
                ),
            decreases n - j,
        {
            if let SSAOp::Load { dst, .. } = &block.ops[j] {
                if dst.same(v) {
                    return self.load_is_control_epilogue_artifact(block, j, v);
                }
            }
            j = j + 1;
        }
        false
    }

    fn is_epilogue_move(&self, block: &SSABlock, i: usize, dst: &SSAVar, src: &SSAVar) -> (r: bool)
        requires
            i < block.ops@.len(),
        ensures
            r == self@.epilogue_move(*block, i as int, dst@, src@),
    {
        if is_control_register_name(&dst.name) || same_lower(&dst.name, &self.ctx.arch.sp_name) {
            return true;
        }
        if self.ctx.arch.is_frame_pointer_name(&to_lower(&dst.name)) {
            if self.ctx.arch.is_stack_pointer_name(&to_lower(&src.name)) || self.is_restored_before(
                block,
                i,
                src,
            ) {
                return true;
            }
        }
        matches!(block.ops[i], SSAOp::Copy { .. }) && src.is_const()
            && self.seed_copy_is_overwritten_by_control_epilogue_load(block, i, dst)
    }

    fn is_epilogue_op(&self, block: &SSABlock, i: usize) -> (r: bool)
        requires
            i < block.ops@.len(),
        ensures
            r == self@.epilogue_op(*block, i as int),
    {
        match &block.ops[i] {
            SSAOp::Return { target } => self.is_control_return_target(target),
            SSAOp::Load { dst, .. } => self.is_frame_register(dst)
                || self.load_is_control_epilogue_artifact(block, i, dst),
            SSAOp::IntAdd { dst, .. } => same_lower(&dst.name, &self.ctx.arch.sp_name),
            SSAOp::IntSub { dst, .. } => same_lower(&dst.name, &self.ctx.arch.sp_name),
            op => match moves_of(op) {
                Some(p) => self.is_epilogue_move(block, i, p.0, p.1),
                None => false,
            },
        }
    }

    /// Is a block nothing but an epilogue?
    pub fn exit_block_is_control_only_epilogue(&self, block: &SSABlock) -> (r: bool)
        ensures
            r == self@.epilogue(*block),
    {
        let mut i: usize = 0;
        while i < block.ops.len()
            invariant
                i <= block.ops@.len(),
                forall|j: int|
                    #![trigger block.ops@[j]]
                    0 <= j < i ==> self@.epilogue_op(*block, j),
            decreases block.ops@.len() - i,
        {
            if !self.is_epilogue_op(block, i) {
                assert(!self@.epilogue_op(*block, i as int));
                return false;
            }
            i = i + 1;
        }
        true
    }

    /// Does a branch go to an address?
    pub fn is_branch_to(&self, op: &SSAOp, exit: u64) -> (r: bool)
        ensures
            r == self@.branches_to(*op, exit),
    {
        let addr = match op {
            SSAOp::Branch { target } => self.extract_branch_target_address(target),
            SSAOp::CBranch { target, .. } => self.extract_branch_target_address(target),
            _ => None,
        };
        match addr {
            Some(addr) => addr == exit,
            None => false,
        }
    }

    /// The stack slot that a block last stores to before control goes to the exit.
    pub fn return_stack_slot_written_before_exit(
        &self,
        block: &SSABlock,
        exit_addr: u64,
        edge_known: bool,
        returning: &Vec<u64>,
    ) -> (r: Option<i64>)
        ensures
            r == self@.slot_to_exit(*block, exit_addr, edge_known, returning@),
    {
        let mut counts = edge_known || in_addresses(returning, block.addr);
        let mut i: usize = block.ops.len();
        while i > 0
            invariant
                i <= block.ops@.len(),
                self@.slot_to_exit(*block, exit_addr, edge_known, returning@) == self@.slot_written(
                    block.ops@,
                    i as int,
                    exit_addr,
                    counts,
                ),
            decreases i,
        {
            i = i - 1;
            let op = &block.ops[i];
            if counts {
                if let SSAOp::Store { addr, .. } = op {
                    if let Some(offset) = self.stack_slot_offset_for_var(addr) {
                        return Some(offset);
                    }
                }
            }
            counts = counts || self.is_branch_to(op, exit_addr);
        }
        None
    }

    /// The one stack slot that a block loads before it returns.
    pub fn return_stack_slot_loaded_before_control_return(&self, block: &SSABlock) -> (r: Option<i64>)
        ensures
            r == self@.slot_loaded(*block),
    {
        let count: usize = block.ops.len();
        let mut slots: Vec<i64> = Vec::new();
        let mut left = false;
        let mut i: usize = 0;
        assert(slots@ =~= Seq::empty());
        while i < count
            invariant
                i <= count,
                count == block.ops@.len(),
                self@.slots_loaded(*block, i as int) == Some((slots@, left)),
            decreases count - i,
        {
            match &block.ops[i] {
                SSAOp::Load { dst, addr, .. } => {
                    if !(self.is_control_return_target(dst)
                        || self.load_is_control_epilogue_artifact(block, i, dst)) {
                        if let Some(offset) = self.stack_slot_offset_for_var(addr) {
                            if !in_offsets(&slots, offset) {
                                slots.push(offset);
                            }
                        }
                    }
                },
                SSAOp::Return { target } => {
                    if !self.is_control_return_target(target) {
                        proof {
                            self@.nothing_loaded_stays(*block, i + 1, count as int);
                        }
                        return None;
                    }
                    left = true;
                },
                op => {
                    if !is_harmless(op) {
                        proof {
                            self@.nothing_loaded_stays(*block, i + 1, count as int);
                        }
                        return None;
                    }
                },
            }
            i = i + 1;
        }
        if left && slots.len() == 1 {
            Some(slots[0])
        } else {
            None
        }
    }
}

} // verus!
