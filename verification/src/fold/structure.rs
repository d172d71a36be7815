//! Where a function returns, and through which stack slots.

use crate::fold::block::has_return;
use crate::fold::context::{FoldState, FoldingContext, UseFacts};
use crate::fold::levels::{reading, Folder, Reading};
use crate::fold::ownership::added;
use crate::fold::tables::{in_addresses, in_offsets, offset_name};
use crate::ssa::{PhiNode, SSABlock, SSAFunction, SSAOp, SSAVar};
use crate::text::{listed, lower, same, to_lower};
use vstd::prelude::*;

verus! {

fn block_returns(block: &SSABlock) -> (r: bool)
    ensures
        r == has_return(block.ops@),
{
    let mut i: usize = 0;
    while i < block.ops.len()
        invariant
            i <= block.ops@.len(),
            forall|j: int| 0 <= j < i ==> !((#[trigger] block.ops@[j]) is Return),
        decreases block.ops@.len() - i,
    {
        if matches!(block.ops[i], SSAOp::Return { .. }) {
            return true;
        }
        i = i + 1;
    }
    false
}

/// The first block from place `i` on that returns.
pub open spec fn exit_from(blocks: Seq<SSABlock>, i: int) -> Option<u64>
    decreases blocks.len() - i,
{
    if i < 0 || i >= blocks.len() {
        None
    } else if has_return(blocks[i].ops@) {
        Some(blocks[i].addr)
    } else {
        exit_from(blocks, i + 1)
    }
}

fn find_exit(blocks: &Vec<SSABlock>) -> (r: Option<u64>)
    ensures
        r == exit_from(blocks@, 0),
{
    let mut i: usize = 0;
    while i < blocks.len()
        invariant
            i <= blocks@.len(),
            exit_from(blocks@, 0) == exit_from(blocks@, i as int),
        decreases blocks@.len() - i,
    {
        if block_returns(&blocks[i]) {
            return Some(blocks[i].addr);
        }
        i = i + 1;
    }
    None
}

/// The incoming blocks of the first `n` merges.
pub open spec fn incoming(phis: Seq<PhiNode>, n: int) -> Seq<u64>
    decreases n,
{
    if n <= 0 {
        Seq::empty()
    } else {
        incoming(phis, n - 1) + phis[n - 1].sources@.map_values(|s: (u64, SSAVar)| s.0)
    }
}

fn incoming_blocks(phis: &Vec<PhiNode>) -> (r: Vec<u64>)
    ensures
        r@ == incoming(phis@, phis@.len() as int),
{
    let mut out: Vec<u64> = Vec::new();
    let mut i: usize = 0;
    while i < phis.len()
        invariant
            i <= phis@.len(),
            out@ == incoming(phis@, i as int),
        decreases phis@.len() - i,
    {
        let sources = &phis[i].sources;
        let ghost before = out@;
        let ghost all = sources@.map_values(|s: (u64, SSAVar)| s.0);
        let mut j: usize = 0;
        assert(before =~= before + all.take(0));
        while j < sources.len()
            invariant
                j <= sources@.len(),
                all == sources@.map_values(|s: (u64, SSAVar)| s.0),
                out@ == before + all.take(j as int),
            decreases sources@.len() - j,
        {
            out.push(sources[j].0);
            assert(before + all.take(j + 1) =~= (before + all.take(j as int)).push(
                sources@[j as int].0,
            ));
            j = j + 1;
        }
        assert(all.take(sources@.len() as int) =~= all);
        i = i + 1;
    }
    out
}

/// Where a function returns.
pub struct Structure {
    pub exit: Option<u64>,
    pub blocks: Seq<u64>,
    pub slots: Seq<i64>,
}

impl FoldingContext {
    /// Did preparation find switches?
    pub open spec fn switches_prepared(&self) -> bool {
        match self.inputs.prepared {
            Some(prepared) => prepared.switch_vars@.len() > 0,
            None => false,
        }
    }

    /// Is a block one that returns?
    pub fn is_current_return_context_candidate(&self, addr: u64) -> (r: bool)
        ensures
            r == self.state.return_blocks@.contains(addr),
    {
        in_addresses(&self.state.return_blocks, addr)
    }

    /// Finds where a function returns: its exit block, the blocks that carry the
    /// returned value there, and the stack slots that they carry it in. Nothing is
    /// kept of a function before. Selectors that analysis found give way to those
    /// that preparation found.
    pub fn analyze_function_structure(&mut self, func: &SSAFunction)
        ensures
            ({
                let found = reading(*old(self)).structure_of(*func);
                &&& final(self).state.exit_block == found.exit
                &&& final(self).state.return_blocks@ == found.blocks
                &&& final(self).state.return_stack_slots@ == found.slots
                &&& old(self).switches_prepared() ==> (
                final(self).facts.switch_selector_roots@.len() == 0)
                &&& !old(self).switches_prepared() ==> final(self).facts.switch_selector_roots
                    == old(self).facts.switch_selector_roots
                &&& *final(self) == (FoldingContext {
                    state: FoldState {
                        exit_block: final(self).state.exit_block,
                        return_blocks: final(self).state.return_blocks,
                        return_stack_slots: final(self).state.return_stack_slots,
                        ..old(self).state
                    },
                    facts: UseFacts {
                        switch_selector_roots: final(self).facts.switch_selector_roots,
                        ..old(self).facts
                    },
                    ..*old(self)
                })
            }),
    {
        let none: Vec<String> = Vec::new();
        let exit = find_exit(&func.blocks);
        let mut blocks: Vec<u64> = Vec::new();
        let mut slots: Vec<i64> = Vec::new();
        assert(blocks@ =~= Seq::empty());
        assert(slots@ =~= Seq::empty());
        if let Some(addr) = exit {
            let f = self.folder(&none);
            let all = f.detect_return_stack_slots(func, addr);
            blocks = f.find_blocks_returning(func, addr, &all);
            slots = f.keep_named_slots(&all);
        }
        self.state.exit_block = exit;
        self.state.return_blocks = blocks;
        self.state.return_stack_slots = slots;
        let prepared = match &self.inputs.prepared {
            Some(prepared) => prepared.switch_vars.len() > 0,
            None => false,
        };
        if prepared {
            self.facts.switch_selector_roots = Vec::new();
        }
    }
}

impl Reading {
    /// The slot that all of the first `n` predecessors of the exit store to last;
    /// `None` where one stores to none or two differ.
    pub open spec fn common_slot(&self, func: SSAFunction, exit: u64, preds: Seq<u64>, n: int) -> Option<
        i64,
    >
        decreases n,
    {
        if n <= 0 {
            None
        } else {
            let slot = match func.block_at(preds[n - 1]) {
                Some(block) => self.slot_to_exit(block, exit, true, seq![exit]),
                None => None,
            };
            if n == 1 || slot is None || self.common_slot(func, exit, preds, n - 1) == slot {
                slot
            } else {
                None
            }
        }
    }

    /// The stack slots that the function returns through. They are known where
    /// the exit block is nothing but an epilogue, or loads one slot and returns:
    /// then all predecessors have to agree on the slot.
    pub open spec fn slots_returned(&self, func: SSAFunction, exit: u64) -> Seq<i64> {
        let preds = func.preds(exit);
        match func.block_at(exit) {
            Some(block) => {
                let pure = self.epilogue(block);
                let loaded = if pure {
                    None
                } else {
                    self.slot_loaded(block)
                };
                let common = self.common_slot(func, exit, preds, preds.len() as int);
                if (pure || loaded is Some) && common is Some && (loaded is None || loaded
                    == common) {
                    seq![common->0]
                } else {
                    Seq::empty()
                }
            },
            None => Seq::empty(),
        }
    }

    proof fn disagreement_stays(&self, func: SSAFunction, exit: u64, preds: Seq<u64>, i: int, n: int)
        requires
            0 < i <= n,
            self.common_slot(func, exit, preds, i) is None,
        ensures
            self.common_slot(func, exit, preds, n) is None,
        decreases n - i,
    {
        if i < n {
            self.disagreement_stays(func, exit, preds, i, n - 1);
        }
    }

    /// From operation `n` back: does a block write the return register on its
    /// way to the exit? `reaches` says that control is on its way there.
    pub open spec fn writes_return(&self, ops: Seq<SSAOp>, n: int, exit: u64, reaches: bool) -> bool
        decreases n,
    {
        if n <= 0 {
            false
        } else {
            let op = ops[n - 1];
            if op is Branch || op is CBranch {
                self.writes_return(ops, n - 1, exit, reaches || self.branches_to(op, exit))
            } else if reaches && op.defines() is Some && listed(
                self.ctx.arch.return_regs@,
                lower(op.defines()->0.name),
            ) {
                true
            } else {
                self.writes_return(ops, n - 1, exit, reaches)
            }
        }
    }

    /// Does some branch of a block go to the exit?
    pub open spec fn reaches_exit(&self, ops: Seq<SSAOp>, exit: u64) -> bool {
        exists|i: int| 0 <= i < ops.len() && self.branches_to(#[trigger] ops[i], exit)
    }

    /// Does the block at an address carry the returned value to the exit: in a
    /// return slot, or in the return register where the exit is nothing but an
    /// epilogue? `blocks` and `slots` are the blocks and slots known to return.
    pub open spec fn carries_return(
        &self,
        func: SSAFunction,
        addr: u64,
        exit: u64,
        pure: bool,
        edge_known: bool,
        blocks: Seq<u64>,
        slots: Seq<i64>,
    ) -> bool {
        match func.block_at(addr) {
            Some(block) => (edge_known || self.reaches_exit(block.ops@, exit)) && {
                ||| match self.slot_to_exit(block, exit, edge_known, blocks) {
                    Some(slot) => slots.contains(slot),
                    None => false,
                }
                ||| pure && self.writes_return(
                    block.ops@,
                    block.ops@.len() as int,
                    exit,
                    edge_known,
                )
            },
            None => false,
        }
    }

    /// The blocks that return, with the first `n` of `addrs` that carry the
    /// returned value.
    pub open spec fn with_carriers(
        &self,
        func: SSAFunction,
        exit: u64,
        pure: bool,
        edge_known: bool,
        slots: Seq<i64>,
        start: Seq<u64>,
        addrs: Seq<u64>,
        n: int,
    ) -> Seq<u64>
        decreases n,
    {
        if n <= 0 {
            start
        } else {
            let before = self.with_carriers(
                func,
                exit,
                pure,
                edge_known,
                slots,
                start,
                addrs,
                n - 1,
            );
            let addr = addrs[n - 1];
            if addr != exit && self.carries_return(
                func,
                addr,
                exit,
                pure,
                edge_known,
                before,
                slots,
            ) {
                added(before, addr)
            } else {
                before
            }
        }
    }

    /// The blocks whose plain branches go to the exit, from the first `n`.
    pub open spec fn branching(&self, blocks: Seq<SSABlock>, exit: u64, n: int) -> Seq<u64>
        decreases n,
    {
        if n <= 0 {
            Seq::empty()
        } else {
            let before = self.branching(blocks, exit, n - 1);
            if self.plain_branch(blocks[n - 1].ops@, exit) {
                before.push(blocks[n - 1].addr)
            } else {
                before
            }
        }
    }

    /// Does some plain branch of a block go to the exit?
    pub open spec fn plain_branch(&self, ops: Seq<SSAOp>, exit: u64) -> bool {
        exists|i: int|
            0 <= i < ops.len() && (#[trigger] ops[i]) is Branch && self.branches_to(ops[i], exit)
    }

    /// The blocks that return: the exit, its predecessors that carry the returned
    /// value there, and those that do so by a branch or by a merge at the exit.
    pub open spec fn blocks_returning(&self, func: SSAFunction, exit: u64) -> Seq<u64> {
        let pure = match func.block_at(exit) {
            Some(block) => self.epilogue(block),
            None => false,
        };
        let slots = self.slots_returned(func, exit);
        let preds = func.preds(exit);
        let branching = self.branching(func.blocks@, exit, func.blocks@.len() as int);
        let merged = match func.block_at(exit) {
            Some(block) => incoming(block.phis@, block.phis@.len() as int),
            None => Seq::empty(),
        };
        let by_edge = self.with_carriers(
            func,
            exit,
            pure,
            true,
            slots,
            seq![exit],
            preds,
            preds.len() as int,
        );
        let by_branch = self.with_carriers(
            func,
            exit,
            pure,
            false,
            slots,
            by_edge,
            branching,
            branching.len() as int,
        );
        self.with_carriers(
            func,
            exit,
            pure,
            false,
            slots,
            by_branch,
            merged,
            merged.len() as int,
        )
    }

    /// Does a slot have a name that says more than that it is part of the frame?
    pub open spec fn named_slot_offset(&self, offset: i64) -> bool {
        match offset_name(self.ctx.answers.stack_names@, offset) {
            Some(name) => name != "stack"@ && name != "saved_fp"@,
            None => true,
        }
    }

    /// Those of the first `n` slots whose names say more.
    pub open spec fn named_slots(&self, slots: Seq<i64>, n: int) -> Seq<i64>
        decreases n,
    {
        if n <= 0 {
            Seq::empty()
        } else if self.named_slot_offset(slots[n - 1]) {
            self.named_slots(slots, n - 1).push(slots[n - 1])
        } else {
            self.named_slots(slots, n - 1)
        }
    }

    /// Where a function returns.
    pub open spec fn structure_of(&self, func: SSAFunction) -> Structure {
        let exit = exit_from(func.blocks@, 0);
        match exit {
            Some(addr) => Structure {
                exit,
                blocks: self.blocks_returning(func, addr),
                slots: self.named_slots(
                    self.slots_returned(func, addr),
                    self.slots_returned(func, addr).len() as int,
                ),
            },
            None => Structure { exit, blocks: Seq::empty(), slots: Seq::empty() },
        }
    }
}

impl<'a> Folder<'a> {
    fn find_common_slot(&self, func: &SSAFunction, exit: u64, preds: &Vec<u64>) -> (r: Option<i64>)
        ensures
            r == self@.common_slot(*func, exit, preds@, preds@.len() as int),
    {
        let mut returning: Vec<u64> = Vec::new();
        returning.push(exit);
        assert(returning@ =~= seq![exit]);
        let mut common: Option<i64> = None;
        let mut i: usize = 0;
        while i < preds.len()
            invariant
                i <= preds@.len(),
                returning@ == seq![exit],
                common == self@.common_slot(*func, exit, preds@, i as int),
                i == 0 || common is Some,
            decreases preds@.len() - i,
        {
            let slot = match func.get_block(preds[i]) {
                Some(block) => self.return_stack_slot_written_before_exit(
                    block,
                    exit,
                    true,
                    &returning,
                ),
                None => None,
            };
            let agrees = match (slot, common) {
                (Some(a), Some(b)) => a == b,
                (Some(_), None) => true,
                _ => false,
            };
            if !agrees {
                proof {
                    self@.disagreement_stays(*func, exit, preds@, i + 1, preds@.len() as int);
                }
                return None;
            }
            common = slot;
            i = i + 1;
        }
        common
    }

    /// The stack slots that the function returns through.
    pub fn detect_return_stack_slots(&self, func: &SSAFunction, exit_addr: u64) -> (r: Vec<i64>)
        ensures
            r@ == self@.slots_returned(*func, exit_addr),
    {
        let mut out: Vec<i64> = Vec::new();
        assert(out@ =~= Seq::empty());
        let block = match func.get_block(exit_addr) {
            Some(block) => block,
            None => {
                return out;
            },
        };
        let pure = self.exit_block_is_control_only_epilogue(block);
        let loaded = if pure {
            None
        } else {
            self.return_stack_slot_loaded_before_control_return(block)
        };
        if !pure && loaded.is_none() {
            return out;
        }
        let preds = func.predecessors(exit_addr);
        let common = self.find_common_slot(func, exit_addr, &preds);
        if let Some(slot) = common {
            let agrees = match loaded {
                Some(own) => own == slot,
                None => true,
            };
            if agrees {
                out.push(slot);
                assert(out@ =~= seq![slot]);
            }
        }
        out
    }

    /// Does a block write the return register on its way to the exit?
    pub fn block_writes_return_register_before_exit(
        &self,
        block: &SSABlock,
        exit_addr: u64,
        edge_known: bool,
    ) -> (r: bool)
        ensures
            r == self@.writes_return(block.ops@, block.ops@.len() as int, exit_addr, edge_known),
    {
        let mut reaches = edge_known;
        let mut i: usize = block.ops.len();
        while i > 0
            invariant
                i <= block.ops@.len(),
                self@.writes_return(block.ops@, block.ops@.len() as int, exit_addr, edge_known)
                    == self@.writes_return(block.ops@, i as int, exit_addr, reaches),
            decreases i,
        {
            i = i - 1;
            let op = &block.ops[i];
            if matches!(op, SSAOp::Branch { .. } | SSAOp::CBranch { .. }) {
                reaches = reaches || self.is_branch_to(op, exit_addr);
            } else if reaches {
                if let Some(dst) = op.dst() {
                    if self.ctx.arch.is_return_register_name(&to_lower(&dst.name)) {
                        return true;
                    }
                }
            }
        }
        false
    }

    /// Does some branch of a block go to the exit?
    pub fn block_can_reach_exit_via_terminator(&self, block: &SSABlock, exit_addr: u64) -> (r: bool)
        ensures
            r == self@.reaches_exit(block.ops@, exit_addr),
    {
        let mut i: usize = 0;
        while i < block.ops.len()
            invariant
                i <= block.ops@.len(),
                forall|j: int|
                    0 <= j < i ==> !self@.branches_to(#[trigger] block.ops@[j], exit_addr),
            decreases block.ops@.len() - i,
        {
            if self.is_branch_to(&block.ops[i], exit_addr) {
                return true;
            }
            i = i + 1;
        }
        false
    }

    /// Does the block at an address carry the returned value to the exit?
    pub fn block_is_exit_return_context(
        &self,
        func: &SSAFunction,
        block_addr: u64,
        exit_addr: u64,
        pure_control_exit: bool,
        edge_known: bool,
        blocks: &Vec<u64>,
        slots: &Vec<i64>,
    ) -> (r: bool)
        ensures
            r == self@.carries_return(
                *func,
                block_addr,
                exit_addr,
                pure_control_exit,
                edge_known,
                blocks@,
                slots@,
            ),
    {
        let block = match func.get_block(block_addr) {
            Some(block) => block,
            None => {
                return false;
            },
        };
        if !edge_known && !self.block_can_reach_exit_via_terminator(block, exit_addr) {
            return false;
        }
        if let Some(slot) = self.return_stack_slot_written_before_exit(
            block,
            exit_addr,
            edge_known,
            blocks,
        ) {
            if in_offsets(slots, slot) {
                return true;
            }
        }
        pure_control_exit && self.block_writes_return_register_before_exit(
            block,
            exit_addr,
            edge_known,
        )
    }

    fn add_carriers(
        &self,
        func: &SSAFunction,
        exit: u64,
        pure: bool,
        edge_known: bool,
        slots: &Vec<i64>,
        start: Vec<u64>,
        addrs: &Vec<u64>,
    ) -> (r: Vec<u64>)
        ensures
            r@ == self@.with_carriers(
                *func,
                exit,
                pure,
                edge_known,
                slots@,
                start@,
                addrs@,
                addrs@.len() as int,
            ),
    {
        let mut out = start;
        let mut i: usize = 0;
        while i < addrs.len()
            invariant
                i <= addrs@.len(),
                out@ == self@.with_carriers(
                    *func,
                    exit,
                    pure,
                    edge_known,
                    slots@,
                    start@,
                    addrs@,
                    i as int,
                ),
            decreases addrs@.len() - i,
        {
            let addr: u64 = addrs[i];
            if addr != exit && self.block_is_exit_return_context(
                func,
                addr,
                exit,
                pure,
                edge_known,
                &out,
                slots,
            ) {
                if !in_addresses(&out, addr) {
                    out.push(addr);
                }
            }
            i = i + 1;
        }
        out
    }

    fn has_plain_branch(&self, block: &SSABlock, exit: u64) -> (r: bool)
        ensures
            r == self@.plain_branch(block.ops@, exit),
    {
        let mut i: usize = 0;
        while i < block.ops.len()
            invariant
                i <= block.ops@.len(),
                forall|j: int|
                    0 <= j < i ==> !((#[trigger] block.ops@[j]) is Branch && self@.branches_to(
                        block.ops@[j],
                        exit,
                    )),
            decreases block.ops@.len() - i,
        {
            if matches!(block.ops[i], SSAOp::Branch { .. }) && self.is_branch_to(
                &block.ops[i],
                exit,
            ) {
                return true;
            }
            i = i + 1;
        }
        false
    }

    fn branching_blocks(&self, blocks: &Vec<SSABlock>, exit: u64) -> (r: Vec<u64>)
        ensures
            r@ == self@.branching(blocks@, exit, blocks@.len() as int),
    {
        let mut out: Vec<u64> = Vec::new();
        let mut i: usize = 0;
        while i < blocks.len()
            invariant
                i <= blocks@.len(),
                out@ == self@.branching(blocks@, exit, i as int),
            decreases blocks@.len() - i,
        {
            if self.has_plain_branch(&blocks[i], exit) {
                out.push(blocks[i].addr);
            }
            i = i + 1;
        }
        out
    }

    fn find_blocks_returning(&self, func: &SSAFunction, exit: u64, slots: &Vec<i64>) -> (r: Vec<u64>)
        requires
            slots@ == self@.slots_returned(*func, exit),
        ensures
            r@ == self@.blocks_returning(*func, exit),
    {
        let mut pure = false;
        let mut merged: Vec<u64> = Vec::new();
        assert(merged@ =~= Seq::empty());
        if let Some(block) = func.get_block(exit) {
            pure = self.exit_block_is_control_only_epilogue(block);
            merged = incoming_blocks(&block.phis);
        }
        let preds = func.predecessors(exit);
        let branching = self.branching_blocks(&func.blocks, exit);
        let mut start: Vec<u64> = Vec::new();
        start.push(exit);
        assert(start@ =~= seq![exit]);
        let by_edge = self.add_carriers(func, exit, pure, true, slots, start, &preds);
        let by_branch = self.add_carriers(func, exit, pure, false, slots, by_edge, &branching);
        self.add_carriers(func, exit, pure, false, slots, by_branch, &merged)
    }

    fn is_named_slot_offset(&self, offset: i64) -> (r: bool)
        ensures
            r == self@.named_slot_offset(offset),
    {
        match self.resolve_stack_var(offset) {
            Some(name) => !same(&name, "stack") && !same(&name, "saved_fp"),
            None => true,
        }
    }

    fn keep_named_slots(&self, slots: &Vec<i64>) -> (r: Vec<i64>)
        ensures
            r@ == self@.named_slots(slots@, slots@.len() as int),
    {
        let mut out: Vec<i64> = Vec::new();
        let mut i: usize = 0;
        while i < slots.len()
            invariant
                i <= slots@.len(),
                out@ == self@.named_slots(slots@, i as int),
            decreases slots@.len() - i,
        {
            if self.is_named_slot_offset(slots[i]) {
                out.push(slots[i]);
            }
            i = i + 1;
        }
        out
    }
}

/// The exit is the first block that returns: it is one of the blocks, it holds a return, and
/// no block before it does. Without a return there is none.
pub proof fn the_exit_is_the_first_to_return(blocks: Seq<SSABlock>, from: int)
    requires
        0 <= from <= blocks.len(),
    ensures
        match exit_from(blocks, from) {
            Some(addr) => exists|i: int|
                from <= i < blocks.len() && (#[trigger] blocks[i]).addr == addr && (exists|k: int|
                    0 <= k < blocks[i].ops@.len() && (#[trigger] blocks[i].ops@[k]) is Return) && forall|
                    j: int,
                    k: int,
                |
                    from <= j < i && 0 <= k < blocks[j].ops@.len() ==> !((
                    #[trigger] blocks[j].ops@[k]) is Return),
            None => forall|j: int, k: int|
                from <= j < blocks.len() && 0 <= k < blocks[j].ops@.len() ==> !((
                #[trigger] blocks[j].ops@[k]) is Return),
        },
    decreases blocks.len() - from,
{
    if from < blocks.len() && !has_return(blocks[from].ops@) {
        the_exit_is_the_first_to_return(blocks, from + 1);
    } else if from < blocks.len() {
        assert(blocks[from].addr == exit_from(blocks, from)->0);
    }
}

} // verus!
