//! What a block that returns gives back, and what it shows on the way.

use crate::ast::expr::Expr;
use crate::fold::block::Progress;
use crate::fold::context::FoldingContext;
use crate::fold::levels::{reading, Reading};
use crate::fold::names::control_register;
use crate::fold::returned::width_change;
use crate::ssa::{SSABlock, SSAOp, Var};
use vstd::prelude::*;

verus! {

impl Reading {
    /// Does an operation give a return register a value, not only a place to return to?
    pub open spec fn gives_return_value(&self, op: SSAOp) -> bool {
        op.defines() matches Some(dst) && self.return_register(dst) && !control_register(dst.name)
    }

    /// Does an operation take its value over from a return register?
    pub open spec fn takes_over(&self, op: SSAOp) -> bool {
        match op {
            SSAOp::Copy { dst, src } => self.return_register(src@),
            _ => width_change(op) matches Some(p) && self.return_register(p.1),
        }
    }

    /// A write of a return register replaces what was there: the value behind it does not
    /// depend on the one before, unless it is taken over from a return register.
    pub proof fn the_last_write_counts(&self, op: SSAOp, before: Option<Expr>, other: Option<Expr>)
        requires
            self.gives_return_value(op),
            !self.takes_over(op),
        ensures
            self.followed(op, before) == self.followed(op, other),
            self.followed(op, before) is Some,
            op matches SSAOp::Copy { dst, src } ==> self.followed(op, before) == Some(
                self.returned_source(src@),
            ),
    {
    }

    /// A copy from one return register to another keeps the value that is there.
    pub proof fn moving_the_value_keeps_it(&self, op: SSAOp, e: Expr)
        requires
            self.gives_return_value(op),
            op matches SSAOp::Copy { dst, src } && self.return_register(src@),
        ensures
            self.followed(op, Some(e)) == Some(e),
    {
    }

    /// An operation that gives no return register a value leaves the value that is there.
    pub proof fn other_writes_do_not_count(&self, op: SSAOp, before: Option<Expr>)
        requires
            !self.gives_return_value(op),
        ensures
            self.followed(op, before) == before,
    {
    }

    /// A return through a register that only says where to go gives back the value that is
    /// there, and no other: the target has no influence.
    pub proof fn a_return_gives_back_what_is_there(&self, target: Var, other: Var, e: Expr)
        requires
            control_register(target.name),
            control_register(other.name),
        ensures
            self.return_expr(target, Some(e)) == self.return_target(e, None),
            self.return_expr(target, Some(e)) == self.return_expr(other, Some(e)),
    {
    }
}

impl FoldingContext {
    /// The reading of this context at an operation of a block.
    pub open spec fn reading_at(&self, addr: u64, i: int) -> Reading {
        reading(self.at(Some(addr), Some(i as usize)))
    }

    proof fn lemma_not_stopped_before(&self, block: SSABlock, addr: u64, tracks: bool, j: int, m: int)
        requires
            0 <= j <= m,
            !self.folded_upto(block, addr, tracks, m).stop,
        ensures
            !self.folded_upto(block, addr, tracks, j).stop,
        decreases m - j,
    {
        if j < m {
            if self.folded_upto(block, addr, tracks, m - 1).stop {
                assert(self.folded_upto(block, addr, tracks, m) == self.folded_upto(
                    block,
                    addr,
                    tracks,
                    m - 1,
                ));
            }
            self.lemma_not_stopped_before(block, addr, tracks, j, m - 1);
        }
    }

    proof fn lemma_value_is_kept(&self, block: SSABlock, addr: u64, k: int, j: int)
        requires
            0 <= k < j <= block.ops@.len() <= usize::MAX,
            self.state.return_stack_slots@.len() == 0,
            !self.folded_upto(block, addr, true, j).stop,
            self.reading_at(addr, k).gives_return_value(block.ops@[k]),
            !self.reading_at(addr, k).takes_over(block.ops@[k]),
            !self.reading_at(addr, k).passed_over(block, k),
            forall|i: int|
                k < i < j ==> !(#[trigger] self.reading_at(addr, i)).gives_return_value(block.ops@[i]),
        ensures
            self.folded_upto(block, addr, true, j).last == self.reading_at(addr, k).followed(
                block.ops@[k],
                None,
            ),
        decreases j,
    {
        self.lemma_not_stopped_before(block, addr, true, j - 1, j);
        let p = self.folded_upto(block, addr, true, j - 1);
        let r = self.reading_at(addr, j - 1);
        let op = block.ops@[j - 1];
        assert(self.folded_upto(block, addr, true, j) == r.step(block, j - 1, true, p));
        lemma_step_keeps_or_follows(r, block, j - 1, p);
        if j - 1 == k {
            r.the_last_write_counts(op, p.last, None);
        } else {
            self.lemma_value_is_kept(block, addr, k, j - 1);
            assert(!self.reading_at(addr, j - 1).gives_return_value(op));
            r.other_writes_do_not_count(op, p.last);
        }
    }

    /// What a block returns is the value of the last write of a return register. Nothing
    /// that stands before it, and no later operation, has any influence on it: let a write
    /// at place `k` give a return register a value of its own, let no operation behind it
    /// give one, and let the block return, at place `m`, through a register that only says
    /// where to go. Where no stack slot carries the returned value, the return gives back
    /// what that write computes.
    pub proof fn the_last_write_is_returned(&self, block: SSABlock, addr: u64, k: int, m: int, target: Var)
        requires
            0 <= k < m < block.ops@.len() <= usize::MAX,
            self.state.return_stack_slots@.len() == 0,
            !self.folded_upto(block, addr, true, m).stop,
            self.reading_at(addr, k).gives_return_value(block.ops@[k]),
            !self.reading_at(addr, k).takes_over(block.ops@[k]),
            !self.reading_at(addr, k).passed_over(block, k),
            forall|i: int|
                k < i < m ==> !(#[trigger] self.reading_at(addr, i)).gives_return_value(block.ops@[i]),
            block.ops@[m] matches SSAOp::Return { target: t } && t@ == target,
            control_register(target.name),
            !self.reading_at(addr, m).passed_over(block, m),
        ensures
            ({
                let computed = self.reading_at(addr, k).followed(block.ops@[k], None);
                let there = self.reading_at(addr, m);
                let p = self.folded_upto(block, addr, true, m + 1);
                &&& computed is Some
                &&& p.stop
                &&& p.stmts.len() > 0
                &&& p.stmts.last() is Return
                &&& p.stmts.last() == there.return_stmt(there.return_target(computed->0, None))
                &&& block.ops@[k] matches SSAOp::Copy { dst, src } ==> computed == Some(
                    self.reading_at(addr, k).returned_source(src@),
                )
            }),
    {
        self.lemma_value_is_kept(block, addr, k, m);
        self.reading_at(addr, k).the_last_write_counts(block.ops@[k], None, None);
        let p = self.folded_upto(block, addr, true, m);
        let r = self.reading_at(addr, m);
        assert(self.folded_upto(block, addr, true, m + 1) == r.step(block, m, true, p));
        lemma_step_returns(r, block, m, target, p);
        r.a_return_gives_back_what_is_there(target, target, p.last->0);
    }
}

proof fn lemma_step_keeps_or_follows(r: Reading, block: SSABlock, i: int, p: Progress)
    requires
        0 <= i < block.ops@.len(),
        r.ctx.state.return_stack_slots@.len() == 0,
        !r.step(block, i, true, p).stop,
    ensures
        !r.passed_over(block, i) && r.gives_return_value(block.ops@[i]) ==> r.step(
            block,
            i,
            true,
            p,
        ).last == r.followed(block.ops@[i], p.last),
        !r.gives_return_value(block.ops@[i]) ==> r.step(block, i, true, p).last == p.last,
{
    let op = block.ops@[i];
    assert(forall|v: Var| r.slot_returned(v) is None);
    if !r.gives_return_value(op) {
        r.other_writes_do_not_count(op, p.last);
    }
    if r.control_move(op) {
        assert(!r.gives_return_value(op));
    }
}

proof fn lemma_step_returns(r: Reading, block: SSABlock, i: int, target: Var, p: Progress)
    requires
        0 <= i < block.ops@.len(),
        r.ctx.state.return_stack_slots@.len() == 0,
        !r.passed_over(block, i),
        block.ops@[i] matches SSAOp::Return { target: t } && t@ == target,
    ensures
        r.step(block, i, true, p).stmts == p.stmts.push(
            r.return_stmt(r.return_expr(target, p.last)),
        ),
        r.step(block, i, true, p).stop,
{
    let op = block.ops@[i];
    assert(op.defines() is None);
    r.other_writes_do_not_count(op, p.last);
}

impl Reading {
    /// Folding an operation adds at most one statement, behind those that are there.
    pub proof fn folding_adds_behind(&self, block: SSABlock, i: int, tracks: bool, p: Progress)
        ensures
            ({
                let after = self.step(block, i, tracks, p).stmts;
                after == p.stmts || (after.len() == p.stmts.len() + 1 && after.drop_last() == p.stmts)
            }),
    {
        let after = self.step(block, i, tracks, p).stmts;
        if after.len() == p.stmts.len() + 1 {
            assert(after.drop_last() =~= p.stmts);
        }
    }

    /// An ordinary operation whose value is shown adds its own statement, where it has one: it
    /// is not passed over, touches no slot that is returned through, is no return, and what
    /// it defines is neither dead nor inlined, nor taken by a call, nor kept for the return.
    pub proof fn shown_operations_add_their_statement(
        &self,
        block: SSABlock,
        i: int,
        tracks: bool,
        p: Progress,
    )
        requires
            !self.passed_over(block, i),
            self.ctx.state.return_stack_slots@.len() == 0,
            !(block.ops@[i] is Return),
            !self.control_move(block.ops@[i]),
            block.ops@[i].defines() matches Some(dst) ==> !self.dead(dst) && !self.inlines(dst.display())
                && !crate::text::listed(self.ctx.facts.consumed_by_call@, dst.display())
                && !self.shadow_assignment(dst) && !self.return_register(dst),
            crate::fold::tables::site_entry(
                self.ctx.answers.call_stmts@,
                (block.addr, i as usize),
            ) is None,
        ensures
            self.step(block, i, tracks, p).stmts == match self.stmt_of(block.ops@[i]) {
                Some(s) => p.stmts.push(s),
                None => p.stmts,
            },
            self.step(block, i, tracks, p).last == p.last,
    {
        let op = block.ops@[i];
        assert(forall|v: Var| self.slot_returned(v) is None);
        self.other_writes_do_not_count(op, p.last);
        assert(!self.unshown(op));
    }

    /// What is not shown where it is defined adds nothing.
    pub proof fn unshown_operations_add_nothing(
        &self,
        block: SSABlock,
        i: int,
        tracks: bool,
        p: Progress,
        dst: Var,
    )
        requires
            block.ops@[i].defines() == Some(dst),
            self.ctx.state.return_stack_slots@.len() == 0,
            self.dead(dst) || self.inlines(dst.display()) || crate::text::listed(
                self.ctx.facts.consumed_by_call@,
                dst.display(),
            ) || (self.in_return_block() && self.return_register(dst)),
        ensures
            self.step(block, i, tracks, p).stmts == p.stmts,
    {
        assert(forall|v: Var| self.slot_returned(v) is None);
        assert(!(block.ops@[i] is Return));
        assert(self.unshown(block.ops@[i]));
    }
}

impl Reading {
    /// A store to a slot that the function returns through replaces the value that is there:
    /// what is returned then does not depend on what was there before.
    pub proof fn a_store_to_a_return_slot_counts(
        &self,
        block: SSABlock,
        i: int,
        tracks: bool,
        p: Progress,
        other: Option<Expr>,
    )
        requires
            block.ops@[i] is Store,
            self.slot_returned(block.ops@[i]->Store_addr@) is Some,
            !self.passed_over(block, i),
        ensures
            self.step(block, i, tracks, p).last == self.step(
                block,
                i,
                tracks,
                Progress { last: other, ..p },
            ).last,
            self.step(block, i, tracks, p).last == self.slot_value_stored(
                block,
                i,
                block.ops@[i]->Store_val@,
                self.slot_returned(block.ops@[i]->Store_addr@)->0,
            ),
    {
    }
}

impl FoldingContext {
    /// The exit block folds to nothing where the function returns through stack slots: its
    /// predecessors have returned already. Any other block folds to what its operations give.
    pub proof fn the_exit_is_left_to_its_predecessors(&self, block: SSABlock, addr: u64)
        requires
            self.state.exit_block == Some(block.addr),
            self.state.return_stack_slots@.len() > 0,
        ensures
            self.folded(block, addr).len() == 0,
    {
    }
}

impl FoldingContext {
    proof fn lemma_last_statement_stays(&self, block: SSABlock, addr: u64)
        requires
            self.state.return_stack_slots@.len() == 0,
            self.answers.block_rewrites@.len() == 0,
            self.at(Some(addr), None).lowered_block(block, addr).len() > 0,
        ensures
            self.folded(block, addr).len() > 0,
            self.folded(block, addr).last() == self.at(Some(addr), None).lowered_block(
                block,
                addr,
            ).last(),
    {
        let here = self.at(Some(addr), None);
        let end = here.ended(block, addr);
        let list = here.lowered_block(block, addr);
        assert(reading(end).settled(list) == list);
        reading(end).pruning_keeps_the_last_statement(list);
    }

    proof fn lemma_returned_in_the_end(&self, block: SSABlock, addr: u64, m: int)
        requires
            0 <= m < block.ops@.len(),
            block.ops@[m] is Return,
            self.folded_upto(block, addr, true, m + 1).stop,
            self.folded_upto(block, addr, true, m + 1).stmts.len() > 0,
            self.folded_upto(block, addr, true, m + 1).stmts.last() is Return,
        ensures
            self.lowered_block(block, addr).len() > 0,
            self.lowered_block(block, addr).last() == self.folded_upto(block, addr, true, m + 1).stmts.last(),
    {
        assert(self.follows(block, addr));
        let n = block.ops@.len() as int;
        self.stop_is_kept(block, addr, true, m + 1, n);
        let p = self.folded_upto(block, addr, true, n);
        assert(p.stmts[p.stmts.len() - 1] is Return);
        assert(crate::fold::block::has_return_stmt(p.stmts));
    }

    proof fn lemma_reads_alike(&self, addr: u64, i: int)
        ensures
            self.at(Some(addr), None).reading_at(addr, i) == self.reading_at(addr, i),
    {
        let here = self.at(Some(addr), None);
        assert(here.at(Some(addr), Some(i as usize)) == self.at(Some(addr), Some(i as usize)));
    }

    #[verifier::rlimit(60)]
    #[verifier::spinoff_prover]
    proof fn lemma_ends_in_the_return(
        &self,
        here: FoldingContext,
        block: SSABlock,
        addr: u64,
        k: int,
        m: int,
        target: Var,
    )
        requires
            0 <= k < m < block.ops@.len() <= usize::MAX,
            here == self.at(Some(addr), None),
            self.state.return_stack_slots@.len() == 0,
            self.answers.block_rewrites@.len() == 0,
            !here.folded_upto(block, addr, true, m).stop,
            here.reading_at(addr, k).gives_return_value(block.ops@[k]),
            !here.reading_at(addr, k).takes_over(block.ops@[k]),
            !here.reading_at(addr, k).passed_over(block, k),
            forall|i: int|
                k < i < m ==> !(#[trigger] here.reading_at(addr, i)).gives_return_value(block.ops@[i]),
            block.ops@[m] matches SSAOp::Return { target: t } && t@ == target,
            control_register(target.name),
            !here.reading_at(addr, m).passed_over(block, m),
        ensures
            ({
                let computed = here.reading_at(addr, k).followed(block.ops@[k], None);
                let there = here.reading_at(addr, m);
                &&& computed is Some
                &&& self.folded(block, addr).len() > 0
                &&& self.folded(block, addr).last() == there.return_stmt(
                    there.return_target(computed->0, None),
                )
            }),
    {
        here.the_last_write_is_returned(block, addr, k, m, target);
        here.lemma_returned_in_the_end(block, addr, m);
        self.lemma_last_statement_stays(block, addr);
    }

    /// What a block folds to ends in the return of the last value that was written to a return
    /// register: let a write at place `k` give one a value of its own, let no operation behind
    /// it give one, and let the block return, at place `m`, through a register that only says
    /// where to go. No stack slot carries the returned value, and no pass rewrites the block.
    #[verifier::rlimit(60)]
    #[verifier::spinoff_prover]
    pub proof fn a_block_ends_in_the_return_of_its_last_write(
        &self,
        block: SSABlock,
        addr: u64,
        k: int,
        m: int,
        target: Var,
    )
        requires
            0 <= k < m < block.ops@.len() <= usize::MAX,
            self.state.return_stack_slots@.len() == 0,
            self.answers.block_rewrites@.len() == 0,
            !self.at(Some(addr), None).folded_upto(block, addr, true, m).stop,
            self.reading_at(addr, k).gives_return_value(block.ops@[k]),
            !self.reading_at(addr, k).takes_over(block.ops@[k]),
            !self.reading_at(addr, k).passed_over(block, k),
            forall|i: int|
                k < i < m ==> !(#[trigger] self.reading_at(addr, i)).gives_return_value(block.ops@[i]),
            block.ops@[m] matches SSAOp::Return { target: t } && t@ == target,
            control_register(target.name),
            !self.reading_at(addr, m).passed_over(block, m),
        ensures
            ({
                let computed = self.reading_at(addr, k).followed(block.ops@[k], None);
                let there = self.reading_at(addr, m);
                &&& computed is Some
                &&& self.folded(block, addr).len() > 0
                &&& self.folded(block, addr).last() == there.return_stmt(
                    there.return_target(computed->0, None),
                )
            }),
    {
        let here = self.at(Some(addr), None);
        assert forall|i: int| #[trigger] here.reading_at(addr, i) == self.reading_at(addr, i) by {
            self.lemma_reads_alike(addr, i);
        }
        self.lemma_reads_alike(addr, k);
        self.lemma_reads_alike(addr, m);
        self.lemma_ends_in_the_return(here, block, addr, k, m, target);
    }
}

} // verus!
