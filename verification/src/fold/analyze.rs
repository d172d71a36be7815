//! Taking up what analysis found, and which names the output shows.

use crate::fold::context::{FoldingContext, UseFacts};
use crate::fold::kept::Kept;
use crate::fold::levels::{reading, Folder, Reading};
use crate::fold::ownership::{added, Ownership};
use crate::fold::stack_names::{name_map, StackInfo};
use crate::ssa::{var_views, SSABlock, SSAOp, Var};
use crate::text::{has_prefix, in_list, listed, starts_with, texts};
use vstd::prelude::*;

verus! {

/// What analysis found about some blocks.
pub struct Analyses {
    pub facts: UseFacts,
    /// The settled facts on the stack.
    pub stack: StackInfo,
}

impl Analyses {
    /// The facts, with the settled names of stack slots.
    pub open spec fn settled(self) -> UseFacts {
        UseFacts {
            stack_vars: self.stack.stack_vars,
            stack_arg_aliases: self.stack.stack_arg_aliases,
            ..self.facts
        }
    }
}

fn add_shown(list: &mut Vec<String>, name: String)
    ensures
        texts(final(list)@) == added(texts(old(list)@), name@),
{
    if !crate::fold::definitions::has_name(list, &name) {
        list.push(name);
        assert(texts(list@) =~= texts(old(list)@).push(name@));
    }
}

impl FoldingContext {
    /// The owners of calls that facts give, worked out with none known yet.
    pub open spec fn owners_from(&self, facts: UseFacts) -> Ownership {
        reading(FoldingContext { facts, ownership: None, ..*self }).owned_results()
    }

    /// Is this context the one before, with new facts and the owners that they give?
    /// What the results of calls were shown as is forgotten; what else is kept stays.
    pub open spec fn taken_up(&self, before: FoldingContext, facts: UseFacts) -> bool {
        &&& *self == (FoldingContext {
            facts,
            ownership: self.ownership,
            kept: Kept { owners: self.kept.owners, ..before.kept },
            ..before
        })
        &&& self.kept.owners@.len() == 0
        &&& self.ownership matches Some(o) && o@ == before.owners_from(facts)
    }

    fn take_up(&mut self, facts: UseFacts)
        ensures
            final(self).taken_up(*old(self), facts),
    {
        self.facts = facts;
        self.ownership = None;
        let none: Vec<String> = Vec::new();
        let owners = self.folder(&none).build_semantic_ownership_facts();
        self.ownership = Some(owners);
        self.kept.owners = Vec::new();
    }

    /// Takes up what analysis found about the blocks of a function.
    pub fn analyze_blocks(&mut self, found: Analyses)
        ensures
            final(self).taken_up(*old(self), found.settled()),
    {
        self.take_up(
            UseFacts {
                stack_vars: found.stack.stack_vars,
                stack_arg_aliases: found.stack.stack_arg_aliases,
                ..found.facts
            },
        )
    }

    /// Takes up what analysis found about one block.
    pub fn analyze_block(&mut self, found: Analyses)
        ensures
            final(self).taken_up(*old(self), found.settled()),
    {
        self.analyze_blocks(found)
    }

    /// Settles the stack from the first analysis and the one made again. What the
    /// settled stack overrides goes into the last analysis of uses, whose findings
    /// are taken up together with it.
    pub fn settle_stack(&self, first: StackInfo, again: StackInfo) -> (r: StackInfo)
        ensures
            r@ == reading(*self).settled_stack(first, again),
    {
        let none: Vec<String> = Vec::new();
        self.folder(&none).settle_stack_info(first, again)
    }

    /// The settled names of stack slots are those that folding works with, whatever
    /// the last analysis of uses says of them; all else is as it found it.
    pub proof fn the_settled_stack_is_taken_up(
        before: FoldingContext,
        after: FoldingContext,
        first: StackInfo,
        again: StackInfo,
        found: Analyses,
    )
        requires
            found.stack@ == reading(before).settled_stack(first, again),
            after.taken_up(before, found.settled()),
        ensures
            name_map(after.facts.stack_vars@) == reading(before).settled_stack(first, again).vars,
            name_map(after.facts.stack_arg_aliases@) == reading(before).settled_stack(
                first,
                again,
            ).aliases,
            after.facts == (UseFacts {
                stack_vars: after.facts.stack_vars,
                stack_arg_aliases: after.facts.stack_arg_aliases,
                ..found.facts
            }),
    {
    }

    /// The names of the variables that survive folding, each once.
    pub fn emitted_var_names(&self, blocks: &Vec<SSABlock>) -> (r: Vec<String>)
        ensures
            texts(r@) == reading(*self).names_shown(blocks@, blocks@.len() as int),
    {
        let none: Vec<String> = Vec::new();
        self.folder(&none).emitted_var_names(blocks)
    }

    /// Analysing one block is analysing a list of one: from equal states and equal
    /// findings, both lead to the same facts and the same owners, and leave the
    /// rest as it was.
    pub proof fn one_block_is_a_list_of_one(
        one: FoldingContext,
        list: FoldingContext,
        before: FoldingContext,
        facts: UseFacts,
    )
        requires
            one.taken_up(before, facts),
            list.taken_up(before, facts),
        ensures
            one.facts == list.facts,
            one.ownership->0@ == list.ownership->0@,
            list == (FoldingContext {
                ownership: list.ownership,
                kept: Kept { owners: list.kept.owners, ..one.kept },
                ..one
            }),
            list.kept.owners@ == one.kept.owners@,
    {
        assert(list.kept.owners@ =~= one.kept.owners@);
    }
}

impl Reading {
    /// Is the variable that an operation defines left out of the output?
    pub open spec fn left_out(&self, op: SSAOp) -> bool {
        match op.defines() {
            Some(dst) => self.dead(dst) || self.inlines(dst.display()) || listed(
                self.ctx.facts.consumed_by_call@,
                dst.display(),
            ),
            None => false,
        }
    }

    /// The names with those of the first `n` variables read. Constants and
    /// addresses have none.
    pub open spec fn with_reads(&self, names: Seq<Seq<char>>, reads: Seq<Var>, n: int) -> Seq<
        Seq<char>,
    >
        decreases n,
    {
        if n <= 0 {
            names
        } else {
            let before = self.with_reads(names, reads, n - 1);
            let v = reads[n - 1];
            if v.constant() || has_prefix(v.name, "ram:"@) {
                before
            } else {
                added(before, self.shown(v))
            }
        }
    }

    /// The names with those that an operation shows.
    pub open spec fn with_names_of(&self, names: Seq<Seq<char>>, addr: u64, idx: usize, op: SSAOp) -> Seq<
        Seq<char>,
    > {
        if self.frame_op(addr, idx) || self.left_out(op) || op is Call || op is CallInd {
            names
        } else {
            let defined = match op.defines() {
                Some(dst) => added(names, self.shown(dst)),
                None => names,
            };
            self.with_reads(defined, op.reads(), op.reads().len() as int)
        }
    }

    /// The names with those that the first `n` operations of a block show.
    pub open spec fn with_block_names(&self, names: Seq<Seq<char>>, block: SSABlock, n: int) -> Seq<
        Seq<char>,
    >
        decreases n,
    {
        if n <= 0 {
            names
        } else {
            self.with_names_of(
                self.with_block_names(names, block, n - 1),
                block.addr,
                (n - 1) as usize,
                block.ops@[n - 1],
            )
        }
    }

    /// The names that the first `n` blocks show.
    pub open spec fn names_shown(&self, blocks: Seq<SSABlock>, n: int) -> Seq<Seq<char>>
        decreases n,
    {
        if n <= 0 {
            Seq::empty()
        } else {
            self.with_block_names(
                self.names_shown(blocks, n - 1),
                blocks[n - 1],
                blocks[n - 1].ops@.len() as int,
            )
        }
    }
}

impl<'a> Folder<'a> {
    fn is_left_out(&self, op: &SSAOp) -> (r: bool)
        ensures
            r == self@.left_out(*op),
    {
        match op.dst() {
            Some(dst) => self.is_dead(dst) || self.should_inline(&dst.display_name()) || in_list(
                &self.ctx.facts.consumed_by_call,
                &dst.display_name(),
            ),
            None => false,
        }
    }

    fn add_reads(&self, names: &mut Vec<String>, op: &SSAOp)
        ensures
            texts(final(names)@) == self@.with_reads(
                texts(old(names)@),
                op.reads(),
                op.reads().len() as int,
            ),
    {
        let list = op.sources();
        let ghost start = texts(names@);
        let mut i: usize = 0;
        while i < list.len()
            invariant
                i <= list@.len(),
                var_views(list@) == op.reads(),
                texts(names@) == self@.with_reads(start, op.reads(), i as int),
            decreases list@.len() - i,
        {
            assert(op.reads()[i as int] == list@[i as int]@);
            if !(list[i].is_const() || starts_with(&list[i].name, "ram:")) {
                add_shown(names, self.var_name(&list[i]));
            }
            i = i + 1;
        }
        assert(var_views(list@).len() == list@.len());
    }

    fn add_names_of(&self, names: &mut Vec<String>, addr: u64, idx: usize, op: &SSAOp)
        ensures
            texts(final(names)@) == self@.with_names_of(texts(old(names)@), addr, idx, *op),
    {
        if self.is_stack_frame_op(addr, idx) || self.is_left_out(op) || matches!(
            op,
            SSAOp::Call { .. } | SSAOp::CallInd { .. }
        ) {
            return;
        }
        if let Some(dst) = op.dst() {
            add_shown(names, self.var_name(dst));
        }
        self.add_reads(names, op);
    }

    fn add_block_names(&self, names: &mut Vec<String>, block: &SSABlock)
        ensures
            texts(final(names)@) == self@.with_block_names(
                texts(old(names)@),
                *block,
                block.ops@.len() as int,
            ),
    {
        let ghost start = texts(names@);
        let mut i: usize = 0;
        while i < block.ops.len()
            invariant
                i <= block.ops@.len(),
                texts(names@) == self@.with_block_names(start, *block, i as int),
            decreases block.ops@.len() - i,
        {
            self.add_names_of(names, block.addr, i, &block.ops[i]);
            i = i + 1;
        }
    }

    /// The names of the variables that survive folding, each once.
    pub fn emitted_var_names(&self, blocks: &Vec<SSABlock>) -> (r: Vec<String>)
        ensures
            texts(r@) == self@.names_shown(blocks@, blocks@.len() as int),
    {
        let mut names: Vec<String> = Vec::new();
        assert(texts(names@) =~= Seq::empty());
        let mut i: usize = 0;
        while i < blocks.len()
            invariant
                i <= blocks@.len(),
                texts(names@) == self@.names_shown(blocks@, i as int),
            decreases blocks@.len() - i,
        {
            self.add_block_names(&mut names, &blocks[i]);
            i = i + 1;
        }
        names
    }
}

} // verus!
