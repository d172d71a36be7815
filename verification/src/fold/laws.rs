//! What holds of folding as a whole.

use crate::ast::expr::{call, Expr};
use crate::ast::stmt::{assignment, stmt_views, CStmt, Stmt};
use crate::fold::block::{block_rewrite_from, has_return_stmt, Progress};
use crate::fold::context::FoldingContext;
use crate::fold::facts::Val;
use crate::fold::levels::{asked_is_answered, asking, reading, Question, Reading};
use crate::fold::ownership::added;
use crate::fold::stack_names::{gives_way, under};
use crate::fold::structure::exit_from;
use crate::fold::tables::{entry, offset_name, rewritten};
use crate::ssa::{SSABlock, SSAFunction, SSAOp, Var};
use crate::text::listed;
use crate::text::unicode_lower;
use vstd::prelude::*;

verus! {

/// Does no statement but the last return?
pub open spec fn returns_last(list: Seq<Stmt>) -> bool {
    forall|i: int| 0 <= i < list.len() - 1 ==> !((#[trigger] list[i]) is Return)
}

/// Before folding stops nothing has returned; once it has stopped, only the last
/// statement may return.
pub open spec fn orderly(p: Progress) -> bool {
    &&& returns_last(p.stmts)
    &&& !p.stop ==> !has_return_stmt(p.stmts)
}

impl FoldingContext {
    proof fn folding_is_orderly(&self, block: SSABlock, addr: u64, follows: bool, n: int)
        requires
            0 <= n <= block.ops@.len(),
        ensures
            orderly(self.folded_upto(block, addr, follows, n)),
        decreases n,
    {
        if n > 0 {
            self.folding_is_orderly(block, addr, follows, n - 1);
            let p = self.folded_upto(block, addr, follows, n - 1);
            if !p.stop {
                reading(self.at(Some(addr), Some((n - 1) as usize))).step_is_orderly(
                    block,
                    n - 1,
                    follows,
                    p,
                );
            }
        }
    }

    /// Nothing follows a return: only the last statement that the operations of
    /// a block fold to can be one.
    pub proof fn nothing_follows_a_return(&self, block: SSABlock, addr: u64)
        ensures
            returns_last(self.lowered_block(block, addr)),
    {
        let follows = self.follows(block, addr);
        let n = block.ops@.len() as int;
        self.folding_is_orderly(block, addr, follows, n);
        let p = self.folded_upto(block, addr, follows, n);
        let list = self.lowered_block(block, addr);
        if list != p.stmts {
            assert forall|j: int| 0 <= j < list.len() - 1 implies !((
            #[trigger] list[j]) is Return) by {
                assert(list[j] == p.stmts[j]);
            }
        }
    }

    /// Nothing follows a return in what a block folds to: at most one statement is
    /// a return, and that is the last one, so long as the passes over copies and
    /// temporaries put nothing behind a return.
    pub proof fn nothing_follows_a_return_in_the_end(&self, block: SSABlock, addr: u64)
        requires
            self.rewrites_return_last(),
        ensures
            returns_last(self.folded(block, addr)),
            forall|i: int, j: int|
                0 <= i < self.folded(block, addr).len() && 0 <= j < self.folded(block, addr).len() && (
                #[trigger] self.folded(block, addr)[i]) is Return && (#[trigger] self.folded(
                    block,
                    addr,
                )[j]) is Return ==> i == j,
    {
        let here = self.at(Some(addr), None);
        let end = here.ended(block, addr);
        let lowered = here.lowered_block(block, addr);
        here.nothing_follows_a_return(block, addr);
        rewriting_returns_last(end.answers.block_rewrites@, lowered, 0);
        let settled = reading(end).settled(lowered);
        reading(end).pruning_returns_last(settled, 0);
    }

    /// Does no rewriting of a block put anything behind a return?
    pub open spec fn rewrites_return_last(&self) -> bool {
        forall|i: int|
            0 <= i < self.answers.block_rewrites@.len() ==> returns_last(
                stmt_views((#[trigger] self.answers.block_rewrites@[i]).1@),
            )
    }

    /// A block that returns ends in a return as soon as the returned value is known.
    pub proof fn returning_blocks_return(&self, block: SSABlock, addr: u64)
        requires
            self.state.return_blocks@.contains(addr),
            self.folded_upto(
                block,
                addr,
                self.follows(block, addr),
                block.ops@.len() as int,
            ).last is Some,
        ensures
            has_return_stmt(self.lowered_block(block, addr)),
    {
        let p = self.folded_upto(
            block,
            addr,
            self.follows(block, addr),
            block.ops@.len() as int,
        );
        let list = self.lowered_block(block, addr);
        assert(reading(self.ended(block, addr)).in_return_block());
        if !has_return_stmt(p.stmts) {
            assert(list.last() is Return);
        }
    }
}

proof fn rewriting_returns_last(t: Seq<(Vec<CStmt>, Vec<CStmt>)>, list: Seq<Stmt>, i: int)
    requires
        returns_last(list),
        forall|k: int| 0 <= k < t.len() ==> returns_last(stmt_views((#[trigger] t[k]).1@)),
    ensures
        returns_last(block_rewrite_from(t, list, i)),
    decreases t.len() - i,
{
    if 0 <= i < t.len() && stmt_views(t[i].0@) != list {
        rewriting_returns_last(t, list, i + 1);
    }
}

impl Reading {
    proof fn pruning_returns_last(&self, list: Seq<Stmt>, i: int)
        requires
            0 <= i <= list.len(),
            returns_last(list),
        ensures
            returns_last(self.pruned_from(list, i)),
        decreases list.len() - i,
    {
        if i < list.len() {
            self.pruning_returns_last(list, i + 1);
            let rest = self.pruned_from(list, i + 1);
            let all = self.pruned_from(list, i);
            if all != rest {
                assert forall|j: int| 0 <= j < all.len() - 1 implies !((#[trigger] all[j]) is Return) by {
                    if j > 0 {
                        assert(all[j] == rest[j - 1]);
                    } else {
                        assert(rest.len() > 0);
                        assert(i + 1 < list.len());
                        assert(all[j] == list[i]);
                    }
                }
            }
        }
    }

    /// Constants are never shown as variables.
    pub proof fn constants_are_always_inlined(&self, var: Var)
        requires
            var.constant(),
        ensures
            self.expr_of(var) == self.constant(var),
    {
        reveal(Reading::expr_of);
    }

    /// A definition is inlined only where it is used once, or up to three times
    /// where it is small; what only feeds flags is inlined either way.
    pub proof fn inlining_is_bounded(&self, name: Seq<char>)
        requires
            self.inlines(name),
        ensures
            1 <= self.uses(name) <= 3,
            self.uses(name) == 1 || self.small(name) || listed(
                self.ctx.facts.flag_only_values@,
                name,
            ),
            !listed(self.ctx.facts.pinned@, name),
    {
    }

    /// CPU flags never reach the output.
    pub proof fn flags_are_dead(&self, var: Var)
        requires
            listed(self.ctx.arch.cpu_flags@, unicode_lower(var.name)),
        ensures
            self.dead(var),
    {
    }

    /// What is used is not dead, unless it is a flag or only feeds flags.
    pub proof fn what_is_used_lives(&self, var: Var)
        requires
            self.uses(var.display()) > 0,
            !listed(self.ctx.arch.cpu_flags@, unicode_lower(var.name)),
            !listed(self.ctx.facts.flag_only_values@, var.display()),
        ensures
            !self.dead(var),
    {
    }

    /// No statement assigns an expression to itself.
    pub proof fn nothing_is_assigned_to_itself(&self, lhs: Expr, rhs: Expr)
        ensures
            self.assign(lhs, rhs) matches Some(s) ==> exists|left: Expr, right: Expr|
                left != right && s == #[trigger] assignment(left, right),
    {
        reveal(Reading::assign);
        if let Some(s) = self.assign(lhs, rhs) {
            let left = rewritten(self.ctx.answers.stack_rewrites@, lhs);
            let value = self.assigned(left, rhs);
            match left {
                Expr::Var(name) => {
                    assert(s == assignment(left, self.own_call(name, value)));
                },
                _ => {
                    assert(s == assignment(left, value));
                },
            }
        }
    }

    /// What is returned is one of the candidates, and there is one as soon as one
    /// is on offer.
    pub proof fn a_returned_value_is_on_offer(&self, a: Option<Expr>, b: Option<Expr>)
        ensures
            self.better_return(a, b) == a || self.better_return(a, b) == b,
            a is Some || b is Some ==> self.better_return(a, b) is Some,
    {
    }

    /// A settled call passes no more arguments than its function takes.
    pub proof fn arity_is_respected(&self, func: Expr, args: Seq<Expr>)
        ensures
            self.arity_of(func) matches Some(n) ==> (self.within_arity(call(func, args)) matches
                Expr::Call { func: f, args: kept } && *f == func && kept.len() <= n
                && kept.len() <= args.len()),
    {
    }

    /// The definition of a dead or inlined variable adds no statement.
    pub proof fn unshown_values_fold_to_nothing(
        &self,
        block: SSABlock,
        i: int,
        follows: bool,
        p: Progress,
    )
        requires
            0 <= i < block.ops@.len(),
            block.ops@[i].defines() is Some,
            ({
                let dst = block.ops@[i].defines()->0;
                self.dead(dst) || self.inlines(dst.display())
            }),
        ensures
            self.step(block, i, follows, p).stmts == p.stmts,
            self.step(block, i, follows, p).stop == p.stop,
    {
        let op = block.ops@[i];
        defining_ops_go_on(op);
        assert(self.unshown(op));
        self.unshown_steps(block, i, follows, p);
    }

    proof fn unshown_steps(&self, block: SSABlock, i: int, follows: bool, p: Progress)
        requires
            self.unshown(block.ops@[i]),
            !(block.ops@[i] is Store),
            !(block.ops@[i] is Return),
        ensures
            self.step(block, i, follows, p).stmts == p.stmts,
            self.step(block, i, follows, p).stop == p.stop,
    {
        let op = block.ops@[i];
        let last = if follows {
            self.followed(op, p.last)
        } else {
            p.last
        };
        let q = Progress { last, ..p };
        assert(self.folded_rest(block, i, q) == q);
    }

    proof fn slot_assignments_do_not_return(&self, offset: i64, value: Option<Expr>)
        ensures
            self.slot_assignment(offset, value) matches Some(s) ==> !(s is Return),
    {
        match (offset_name(self.ctx.answers.stack_names@, offset), value) {
            (Some(name), Some(value)) => {
                self.nothing_is_assigned_to_itself(Expr::Var(name), value);
            },
            _ => {},
        }
    }

    proof fn return_is_orderly(&self, block: SSABlock, target: Var, p: Progress)
        requires
            orderly(p),
            !p.stop,
        ensures
            orderly(self.folded_return(block, target, p)),
    {
        let e = self.return_expr(target, p.last);
        pushing_is_orderly(p, self.return_stmt(e), true, p.last);
    }

    proof fn rest_is_orderly(&self, block: SSABlock, i: int, p: Progress)
        requires
            orderly(p),
            !p.stop,
        ensures
            orderly(self.folded_rest(block, i, p)),
    {
        let op = block.ops@[i];
        match op {
            SSAOp::Return { target } => {
                self.return_is_orderly(block, target@, p);
            },
            _ => {
                match self.stmt_with_args(op, block.addr, i as usize) {
                    Some(s) => {
                        pushing_is_orderly(p, s, s is Return, p.last);
                    },
                    None => {},
                }
            },
        }
    }

    proof fn step_is_orderly(&self, block: SSABlock, i: int, follows: bool, p: Progress)
        requires
            0 <= i < block.ops@.len(),
            orderly(p),
            !p.stop,
        ensures
            orderly(self.step(block, i, follows, p)),
    {
        let op = block.ops@[i];
        if op is Store && self.slot_returned(op->Store_addr@) is Some {
            let offset = self.slot_returned(op->Store_addr@)->0;
            let value = self.slot_value_stored(block, i, op->Store_val@, offset);
            self.slot_assignments_do_not_return(offset, value);
            match self.slot_assignment(offset, value) {
                Some(s) => {
                    pushing_is_orderly(p, s, false, value);
                },
                None => {},
            }
        }
        let last = if follows {
            self.followed(op, p.last)
        } else {
            p.last
        };
        self.rest_is_orderly(block, i, Progress { last, ..p });
    }

    proof fn carriers_are_added(
        &self,
        func: SSAFunction,
        exit: u64,
        pure: bool,
        edge_known: bool,
        slots: Seq<i64>,
        start: Seq<u64>,
        addrs: Seq<u64>,
        n: int,
    )
        requires
            0 <= n <= addrs.len(),
        ensures
            ({
                let all = self.with_carriers(
                    func,
                    exit,
                    pure,
                    edge_known,
                    slots,
                    start,
                    addrs,
                    n,
                );
                forall|x: u64| #[trigger] start.contains(x) ==> all.contains(x)
            }),
        decreases n,
    {
        if n > 0 {
            self.carriers_are_added(func, exit, pure, edge_known, slots, start, addrs, n - 1);
            let before = self.with_carriers(
                func,
                exit,
                pure,
                edge_known,
                slots,
                start,
                addrs,
                n - 1,
            );
            added_keeps(before, addrs[n - 1]);
        }
    }

    /// The exit is itself a block that returns.
    pub proof fn the_exit_returns(&self, func: SSAFunction)
        ensures
            self.structure_of(func).exit matches Some(exit) ==> self.structure_of(
                func,
            ).blocks.contains(exit),
    {
        match exit_from(func.blocks@, 0) {
            Some(exit) => {
                let pure = match func.block_at(exit) {
                    Some(block) => self.epilogue(block),
                    None => false,
                };
                let slots = self.slots_returned(func, exit);
                let preds = func.preds(exit);
                let branching = self.branching(func.blocks@, exit, func.blocks@.len() as int);
                let merged = match func.block_at(exit) {
                    Some(block) => crate::fold::structure::incoming(
                        block.phis@,
                        block.phis@.len() as int,
                    ),
                    None => Seq::empty(),
                };
                let one = seq![exit];
                assert(one[0] == exit);
                assert(one.contains(exit));
                let n = preds.len() as int;
                self.carriers_are_added(func, exit, pure, true, slots, one, preds, n);
                let by_edge = self.with_carriers(func, exit, pure, true, slots, one, preds, n);
                let m = branching.len() as int;
                self.carriers_are_added(func, exit, pure, false, slots, by_edge, branching, m);
                let by_branch = self.with_carriers(
                    func,
                    exit,
                    pure,
                    false,
                    slots,
                    by_edge,
                    branching,
                    m,
                );
                let k = merged.len() as int;
                self.carriers_are_added(func, exit, pure, false, slots, by_branch, merged, k);
            },
            None => {},
        }
    }

    /// A function returns through one stack slot at most.
    pub proof fn one_return_slot_at_most(&self, func: SSAFunction)
        ensures
            self.structure_of(func).slots.len() <= 1,
    {
        match exit_from(func.blocks@, 0) {
            Some(exit) => {
                let slots = self.slots_returned(func, exit);
                assert(slots.len() <= 1);
                if slots.len() == 1 {
                    assert(self.named_slots(slots, 0) =~= Seq::empty());
                }
            },
            None => {},
        }
    }

    /// External names never replace a name that says more than where a slot is.
    pub proof fn telling_stack_names_stay(&self, vars: Map<i64, Seq<char>>, offset: i64, n: int)
        requires
            0 <= n <= self.ctx.inputs.stack_slots@.len(),
            !gives_way(under(vars, offset)),
        ensures
            under(self.with_external_names(vars, n), offset) == under(vars, offset),
        decreases n,
    {
        if n > 0 {
            self.telling_stack_names_stay(vars, offset, n - 1);
        }
    }

    proof fn reads_stay_distinct(&self, names: Seq<Seq<char>>, reads: Seq<Var>, n: int)
        requires
            names.no_duplicates(),
            0 <= n <= reads.len(),
        ensures
            self.with_reads(names, reads, n).no_duplicates(),
        decreases n,
    {
        if n > 0 {
            self.reads_stay_distinct(names, reads, n - 1);
            added_stays_distinct(self.with_reads(names, reads, n - 1), self.shown(reads[n - 1]));
        }
    }

    proof fn block_names_stay_distinct(&self, names: Seq<Seq<char>>, block: SSABlock, n: int)
        requires
            names.no_duplicates(),
            0 <= n <= block.ops@.len(),
        ensures
            self.with_block_names(names, block, n).no_duplicates(),
        decreases n,
    {
        if n > 0 {
            self.block_names_stay_distinct(names, block, n - 1);
            let before = self.with_block_names(names, block, n - 1);
            let op = block.ops@[n - 1];
            if op.defines() is Some {
                added_stays_distinct(before, self.shown(op.defines()->0));
                self.reads_stay_distinct(
                    added(before, self.shown(op.defines()->0)),
                    op.reads(),
                    op.reads().len() as int,
                );
            }
            self.reads_stay_distinct(before, op.reads(), op.reads().len() as int);
        }
    }

    /// No name is listed twice among those that survive folding.
    pub proof fn shown_names_are_distinct(&self, blocks: Seq<SSABlock>, n: int)
        requires
            0 <= n <= blocks.len(),
        ensures
            self.names_shown(blocks, n).no_duplicates(),
        decreases n,
    {
        if n > 0 {
            self.shown_names_are_distinct(blocks, n - 1);
            self.block_names_stay_distinct(
                self.names_shown(blocks, n - 1),
                blocks[n - 1],
                blocks[n - 1].ops@.len() as int,
            );
        }
    }
}

proof fn pushing_is_orderly(p: Progress, s: Stmt, stop: bool, last: Option<Expr>)
    requires
        orderly(p),
        !p.stop,
        s is Return ==> stop,
    ensures
        orderly(Progress { stmts: p.stmts.push(s), last, stop }),
{
    let list = p.stmts.push(s);
    assert forall|j: int| 0 <= j < list.len() - 1 implies !((#[trigger] list[j]) is Return) by {
        assert(list[j] == p.stmts[j]);
    }
    if !stop {
        assert forall|j: int| 0 <= j < list.len() implies !((#[trigger] list[j]) is Return) by {
            if j < p.stmts.len() {
                assert(list[j] == p.stmts[j]);
            }
        }
    }
}

proof fn defining_ops_go_on(op: SSAOp)
    requires
        op.defines() is Some,
    ensures
        !(op is Store),
        !(op is Return),
{
}

proof fn added_keeps<T>(list: Seq<T>, x: T)
    ensures
        forall|y: T| #[trigger] list.contains(y) ==> added(list, x).contains(y),
{
    if !list.contains(x) {
        assert forall|y: T| #[trigger] list.contains(y) implies list.push(x).contains(y) by {
            let i = choose|i: int| 0 <= i < list.len() && list[i] == y;
            assert(list.push(x)[i] == y);
        }
    }
}

proof fn added_stays_distinct<T>(list: Seq<T>, x: T)
    requires
        list.no_duplicates(),
    ensures
        added(list, x).no_duplicates(),
{
    if !list.contains(x) {
        assert forall|i: int, j: int|
            0 <= i < list.len() + 1 && 0 <= j < list.len() + 1 && i != j implies list.push(x)[i]
            != list.push(x)[j] by {
            if i == list.len() {
                assert(list.contains(list[j]));
            }
            if j == list.len() {
                assert(list.contains(list[i]));
            }
        }
    }
}

impl Reading {
    /// A name that leads back to itself is answered by what stands there in
    /// writing, whichever of its answers is being worked out; the variable behind
    /// it is left open.
    pub proof fn what_leads_back_is_answered_in_writing(
        &self,
        name: Seq<char>,
        depth: int,
        seen: Seq<Seq<char>>,
    )
        ensures
            self.marked("meaning:"@, name) ==> self.name_meaning(name, depth, seen) == Some(
                self.cycle_fallback(name),
            ),
            self.marked("raw:"@, name) ==> self.raw_of(name) == Some(self.cycle_fallback(name)),
            self.marked("definition:"@, name) ==> self.defined_as(name) == Some(
                self.cycle_fallback(name),
            ),
            self.marked("visible:"@, name) ==> self.best_known(name) == Some(self.cycle_fallback(name)),
            self.followed.contains(name) ==> self.resolved(Expr::Var(name), depth, seen).expr
                == self.cycle_fallback(name),
            self.followed.contains(name) ==> self.forced_arg(name, depth, seen).expr == Some(
                self.cycle_fallback(name),
            ),
            self.marked("alias:"@, name) ==> self.alias_of(name) is None,
    {
    }

    /// A value that leads back to itself is not written.
    pub proof fn a_value_that_leads_back_is_not_written(&self, v: Val, depth: int, seen: Seq<Seq<char>>)
        requires
            self.marked("value:"@, v.var.display()),
        ensures
            self.value_expr(v, depth, seen) is None,
    {
    }

    /// While a name is being resolved it is marked, and nothing that was marked
    /// before is lost.
    pub proof fn resolving_marks(&self, rule: Seq<char>, name: Seq<char>)
        ensures
            self.resolving(rule, name).marked(rule, name),
            forall|key: Seq<char>| #[trigger]
                self.marks.contains(key) ==> self.resolving(rule, name).marks.contains(key),
    {
        let more = self.resolving(rule, name).marks;
        assert(more[self.marks.len() as int] == rule + name);
        assert forall|key: Seq<char>| #[trigger] self.marks.contains(key) implies more.contains(key) by {
            let i = choose|i: int| 0 <= i < self.marks.len() && self.marks[i] == key;
            assert(more[i] == key);
        }
    }
}

/// The variable behind a shown name, where none is kept, is the one that the rule
/// for it finds one level down, in the same context, with the same names being resolved.
pub proof fn shown_names_are_traced_one_level_down(
    ctx: FoldingContext,
    marks: Seq<Seq<char>>,
    followed: Seq<Seq<char>>,
    n: nat,
    name: Seq<char>,
)
    requires
        n > 0,
        entry(ctx.kept.aliases@, name) is None,
    ensures
        (Reading { ctx, marks, followed, below: asking(ctx, n) }).ssa_of(name) == (Reading {
            ctx,
            marks,
            followed,
            below: asking(ctx, (n - 1) as nat),
        }).alias_of(name),
{
    asked_is_answered(ctx, n, marks, followed, Question::Behind { name });
}

/// What a name means, where a rule asks for it, is what the rule for meanings says
/// one level down, in the same context, with the same names being resolved.
pub proof fn meanings_are_worked_out_one_level_down(
    ctx: FoldingContext,
    marks: Seq<Seq<char>>,
    followed: Seq<Seq<char>>,
    n: nat,
    name: Seq<char>,
    depth: int,
    seen: Seq<Seq<char>>,
)
    requires
        n > 0,
    ensures
        (Reading { ctx, marks, followed, below: asking(ctx, n) }).asked_meaning(name, depth, seen) == (Reading {
            ctx,
            marks,
            followed,
            below: asking(ctx, (n - 1) as nat),
        }).name_meaning(name, depth, seen),
{
    asked_is_answered(ctx, n, marks, followed, Question::NameMeaning { name, depth, seen });
}

/// An index that leads back to itself counts by how its variable is read, one level
/// down, in the same context, with the same names being resolved.
pub proof fn an_index_that_leads_back_is_read(
    ctx: FoldingContext,
    marks: Seq<Seq<char>>,
    followed: Seq<Seq<char>>,
    n: nat,
    v: Val,
)
    requires
        n > 0,
        marks.contains("value:"@ + v.var.display()),
        !v.var.constant(),
    ensures
        (Reading { ctx, marks, followed, below: asking(ctx, n) }).settled_value(v) == (Reading {
            ctx,
            marks,
            followed,
            below: asking(ctx, (n - 1) as nat),
        }).expr_of(v.var),
{
    let level = Reading { ctx, marks, followed, below: asking(ctx, (n - 1) as nat) };
    level.a_value_that_leads_back_is_not_written(v, 0, Seq::empty());
    asked_is_answered(ctx, n, marks, followed, Question::ValueExpr { v });
    asked_is_answered(ctx, n, marks, followed, Question::Read { var: v.var });
}

} // verus!
