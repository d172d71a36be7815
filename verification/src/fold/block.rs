//! Folding the operations of a block to statements.

use crate::ast::expr::{view_opt, CExpr, Expr};
use crate::ast::stmt::{dup_stmts, same_stmts, stmt_views, view_opt_stmt, CStmt, Stmt};
use crate::fold::address::first;
use crate::fold::context::{FoldState, FoldingContext};
use crate::fold::levels::{reading, Folder, Reading};
use crate::fold::names::{
    control_register, is_autogenerated_stack_home_name, is_generic_stack_placeholder_alias,
    is_low_signal_visible_name, low_signal, stack_home, stack_placeholder,
};
use crate::fold::quality::VisibleExprContext;
use crate::fold::returned::{width_change, width_change_of};
use crate::fold::shape::{constish, entry_arg_like, should_prefer_recent_same_family_return_expr};
use crate::fold::tables::{
    find_offset, find_site, in_addresses, in_offsets, in_sites, named_expr, offset_entry, offset_name, site_entry,
};
use crate::ssa::{SSABlock, SSAOp, SSAVar, Var};
use crate::text::{ends_with, has_suffix, in_list, listed, same, unicode_lower};
use vstd::prelude::*;

verus! {

/// What folding a block has come to.
#[derive(Debug)]
pub struct Folding {
    pub stmts: Vec<CStmt>,
    /// The value that the return register was last given.
    pub last: Option<CExpr>,
    /// Nothing behind this operation is folded.
    pub stop: bool,
}

/// What folding a block has come to, as a mathematical value.
pub struct Progress {
    pub stmts: Seq<Stmt>,
    pub last: Option<Expr>,
    pub stop: bool,
}

impl Folding {
    pub open spec fn view(&self) -> Progress {
        Progress { stmts: stmt_views(self.stmts@), last: view_opt(self.last), stop: self.stop }
    }

    fn push(&mut self, s: CStmt)
        ensures
            final(self)@ == (Progress { stmts: old(self)@.stmts.push(s@), ..old(self)@ }),
    {
        self.stmts.push(s);
        assert(stmt_views(self.stmts@) =~= stmt_views(old(self).stmts@).push(s@));
    }
}

/// Does some operation of a block return?
pub open spec fn has_return(ops: Seq<SSAOp>) -> bool {
    exists|i: int| 0 <= i < ops.len() && (#[trigger] ops[i]) is Return
}

fn any_return(ops: &Vec<SSAOp>) -> (r: bool)
    ensures
        r == has_return(ops@),
{
    let mut i: usize = 0;
    while i < ops.len()
        invariant
            i <= ops@.len(),
            forall|j: int| 0 <= j < i ==> !((#[trigger] ops@[j]) is Return),
        decreases ops@.len() - i,
    {
        if matches!(ops[i], SSAOp::Return { .. }) {
            return true;
        }
        i = i + 1;
    }
    false
}

/// Does some statement return?
pub open spec fn has_return_stmt(list: Seq<Stmt>) -> bool {
    exists|i: int| 0 <= i < list.len() && (#[trigger] list[i]) is Return
}

fn any_return_stmt(list: &Vec<CStmt>) -> (r: bool)
    ensures
        r == has_return_stmt(stmt_views(list@)),
{
    let ghost all = stmt_views(list@);
    let mut i: usize = 0;
    while i < list.len()
        invariant
            i <= list@.len(),
            all == stmt_views(list@),
            forall|j: int| 0 <= j < i ==> !((#[trigger] all[j]) is Return),
        decreases list@.len() - i,
    {
        if matches!(list[i], CStmt::Return(_)) {
            assert(all[i as int] is Return);
            return true;
        }
        i = i + 1;
    }
    false
}

/// The rewriting of a list of statements, from entry `i` on.
pub open spec fn block_rewrite_from(t: Seq<(Vec<CStmt>, Vec<CStmt>)>, list: Seq<Stmt>, i: int) -> Seq<
    Stmt,
>
    decreases t.len() - i,
{
    if i < 0 || i >= t.len() {
        list
    } else if stmt_views(t[i].0@) == list {
        stmt_views(t[i].1@)
    } else {
        block_rewrite_from(t, list, i + 1)
    }
}

/// The entry for a block in a table by address, from entry `i` on.
pub open spec fn block_entry_from<V>(t: Seq<(u64, V)>, addr: u64, i: int) -> Option<V>
    decreases t.len() - i,
{
    if i < 0 || i >= t.len() {
        None
    } else if t[i].0 == addr {
        Some(t[i].1)
    } else {
        block_entry_from(t, addr, i + 1)
    }
}

/// The entry for a block in a table by address.
pub fn find_block<'a, V>(t: &'a Vec<(u64, V)>, addr: u64) -> (r: Option<&'a V>)
    ensures
        match r {
            Some(v) => block_entry_from(t@, addr, 0) == Some(*v),
            None => block_entry_from(t@, addr, 0) is None,
        },
{
    let mut i: usize = 0;
    while i < t.len()
        invariant
            i <= t@.len(),
            block_entry_from(t@, addr, 0) == block_entry_from(t@, addr, i as int),
        decreases t@.len() - i,
    {
        if t[i].0 == addr {
            return Some(&t[i].1);
        }
        i = i + 1;
    }
    None
}

impl FoldingContext {
    /// This context, at an operation of a block.
    pub open spec fn at(self, addr: Option<u64>, idx: Option<usize>) -> FoldingContext {
        FoldingContext {
            state: FoldState { current_block_addr: addr, current_op_idx: idx, ..self.state },
            ..self
        }
    }

    /// Folding the first `n` operations of a block. Nothing behind a return is
    /// folded.
    pub open spec fn folded_upto(&self, block: SSABlock, addr: u64, tracks: bool, n: int) -> Progress
        decreases n,
    {
        if n <= 0 {
            Progress { stmts: Seq::empty(), last: None, stop: false }
        } else {
            let p = self.folded_upto(block, addr, tracks, n - 1);
            if p.stop {
                p
            } else {
                reading(self.at(Some(addr), Some((n - 1) as usize))).step(block, n - 1, tracks, p)
            }
        }
    }

    /// How many of the first `n` operations are folded before one returns.
    pub open spec fn reached(&self, block: SSABlock, addr: u64, tracks: bool, n: int) -> int
        decreases n,
    {
        if n <= 0 {
            0
        } else if self.folded_upto(block, addr, tracks, n - 1).stop {
            self.reached(block, addr, tracks, n - 1)
        } else {
            n
        }
    }

    /// Does folding follow the return register through a block?
    pub open spec fn follows(&self, block: SSABlock, addr: u64) -> bool {
        self.state.return_blocks@.contains(addr) || has_return(block.ops@)
    }

    /// This context, where folding a block ends.
    pub open spec fn ended(&self, block: SSABlock, addr: u64) -> FoldingContext {
        let reached = self.reached(
            block,
            addr,
            self.follows(block, addr),
            block.ops@.len() as int,
        );
        self.at(
            Some(addr),
            if reached > 0 {
                Some((reached - 1) as usize)
            } else {
                None
            },
        )
    }

    /// The statements that the operations of a block fold to.
    pub open spec fn lowered_block(&self, block: SSABlock, addr: u64) -> Seq<Stmt> {
        reading(self.ended(block, addr)).closed(
            self.folded_upto(block, addr, self.follows(block, addr), block.ops@.len() as int),
        )
    }

    /// The statements that a block folds to. The exit block folds to none where
    /// its predecessors return through stack slots.
    pub open spec fn folded(&self, block: SSABlock, addr: u64) -> Seq<Stmt> {
        let here = self.at(Some(addr), None);
        let end = here.ended(block, addr);
        if reading(*self).exits(block.addr) && self.state.return_stack_slots@.len() > 0 {
            Seq::empty()
        } else {
            reading(end).pruned(reading(end).settled(here.lowered_block(block, addr)))
        }
    }

    fn lower_block(&mut self, block: &SSABlock, addr: u64) -> (r: Vec<CStmt>)
        requires
            old(self).state.current_block_addr == Some(addr),
            old(self).state.current_op_idx is None,
        ensures
            *final(self) == old(self).ended(*block, addr),
            stmt_views(r@) == old(self).lowered_block(*block, addr),
    {
        let none: Vec<String> = Vec::new();
        let tracks = in_addresses(&self.state.return_blocks, addr) || any_return(&block.ops);
        let mut p = Folding { stmts: Vec::new(), last: None, stop: false };
        assert(stmt_views(p.stmts@) =~= Seq::empty());
        let ghost start = *old(self);
        let ghost mut last: Option<usize> = None;
        assert(*self == start.at(Some(addr), None));
        let mut i: usize = 0;
        while i < block.ops.len() && !p.stop
            invariant
                i <= block.ops@.len(),
                none@.len() == 0,
                tracks == start.follows(*block, addr),
                *self == start.at(Some(addr), last),
                p@ == start.folded_upto(*block, addr, tracks, i as int),
                start.reached(*block, addr, tracks, i as int) == i,
                last == if i > 0 {
                    Some((i - 1) as usize)
                } else {
                    None::<usize>
                },
            decreases block.ops@.len() - i,
        {
            self.state.current_op_idx = Some(i);
            proof {
                last = Some(i);
            }
            p = self.folder(&none).fold_op(block, i, tracks, p);
            i = i + 1;
        }
        proof {
            start.stop_is_kept(*block, addr, tracks, i as int, block.ops@.len() as int);
        }
        self.folder(&none).close(p)
    }

    /// Behind a return nothing is folded any more.
    pub proof fn stop_is_kept(&self, block: SSABlock, addr: u64, tracks: bool, i: int, n: int)
        requires
            0 <= i <= n,
            i == n || self.folded_upto(block, addr, tracks, i).stop,
        ensures
            self.folded_upto(block, addr, tracks, n) == self.folded_upto(block, addr, tracks, i),
            self.reached(block, addr, tracks, n) == self.reached(block, addr, tracks, i),
        decreases n - i,
    {
        if i < n {
            self.stop_is_kept(block, addr, tracks, i, n - 1);
        }
    }

    /// Converts a block to folded C statements. Afterwards the context is at no
    /// operation.
    pub fn fold_block(&mut self, block: &SSABlock, current_block_addr: u64) -> (r: Vec<CStmt>)
        ensures
            *final(self) == old(self).at(None, None),
            stmt_views(r@) == old(self).folded(*block, current_block_addr),
    {
        self.state.current_block_addr = Some(current_block_addr);
        self.state.current_op_idx = None;
        let none: Vec<String> = Vec::new();
        let nothing: Vec<CStmt> = Vec::new();
        assert(stmt_views(nothing@) =~= Seq::empty());
        let out = if self.folder(&none).is_exit(block.addr) && self.state.return_stack_slots.len() > 0 {
            nothing
        } else {
            let raw = self.lower_block(block, current_block_addr);
            let f = self.folder(&none);
            let kept = f.settle(raw);
            f.prune_redundant_return_slot_assignments(&kept)
        };
        self.state.current_block_addr = None;
        self.state.current_op_idx = None;
        out
    }
}

impl Reading {
    /// Does an operation only set up or take down the stack frame, and is that hidden?
    pub open spec fn frame_op(&self, addr: u64, idx: usize) -> bool {
        self.ctx.hide_stack_frame && self.ctx.answers.frame_ops@.contains((addr, idx))
    }

    /// Is one of the results defined right behind a call, from place `j` on,
    /// inlined as the call?
    pub open spec fn result_inlined_from(&self, ops: Seq<SSAOp>, j: int) -> bool
        decreases ops.len() - j,
    {
        if j < 0 || j >= ops.len() {
            false
        } else {
            match ops[j] {
                SSAOp::CallDefine { dst } => (self.inlines(dst@.display()) && (named_expr(
                    self.ctx.facts.definitions@,
                    dst@.display(),
                ) matches Some(Expr::Call { .. }))) || self.result_inlined_from(ops, j + 1),
                _ => false,
            }
        }
    }

    /// Is a call shown only where its one result is used?
    pub open spec fn inlined_call(&self, block: SSABlock, i: int) -> bool {
        let op = block.ops@[i];
        (op is Call || op is CallInd) && (self.ctx.facts.inlined_call_results@.contains(
            (block.addr, i as usize),
        ) || match self.owner_name((block.addr, i as usize)) {
            Some(owner) => !low_signal(owner) && !self.transient(owner)
                && self.result_inlined_from(block.ops@, i + 1),
            None => false,
        })
    }

    /// Does a call with known arguments come next, from place `j` on, before
    /// control leaves the block?
    pub open spec fn call_ahead(&self, block: SSABlock, j: int) -> bool
        decreases block.ops@.len() - j,
    {
        if j < 0 || j >= block.ops@.len() {
            false
        } else {
            match block.ops@[j] {
                SSAOp::Call { .. } => self.ctx.facts.calls_with_args@.contains(
                    (block.addr, j as usize),
                ),
                SSAOp::CallInd { .. } => self.ctx.facts.calls_with_args@.contains(
                    (block.addr, j as usize),
                ),
                SSAOp::Branch { .. } => false,
                SSAOp::CBranch { .. } => false,
                SSAOp::Return { .. } => false,
                _ => self.call_ahead(block, j + 1),
            }
        }
    }

    /// Does an address lie in a local that a reader knows by name?
    pub open spec fn stores_to_local(&self, addr: Var) -> bool {
        match self.slot_offset(addr) {
            Some(offset) => offset < 0 && match offset_name(self.ctx.answers.stack_names@, offset) {
                Some(name) => !stack_placeholder(name) && !stack_home(name) && !has_suffix(
                    name,
                    "_home"@,
                ),
                None => false,
            },
            None => false,
        }
    }

    /// Does a store only put an argument where the next call takes it from?
    pub open spec fn consumed_store(&self, block: SSABlock, i: int) -> bool {
        match block.ops@[i] {
            SSAOp::Store { space, addr, val } => (listed(
                self.ctx.facts.consumed_by_call@,
                addr@.display(),
            ) || listed(self.ctx.facts.consumed_by_call@, val@.display()))
                && !self.stores_to_local(addr@) && self.call_ahead(block, i + 1),
            _ => false,
        }
    }

    /// Is an operation passed over before anything else is asked of it?
    pub open spec fn passed_over(&self, block: SSABlock, i: int) -> bool {
        self.frame_op(block.addr, i as usize) || self.inlined_call(block, i)
            || self.consumed_store(block, i)
    }

    /// The return slot that a variable addresses, in a block that returns.
    pub open spec fn slot_returned(&self, addr: Var) -> Option<i64> {
        match self.slot_offset(addr) {
            Some(offset) => if self.in_return_block() && self.ctx.state.return_stack_slots@.contains(
                offset,
            ) {
                Some(offset)
            } else {
                None
            },
            None => None,
        }
    }

    /// What a stack slot merges to when a block returns.
    pub open spec fn merged_slot(&self, addr: u64, offset: i64) -> Option<Expr> {
        match block_entry_from(self.ctx.answers.merged_slot_returns@, addr, 0) {
            Some(slots) => match offset_entry(slots@, offset) {
                Some(e) => Some(e@),
                None => None,
            },
            None => None,
        }
    }

    /// What the return register merges to when a block returns.
    pub open spec fn merged_register(&self, addr: u64) -> Option<Expr> {
        match block_entry_from(self.ctx.answers.merged_register_returns@, addr, 0) {
            Some(e) => Some(e@),
            None => None,
        }
    }

    /// The value that a store to a return slot makes the returned one.
    pub open spec fn slot_value_stored(&self, block: SSABlock, i: int, val: Var, offset: i64) -> Option<
        Expr,
    > {
        let direct = self.return_of(val);
        let local = match self.recent_return(block, i, val) {
            Some(recent) => if entry_arg_like(direct) && !entry_arg_like(recent) && (constish(
                recent,
                0,
            ) || !constish(direct, 0)) {
                Some(recent)
            } else {
                self.better_return(Some(recent), Some(direct))
            },
            None => Some(direct),
        };
        self.better_return(local, self.merged_slot(block.addr, offset))
    }

    /// The assignment to a return slot, where it is shown.
    pub open spec fn slot_assignment(&self, offset: i64, value: Option<Expr>) -> Option<Stmt> {
        match (offset_name(self.ctx.answers.stack_names@, offset), value) {
            (Some(name), Some(value)) => if !stack_placeholder(name) && value != Expr::Var(name)
                && self.shows_slot_assignment(offset, value) {
                self.assign(Expr::Var(name), value)
            } else {
                None
            },
            _ => None,
        }
    }

    /// Is a variable the return register?
    pub open spec fn return_register(&self, v: Var) -> bool {
        listed(self.ctx.arch.return_regs@, unicode_lower(v.name))
    }

    /// The value that the return register takes from a variable.
    pub open spec fn taken_value(&self, src: Var, last: Option<Expr>) -> Expr {
        if self.return_register(src) {
            match first(last, self.defined_as(src.display())) {
                Some(e) => e,
                None => self.expr_of(src),
            }
        } else {
            self.returned_source(src)
        }
    }

    /// Does an operation only move a value to a return register that says where
    /// the return goes?
    pub open spec fn control_move(&self, op: SSAOp) -> bool {
        match op {
            SSAOp::Copy { dst, src } => self.return_register(dst@) && control_register(dst@.name),
            _ => match width_change(op) {
                Some(p) => self.return_register(p.0) && control_register(p.0.name),
                None => false,
            },
        }
    }

    /// The value of the return register behind an operation.
    pub open spec fn followed(&self, op: SSAOp, last: Option<Expr>) -> Option<Expr> {
        match op.defines() {
            Some(dst) => if !self.return_register(dst) || control_register(dst.name) {
                last
            } else {
                match op {
                    SSAOp::Copy { dst, src } => Some(self.taken_value(src@, last)),
                    _ => match width_change(op) {
                        Some(p) => Some(
                            self.return_cast(p.0, p.1, self.taken_value(p.1, last)),
                        ),
                        None => Some(self.returned_value(op)),
                    },
                }
            },
            None => last,
        }
    }

    /// The target of a return, as it is best shown.
    pub open spec fn shown_target(&self, target: Var) -> Expr {
        let meant = self.chosen(
            self.name_meaning(target.display(), 0, Seq::empty()),
            Some(self.return_of(target)),
            VisibleExprContext::Generic,
        );
        let best = match meant {
            Some(e) => self.chosen(
                Some(e),
                self.best_known(target.display()),
                VisibleExprContext::Generic,
            ),
            None => None,
        };
        match best {
            Some(e) => e,
            None => self.return_of(target),
        }
    }

    /// What a return returns: the last value of the return register where the
    /// target only says where it goes, else the best of the two.
    pub open spec fn return_expr(&self, target: Var, last: Option<Expr>) -> Expr {
        if control_register(target.name) {
            let merged = match self.ctx.state.current_block_addr {
                Some(addr) => self.merged_register(addr),
                None => None,
            };
            match first(last, merged) {
                Some(e) => self.return_target(e, None),
                None => self.return_target(self.shown_target(target), None),
            }
        } else {
            self.return_target(self.shown_target(target), last)
        }
    }

    /// The return statement for an expression.
    pub open spec fn return_stmt(&self, e: Expr) -> Stmt {
        Stmt::Return(Some(self.last_word(self.final_candidate(e), e)))
    }

    /// Is a block the one that the function leaves from?
    pub open spec fn exits(&self, addr: u64) -> bool {
        addr == match self.ctx.state.exit_block {
            Some(exit) => exit,
            None => 0,
        }
    }

    /// Is the value that an operation defines not shown where it is defined?
    pub open spec fn unshown(&self, op: SSAOp) -> bool {
        match op.defines() {
            Some(dst) => {
                ||| self.in_return_block() && self.return_register(dst)
                ||| self.shadow_assignment(dst)
                ||| self.dead(dst)
                ||| self.inlines(dst.display())
                ||| listed(self.ctx.facts.consumed_by_call@, dst.display())
            },
            None => false,
        }
    }

    /// The statement of an operation, with the arguments of a call.
    pub open spec fn stmt_with_args(&self, op: SSAOp, addr: u64, idx: usize) -> Option<Stmt> {
        match site_entry(self.ctx.answers.call_stmts@, (addr, idx)) {
            Some(s) => view_opt_stmt(s),
            None => self.stmt_of(op),
        }
    }

    /// Folding a return.
    pub open spec fn folded_return(&self, block: SSABlock, target: Var, p: Progress) -> Progress {
        if self.exits(block.addr) && control_register(target.name)
            && self.ctx.state.return_stack_slots@.len() > 0 {
            Progress { stop: true, ..p }
        } else {
            Progress {
                stmts: p.stmts.push(self.return_stmt(self.return_expr(target, p.last))),
                stop: true,
                ..p
            }
        }
    }

    /// Folding an operation whose value has been followed.
    pub open spec fn folded_rest(&self, block: SSABlock, i: int, p: Progress) -> Progress {
        let op = block.ops@[i];
        match op {
            SSAOp::Return { target } => self.folded_return(block, target@, p),
            _ => if self.unshown(op) {
                p
            } else {
                match self.stmt_with_args(op, block.addr, i as usize) {
                    Some(s) => Progress {
                        stmts: p.stmts.push(s),
                        stop: p.stop || s is Return,
                        ..p
                    },
                    None => p,
                }
            },
        }
    }

    /// Folding a store to a return slot.
    pub open spec fn folded_slot_store(
        &self,
        block: SSABlock,
        i: int,
        val: Var,
        offset: i64,
        p: Progress,
    ) -> Progress {
        let value = self.slot_value_stored(block, i, val, offset);
        Progress {
            stmts: match self.slot_assignment(offset, value) {
                Some(s) => p.stmts.push(s),
                None => p.stmts,
            },
            last: value,
            ..p
        }
    }

    /// Folding one operation, at its place.
    pub open spec fn step(&self, block: SSABlock, i: int, tracks: bool, p: Progress) -> Progress {
        let op = block.ops@[i];
        if self.passed_over(block, i) {
            p
        } else if op is Store && self.slot_returned(op->Store_addr@) is Some {
            self.folded_slot_store(
                block,
                i,
                op->Store_val@,
                self.slot_returned(op->Store_addr@)->0,
                p,
            )
        } else if op is Load && self.exits(block.addr) && self.slot_returned(
            op->Load_addr@,
        ) is Some {
            p
        } else if tracks && self.control_move(op) {
            p
        } else {
            self.folded_rest(
                block,
                i,
                Progress {
                    last: if tracks {
                        self.followed(op, p.last)
                    } else {
                        p.last
                    },
                    ..p
                },
            )
        }
    }

    /// The statements of a block that returns, with the return that it owes.
    pub open spec fn closed(&self, p: Progress) -> Seq<Stmt> {
        if self.in_return_block() && !has_return_stmt(p.stmts) && p.last is Some {
            p.stmts.push(self.return_stmt(p.last->0))
        } else {
            p.stmts
        }
    }

    /// Statements as the passes over copies and temporaries leave them.
    pub open spec fn settled(&self, list: Seq<Stmt>) -> Seq<Stmt> {
        block_rewrite_from(self.ctx.answers.block_rewrites@, list, 0)
    }
}

impl<'a> Folder<'a> {
    /// Does an operation only set up or take down the stack frame, and is that hidden?
    pub fn is_stack_frame_op(&self, addr: u64, idx: usize) -> (r: bool)
        ensures
            r == self@.frame_op(addr, idx),
    {
        self.ctx.hide_stack_frame && in_sites(&self.ctx.answers.frame_ops, (addr, idx))
    }

    fn is_result_inlined(&self, ops: &Vec<SSAOp>, from: usize) -> (r: bool)
        ensures
            r == self@.result_inlined_from(ops@, from as int),
    {
        let mut j: usize = from;
        while j < ops.len()
            invariant
                from <= j,
                j <= ops@.len() || j == from,
                self@.result_inlined_from(ops@, from as int) == self@.result_inlined_from(
                    ops@,
                    j as int,
                ),
            decreases ops@.len() - j,
        {
            match &ops[j] {
                SSAOp::CallDefine { dst } => {
                    let key = dst.display_name();
                    if self.should_inline(&key) {
                        if let Some(CExpr::Call { .. }) = self.direct_definition_expr(&key) {
                            return true;
                        }
                    }
                },
                _ => {
                    return false;
                },
            }
            j = j + 1;
        }
        false
    }

    /// Is a call shown only where its one result is used?
    pub fn is_inlined_single_use_call_result(&self, block: &SSABlock, op_idx: usize) -> (r: bool)
        requires
            op_idx < block.ops@.len(),
        ensures
            r == self@.inlined_call(*block, op_idx as int),
    {
        let count: usize = block.ops.len();
        if !matches!(block.ops[op_idx], SSAOp::Call { .. } | SSAOp::CallInd { .. }) {
            return false;
        }
        assert(op_idx + 1 <= count);
        if in_sites(&self.ctx.facts.inlined_call_results, (block.addr, op_idx)) {
            return true;
        }
        match self.stable_owned_call_result_name_for_source((block.addr, op_idx)) {
            Some(owner) => !is_low_signal_visible_name(&owner) && !self.is_transient_visible_name(
                &owner,
            ) && self.is_result_inlined(&block.ops, op_idx + 1),
            None => false,
        }
    }

    fn is_call_ahead(&self, block: &SSABlock, from: usize) -> (r: bool)
        ensures
            r == self@.call_ahead(*block, from as int),
    {
        let mut j: usize = from;
        while j < block.ops.len()
            invariant
                from <= j,
                j <= block.ops@.len() || j == from,
                self@.call_ahead(*block, from as int) == self@.call_ahead(*block, j as int),
            decreases block.ops@.len() - j,
        {
            match &block.ops[j] {
                SSAOp::Call { .. } | SSAOp::CallInd { .. } => {
                    return in_sites(&self.ctx.facts.calls_with_args, (block.addr, j));
                },
                SSAOp::Branch { .. } | SSAOp::CBranch { .. } | SSAOp::Return { .. } => {
                    return false;
                },
                _ => {},
            }
            j = j + 1;
        }
        false
    }

    fn is_local_store(&self, addr: &SSAVar) -> (r: bool)
        ensures
            r == self@.stores_to_local(addr@),
    {
        match self.stack_slot_offset_for_var(addr) {
            Some(offset) => offset < 0 && match self.resolve_stack_var(offset) {
                Some(name) => !is_generic_stack_placeholder_alias(&name)
                    && !is_autogenerated_stack_home_name(&name) && !ends_with(&name, "_home"),
                None => false,
            },
            None => false,
        }
    }

    /// Does a store only put an argument where the next call takes it from?
    pub fn is_consumed_immediate_call_home_store(&self, block: &SSABlock, op_idx: usize) -> (r: bool)
        requires
            op_idx < block.ops@.len(),
        ensures
            r == self@.consumed_store(*block, op_idx as int),
    {
        let count: usize = block.ops.len();
        assert(op_idx + 1 <= count);
        match &block.ops[op_idx] {
            SSAOp::Store { addr, val, .. } => (in_list(
                &self.ctx.facts.consumed_by_call,
                &addr.display_name(),
            ) || in_list(&self.ctx.facts.consumed_by_call, &val.display_name()))
                && !self.is_local_store(addr) && self.is_call_ahead(block, op_idx + 1),
            _ => false,
        }
    }

    fn is_passed_over(&self, block: &SSABlock, i: usize) -> (r: bool)
        requires
            i < block.ops@.len(),
        ensures
            r == self@.passed_over(*block, i as int),
    {
        self.is_stack_frame_op(block.addr, i) || self.is_inlined_single_use_call_result(block, i)
            || self.is_consumed_immediate_call_home_store(block, i)
    }

    fn find_slot_returned(&self, addr: &SSAVar) -> (r: Option<i64>)
        ensures
            r == self@.slot_returned(addr@),
    {
        match self.stack_slot_offset_for_var(addr) {
            Some(offset) => if self.is_current_return_block() && in_offsets(
                &self.ctx.state.return_stack_slots,
                offset,
            ) {
                Some(offset)
            } else {
                None
            },
            None => None,
        }
    }

    fn merged_return_candidate_for_block_slot(&self, addr: u64, offset: i64) -> (r: Option<CExpr>)
        ensures
            view_opt(r) == self@.merged_slot(addr, offset),
    {
        match find_block(&self.ctx.answers.merged_slot_returns, addr) {
            Some(slots) => match find_offset(slots, offset) {
                Some(e) => Some(e.dup()),
                None => None,
            },
            None => None,
        }
    }

    fn merged_return_register_candidate_for_block(&self, addr: u64) -> (r: Option<CExpr>)
        ensures
            view_opt(r) == self@.merged_register(addr),
    {
        match find_block(&self.ctx.answers.merged_register_returns, addr) {
            Some(e) => Some(e.dup()),
            None => None,
        }
    }

    fn find_slot_value_stored(&self, block: &SSABlock, i: usize, val: &SSAVar, offset: i64) -> (r: Option<
        CExpr,
    >)
        requires
            i < block.ops@.len(),
        ensures
            view_opt(r) == self@.slot_value_stored(*block, i as int, val@, offset),
    {
        let direct = self.get_return_expr(val);
        let local = match self.recent_same_family_return_expr_before(block, i, val) {
            Some(recent) => if should_prefer_recent_same_family_return_expr(&recent, &direct) {
                Some(recent)
            } else {
                self.preferred_return_candidate(Some(recent), Some(direct))
            },
            None => Some(direct),
        };
        let merged = self.merged_return_candidate_for_block_slot(block.addr, offset);
        self.preferred_return_candidate(local, merged)
    }

    fn slot_assignment_stmt(&self, offset: i64, value: &Option<CExpr>) -> (r: Option<CStmt>)
        ensures
            view_opt_stmt(r) == self@.slot_assignment(offset, view_opt(*value)),
    {
        match (self.resolve_stack_var(offset), value) {
            (Some(name), Some(value)) => {
                if is_generic_stack_placeholder_alias(&name) {
                    return None;
                }
                let var = CExpr::Var(name);
                if value.same(&var) || !self.should_emit_return_slot_assignment(offset, value) {
                    return None;
                }
                self.assign_stmt(var, value.dup())
            },
            _ => None,
        }
    }

    fn is_return_register(&self, v: &SSAVar) -> (r: bool)
        ensures
            r == self@.return_register(v@),
    {
        self.ctx.arch.is_return_register_name(&v.name.to_lowercase())
    }

    fn find_taken_value(&self, src: &SSAVar, last: &Option<CExpr>) -> (r: CExpr)
        ensures
            r@ == self@.taken_value(src@, view_opt(*last)),
    {
        if !self.is_return_register(src) {
            return self.tracked_return_source_expr(src);
        }
        if let Some(e) = last {
            return e.dup();
        }
        match self.lookup_definition(&src.display_name()) {
            Some(e) => e,
            None => self.get_expr(src),
        }
    }

    fn is_control_move(&self, op: &SSAOp) -> (r: bool)
        ensures
            r == self@.control_move(*op),
    {
        match op {
            SSAOp::Copy { dst, .. } => self.is_return_register(dst)
                && self.is_control_return_target(dst),
            _ => match width_change_of(op) {
                Some(p) => self.is_return_register(p.0) && self.is_control_return_target(p.0),
                None => false,
            },
        }
    }

    fn track(&self, op: &SSAOp, last: Option<CExpr>) -> (r: Option<CExpr>)
        ensures
            view_opt(r) == self@.followed(*op, view_opt(last)),
    {
        match op.dst() {
            Some(dst) => {
                if !self.is_return_register(dst) || self.is_control_return_target(dst) {
                    return last;
                }
            },
            None => {
                return last;
            },
        }
        if let SSAOp::Copy { src, .. } = op {
            return Some(self.find_taken_value(src, &last));
        }
        match width_change_of(op) {
            Some(p) => {
                let value = self.find_taken_value(p.1, &last);
                Some(self.tracked_return_cast_expr(p.0, p.1, value))
            },
            None => Some(self.returned_value_expr(op)),
        }
    }

    fn find_shown_target(&self, target: &SSAVar) -> (r: CExpr)
        ensures
            r@ == self@.shown_target(target@),
    {
        let key = target.display_name();
        let meant = self.choose_preferred_visible_expr(
            self.meaning_by_name(&key),
            Some(self.get_return_expr(target)),
        );
        let best = match meant {
            Some(e) => self.choose_preferred_visible_expr(
                Some(e),
                self.best_visible_definition(&key),
            ),
            None => None,
        };
        match best {
            Some(e) => e,
            None => self.get_return_expr(target),
        }
    }

    fn find_return_expr(&self, target: &SSAVar, last: &Option<CExpr>) -> (r: CExpr)
        ensures
            r@ == self@.return_expr(target@, view_opt(*last)),
    {
        if !self.is_control_return_target(target) {
            return self.resolve_return_target_expr(self.find_shown_target(target), last.as_ref());
        }
        if let Some(e) = last {
            return self.resolve_return_target_expr(e.dup(), None);
        }
        let merged = match self.ctx.state.current_block_addr {
            Some(addr) => self.merged_return_register_candidate_for_block(addr),
            None => None,
        };
        match merged {
            Some(e) => self.resolve_return_target_expr(e, None),
            None => self.resolve_return_target_expr(self.find_shown_target(target), None),
        }
    }

    fn make_return(&self, e: &CExpr) -> (r: CStmt)
        ensures
            r@ == self@.return_stmt(e@),
    {
        let settled = self.normalize_final_return_candidate(e);
        CStmt::Return(Some(self.sanitize_final_return_expr(settled, e)))
    }

    fn is_exit(&self, addr: u64) -> (r: bool)
        ensures
            r == self@.exits(addr),
    {
        match self.ctx.state.exit_block {
            Some(exit) => addr == exit,
            None => addr == 0,
        }
    }

    fn is_unshown(&self, op: &SSAOp) -> (r: bool)
        ensures
            r == self@.unshown(*op),
    {
        match op.dst() {
            Some(dst) => (self.is_current_return_block() && self.is_return_register(dst))
                || self.should_suppress_shadow_call_result_assignment(dst) || self.is_dead(dst)
                || self.should_inline(&dst.display_name()) || in_list(
                &self.ctx.facts.consumed_by_call,
                &dst.display_name(),
            ),
            None => false,
        }
    }

    /// The statement of an operation, with the arguments of a call.
    pub fn op_to_stmt_with_args(&self, op: &SSAOp, addr: u64, idx: usize) -> (r: Option<CStmt>)
        ensures
            view_opt_stmt(r) == self@.stmt_with_args(*op, addr, idx),
    {
        match find_site(&self.ctx.answers.call_stmts, (addr, idx)) {
            Some(s) => match s {
                Some(s) => Some(s.dup()),
                None => None,
            },
            None => self.op_to_stmt_impl(op),
        }
    }

    fn fold_return(&self, block: &SSABlock, target: &SSAVar, p: Folding) -> (r: Folding)
        ensures
            r@ == self@.folded_return(*block, target@, p@),
    {
        let mut p = p;
        if !(self.is_exit(block.addr) && self.is_control_return_target(target)
            && self.ctx.state.return_stack_slots.len() > 0) {
            let e = self.find_return_expr(target, &p.last);
            p.push(self.make_return(&e));
        }
        p.stop = true;
        p
    }

    fn fold_rest(&self, block: &SSABlock, i: usize, p: Folding) -> (r: Folding)
        requires
            i < block.ops@.len(),
        ensures
            r@ == self@.folded_rest(*block, i as int, p@),
    {
        let op = &block.ops[i];
        if let SSAOp::Return { target } = op {
            return self.fold_return(block, target, p);
        }
        if self.is_unshown(op) {
            return p;
        }
        let mut p = p;
        if let Some(s) = self.op_to_stmt_with_args(op, block.addr, i) {
            let leaves = matches!(s, CStmt::Return(_));
            p.push(s);
            p.stop = p.stop || leaves;
        }
        p
    }

    fn fold_op(&self, block: &SSABlock, i: usize, tracks: bool, p: Folding) -> (r: Folding)
        requires
            i < block.ops@.len(),
        ensures
            r@ == self@.step(*block, i as int, tracks, p@),
    {
        let op = &block.ops[i];
        if self.is_passed_over(block, i) {
            return p;
        }
        if let SSAOp::Store { addr, val, .. } = op {
            if let Some(offset) = self.find_slot_returned(addr) {
                let mut p = p;
                let value = self.find_slot_value_stored(block, i, val, offset);
                if let Some(s) = self.slot_assignment_stmt(offset, &value) {
                    p.push(s);
                }
                p.last = value;
                return p;
            }
        }
        if let SSAOp::Load { addr, .. } = op {
            if self.is_exit(block.addr) && self.find_slot_returned(addr).is_some() {
                return p;
            }
        }
        if tracks && self.is_control_move(op) {
            return p;
        }
        let mut p = p;
        if tracks {
            p.last = self.track(op, p.last);
        }
        self.fold_rest(block, i, p)
    }

    fn close(&self, p: Folding) -> (r: Vec<CStmt>)
        ensures
            stmt_views(r@) == self@.closed(p@),
    {
        let mut p = p;
        if self.is_current_return_block() && !any_return_stmt(&p.stmts) {
            if let Some(e) = &p.last {
                let s = self.make_return(e);
                p.push(s);
            }
        }
        p.stmts
    }

    fn settle(&self, list: Vec<CStmt>) -> (r: Vec<CStmt>)
        ensures
            stmt_views(r@) == self@.settled(stmt_views(list@)),
    {
        let t = &self.ctx.answers.block_rewrites;
        let mut i: usize = 0;
        while i < t.len()
            invariant
                i <= t@.len(),
                t@ == self.ctx.answers.block_rewrites@,
                block_rewrite_from(t@, stmt_views(list@), 0) == block_rewrite_from(
                    t@,
                    stmt_views(list@),
                    i as int,
                ),
            decreases t@.len() - i,
        {
            if same_stmts(&t[i].0, &list) {
                return dup_stmts(&t[i].1);
            }
            i = i + 1;
        }
        list
    }
}

} // verus!
