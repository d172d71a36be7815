//! Dropping assignments that a return repeats.

use crate::ast::expr::{BinaryOp, CExpr, Expr};
use crate::ast::stmt::{stmt_views, CStmt, Stmt};
use crate::fold::levels::{Folder, Reading};
use crate::fold::tables::{in_offsets, rewritten};
use vstd::prelude::*;

verus! {

/// A stack slot assignment: the name assigned to and the value.
pub open spec fn named_assignment(s: Stmt) -> Option<(Seq<char>, Expr)> {
    match s {
        Stmt::Expr(Expr::Binary { op, left, right }) => match *left {
            Expr::Var(name) => if op == BinaryOp::Assign {
                Some((name, *right))
            } else {
                None
            },
            _ => None,
        },
        _ => None,
    }
}

fn text_of<'a>(e: &'a CExpr) -> (r: Option<&'a String>)
    ensures
        match r {
            Some(name) => e@ == Expr::Var(name@),
            None => !(e@ is Var),
        },
{
    match e {
        CExpr::Var(name) => Some(name),
        _ => None,
    }
}

fn named_assignment_of<'a>(s: &'a CStmt) -> (r: Option<(&'a String, &'a CExpr)>)
    ensures
        match r {
            Some(p) => named_assignment(s@) == Some((p.0@, p.1@)),
            None => named_assignment(s@) is None,
        },
{
    if let CStmt::Expr(e) = s {
        if let CExpr::Binary { op, left, right } = e {
            if *op == BinaryOp::Assign {
                if let Some(name) = text_of(left) {
                    return Some((name, right));
                }
            }
        }
    }
    None
}

/// The value that a statement returns.
pub open spec fn value_returned(s: Stmt) -> Option<Expr> {
    match s {
        Stmt::Return(e) => e,
        _ => None,
    }
}

impl Reading {
    /// Does a statement only assign to a return slot what the next one returns?
    pub open spec fn redundant(&self, s: Stmt, next: Stmt) -> bool {
        match (named_assignment(s), value_returned(next)) {
            (Some(assigned), Some(returned)) => {
                let value = rewritten(self.ctx.answers.return_rewrites@, assigned.1);
                match self.storage_offset(assigned.0) {
                    Some(offset) => value == rewritten(self.ctx.answers.return_rewrites@, returned)
                        && self.ctx.state.return_stack_slots@.contains(offset)
                        && !self.shows_slot_assignment(offset, value),
                    None => false,
                }
            },
            _ => false,
        }
    }

    /// A list of statements from place `i` on, without the assignments to return
    /// slots that the next statement repeats.
    pub open spec fn pruned_from(&self, list: Seq<Stmt>, i: int) -> Seq<Stmt>
        decreases list.len() - i,
    {
        if i < 0 || i >= list.len() {
            Seq::empty()
        } else if i + 1 < list.len() && self.redundant(list[i], list[i + 1]) {
            self.pruned_from(list, i + 1)
        } else {
            seq![list[i]] + self.pruned_from(list, i + 1)
        }
    }

    /// A list of statements without the assignments to return slots that the
    /// next statement repeats.
    pub open spec fn pruned(&self, list: Seq<Stmt>) -> Seq<Stmt> {
        self.pruned_from(list, 0)
    }

    /// Pruning drops nothing but assignments: every other statement stays, in
    /// its order.
    pub proof fn pruning_drops_only_assignments(&self, list: Seq<Stmt>)
        ensures
            others_from(self.pruned(list), 0) == others_from(list, 0),
    {
        self.pruned_keeps_others(list, 0);
    }

    proof fn pruned_keeps_others(&self, list: Seq<Stmt>, i: int)
        requires
            0 <= i <= list.len(),
        ensures
            others_from(self.pruned_from(list, i), 0) == others_from(list, i),
        decreases list.len() - i,
    {
        if i < list.len() {
            self.pruned_keeps_others(list, i + 1);
            let rest = self.pruned_from(list, i + 1);
            if !(i + 1 < list.len() && self.redundant(list[i], list[i + 1])) {
                others_behind(list[i], rest, 0);
            }
        }
    }

    /// A statement list that ends in a return still ends in it after pruning.
    pub proof fn pruning_keeps_the_last_statement(&self, list: Seq<Stmt>)
        requires
            list.len() > 0,
        ensures
            self.pruned(list).len() > 0,
            self.pruned(list).last() == list.last(),
    {
        self.pruned_keeps_last(list, 0);
    }

    proof fn pruned_keeps_last(&self, list: Seq<Stmt>, i: int)
        requires
            0 <= i < list.len(),
        ensures
            self.pruned_from(list, i).len() > 0,
            self.pruned_from(list, i).last() == list.last(),
        decreases list.len() - i,
    {
        if i + 1 < list.len() {
            self.pruned_keeps_last(list, i + 1);
        } else {
            assert(self.pruned_from(list, i + 1) =~= Seq::empty());
            assert(self.pruned_from(list, i) =~= seq![list[i]]);
        }
    }
}

impl<'a> Folder<'a> {
    fn is_redundant(&self, s: &CStmt, next: &CStmt) -> (r: bool)
        ensures
            r == self@.redundant(s@, next@),
    {
        let assigned = match named_assignment_of(s) {
            Some(assigned) => assigned,
            None => {
                return false;
            },
        };
        if let CStmt::Return(Some(returned)) = next {
            if let Some(offset) = self.stack_offset_for_visible_storage_name(assigned.0) {
                let value = self.resolve_return_candidate(assigned.1);
                let last = self.resolve_return_candidate(returned);
                return value.same(&last) && in_offsets(&self.ctx.state.return_stack_slots, offset)
                    && !self.should_emit_return_slot_assignment(offset, &value);
            }
        }
        false
    }

    /// A list of statements without the assignments to return slots that the
    /// next statement repeats.
    pub fn prune_redundant_assign_return_pairs(&self, stmts: &Vec<CStmt>) -> (r: Vec<CStmt>)
        ensures
            stmt_views(r@) == self@.pruned(stmt_views(stmts@)),
    {
        let mut out: Vec<CStmt> = Vec::new();
        let ghost list = stmt_views(stmts@);
        let mut i: usize = 0;
        assert(stmt_views(out@) + self@.pruned_from(list, 0) =~= self@.pruned_from(list, 0));
        while i < stmts.len()
            invariant
                i <= stmts@.len(),
                list == stmt_views(stmts@),
                stmt_views(out@) + self@.pruned_from(list, i as int) == self@.pruned_from(list, 0),
            decreases stmts@.len() - i,
        {
            let repeated = i + 1 < stmts.len() && self.is_redundant(&stmts[i], &stmts[i + 1]);
            if !repeated {
                let ghost before = stmt_views(out@);
                out.push(stmts[i].dup());
                assert(stmt_views(out@) =~= before.push(list[i as int]));
                assert(before.push(list[i as int]) + self@.pruned_from(list, i + 1) =~= before + (
                seq![list[i as int]] + self@.pruned_from(list, i + 1)));
            }
            i = i + 1;
        }
        assert(stmt_views(out@) + self@.pruned_from(list, i as int) =~= stmt_views(out@));
        out
    }

    /// A folded block without the assignments to return slots that its return
    /// repeats.
    pub fn prune_redundant_return_slot_assignments(&self, stmts: &Vec<CStmt>) -> (r: Vec<CStmt>)
        ensures
            stmt_views(r@) == self@.pruned(stmt_views(stmts@)),
    {
        self.prune_redundant_assign_return_pairs(stmts)
    }
}

/// The statements of a list that are no assignments to names, from place `i` on.
pub open spec fn others_from(list: Seq<Stmt>, i: int) -> Seq<Stmt>
    decreases list.len() - i,
{
    if i < 0 || i >= list.len() {
        Seq::empty()
    } else if named_assignment(list[i]) is Some {
        others_from(list, i + 1)
    } else {
        seq![list[i]] + others_from(list, i + 1)
    }
}

proof fn others_behind(s: Stmt, rest: Seq<Stmt>, i: int)
    requires
        0 <= i <= rest.len(),
    ensures
        others_from(seq![s] + rest, i + 1) == others_from(rest, i),
        i == 0 ==> others_from(seq![s] + rest, 0) == if named_assignment(s) is Some {
            others_from(rest, 0)
        } else {
            seq![s] + others_from(rest, 0)
        },
    decreases rest.len() - i,
{
    let all = seq![s] + rest;
    if i < rest.len() {
        others_behind(s, rest, i + 1);
        assert(all[i + 1] == rest[i]);
    }
    if i == 0 {
        assert(all[0] == s);
    }
}

} // verus!
