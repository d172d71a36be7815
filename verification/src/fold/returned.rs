//! What a block returns.

use crate::ast::expr::{cast, view_opt, CExpr, Expr};
use crate::fold::address::first;
use crate::fold::context::FinalReturn;
use crate::fold::definitions::{has_name, with_name};
use crate::fold::levels::{Folder, Reading};
use crate::fold::names::{
    control_register, generic_arg, is_control_register_name, is_generic_arg_name,
};
use crate::fold::tables::{expr_in_list, expr_listed, in_offsets, named_name, rewrite, rewritten};
use crate::ssa::{SSABlock, SSAOp, SSAVar, Var};
use crate::text::{same, texts};
use vstd::prelude::*;

verus! {

/// Is a pair of expressions listed?
pub open spec fn exprs_paired(t: Seq<(CExpr, CExpr)>, a: Expr, b: Expr) -> bool {
    exists|i: int| 0 <= i < t.len() && (#[trigger] t[i]).0@ == a && t[i].1@ == b
}

fn are_exprs_paired(t: &Vec<(CExpr, CExpr)>, a: &CExpr, b: &CExpr) -> (r: bool)
    ensures
        r == exprs_paired(t@, a@, b@),
{
    let mut i: usize = 0;
    while i < t.len()
        invariant
            i <= t@.len(),
            forall|j: int| 0 <= j < i ==> !((#[trigger] t@[j]).0@ == a@ && t@[j].1@ == b@),
        decreases t@.len() - i,
    {
        if t[i].0.same(a) && t[i].1.same(b) {
            return true;
        }
        i = i + 1;
    }
    false
}

/// The last word on a returned expression, from entry `i` on.
pub open spec fn final_return_from(t: Seq<FinalReturn>, candidate: Expr, raw: Expr, i: int) -> Option<
    Expr,
>
    decreases t.len() - i,
{
    if i < 0 || i >= t.len() {
        None
    } else if t[i].candidate@ == candidate && t[i].raw@ == raw {
        Some(t[i].expr@)
    } else {
        final_return_from(t, candidate, raw, i + 1)
    }
}

/// The source of an operation that only changes a value's width or type.
pub open spec fn width_change(op: SSAOp) -> Option<(Var, Var)> {
    match op {
        SSAOp::IntZExt { dst, src } => Some((dst@, src@)),
        SSAOp::IntSExt { dst, src } => Some((dst@, src@)),
        SSAOp::Trunc { dst, src } => Some((dst@, src@)),
        SSAOp::Cast { dst, src } => Some((dst@, src@)),
        _ => None,
    }
}

/// The source of an operation that only changes a value's width or type.
pub fn width_change_of(op: &SSAOp) -> (r: Option<(&SSAVar, &SSAVar)>)
    ensures
        match r {
            Some(p) => width_change(*op) == Some((p.0@, p.1@)),
            None => width_change(*op) is None,
        },
{
    match op {
        SSAOp::IntZExt { dst, src } => Some((dst, src)),
        SSAOp::IntSExt { dst, src } => Some((dst, src)),
        SSAOp::Trunc { dst, src } => Some((dst, src)),
        SSAOp::Cast { dst, src } => Some((dst, src)),
        _ => None,
    }
}

/// An operation that may change any register.
pub open spec fn calls_out(op: SSAOp) -> bool {
    op is Call || op is CallInd || op is CallOther
}

impl Reading {
    /// The better of two candidates for a returned value.
    pub open spec fn better_return(&self, a: Option<Expr>, b: Option<Expr>) -> Option<Expr> {
        match (a, b) {
            (Some(x), Some(y)) => if exprs_paired(self.ctx.answers.return_preferences@, x, y) {
                Some(y)
            } else {
                Some(x)
            },
            (Some(x), None) => Some(x),
            (None, y) => y,
        }
    }

    /// The last word on a returned expression.
    pub open spec fn last_word(&self, candidate: Expr, raw: Expr) -> Expr {
        match final_return_from(self.ctx.answers.final_returns@, candidate, raw, 0) {
            Some(e) => e,
            None => candidate,
        }
    }

    /// A meaning as a return shows it: conditions are simplified.
    pub open spec fn shown_return(&self, e: Expr) -> Expr {
        let meant = self.semantic(e, 0, Seq::empty());
        if expr_listed(self.ctx.answers.predicate_like@, meant) {
            rewritten(self.ctx.answers.condition_rewrites@, meant)
        } else {
            meant
        }
    }

    /// A returned expression in its final form.
    pub open spec fn final_candidate(&self, e: Expr) -> Expr {
        self.shown_return(rewritten(self.ctx.answers.stack_rewrites@, e))
    }

    /// The value that an operation gives the return register.
    pub open spec fn returned_value(&self, op: SSAOp) -> Expr {
        self.shown_return(rewritten(self.ctx.answers.return_expansions@, self.value_of(op)))
    }

    /// A copied value as a return shows it.
    pub open spec fn returned_source(&self, src: Var) -> Expr {
        let direct = self.expr_of(src);
        if expr_listed(self.ctx.answers.scalar_memory@, direct) && !self.address_artifact(direct) {
            rewritten(self.ctx.answers.return_rewrites@, direct)
        } else if self.return_meta() is Some && !self.narrow_return(src) {
            self.return_of(src)
        } else {
            direct
        }
    }

    /// A returned name followed through definitions, as far as the limit lets it.
    pub open spec fn return_behind(&self, e: Expr, depth: int, seen: Seq<Seq<char>>) -> Option<Expr>
        decreases self.ctx.limits.predicate_operand + 1 - depth,
    {
        if depth > self.ctx.limits.predicate_operand || depth < 0 {
            None
        } else {
            match e {
                Expr::Paren(inner) => self.return_behind(*inner, depth + 1, seen),
                Expr::Cast { ty, expr } => match self.return_behind(*expr, depth + 1, seen) {
                    Some(found) => Some(cast(ty, found)),
                    None => None,
                },
                Expr::Var(name) => if seen.contains(name) {
                    None
                } else {
                    match self.best_known(name) {
                        Some(def) => if def == Expr::Var(name) {
                            None
                        } else {
                            first(self.return_behind(def, depth + 1, seen.push(name)), Some(def))
                        },
                        None => None,
                    }
                },
                _ => None,
            }
        }
    }

    /// What a return shows: its target, what stands behind it, or the value that
    /// the return register was last given; the best of them.
    pub open spec fn return_target(&self, target: Expr, last: Option<Expr>) -> Expr {
        let behind = self.return_behind(target, 0, Seq::empty());
        let best = if behind is Some && behind->0 != target {
            self.better_return(Some(target), behind)
        } else {
            Some(target)
        };
        let all = match last {
            Some(e) => self.better_return(
                best,
                Some(rewritten(self.ctx.answers.return_rewrites@, e)),
            ),
            None => best,
        };
        match all {
            Some(e) => e,
            None => target,
        }
    }

    /// Does a stack slot carry the returned value?
    pub open spec fn return_slot(&self, offset: i64) -> bool {
        ||| exists|i: int|
            0 <= i < self.ctx.facts.stack_slot_of@.len() && (#[trigger] self.ctx.facts.stack_slot_of@[i]).1.offset
                == offset && self.ctx.facts.stack_slot_of@[i].1.return_carrier
        ||| self.ctx.state.return_stack_slots@.contains(offset)
    }

    /// Is a value a name that a reader knows?
    pub open spec fn reader_name(&self, e: Expr) -> bool
        decreases e,
    {
        match e {
            Expr::Var(name) => named_name(self.ctx.answers.arg_aliases@, name) is Some || generic_arg(
                name,
            ) || self.named_local(name),
            Expr::Paren(inner) => self.reader_name(*inner),
            Expr::Cast { ty, expr } => self.reader_name(*expr),
            _ => false,
        }
    }

    /// Is the assignment to a stack slot shown? Not where the slot only carries
    /// a name that a reader knows to the return.
    pub open spec fn shows_slot_assignment(&self, offset: i64, value: Expr) -> bool {
        !self.return_slot(offset) || !self.reader_name(value)
    }

    /// What an operation gives the register family that it writes, as a return
    /// shows it.
    pub open spec fn family_value(&self, op: SSAOp) -> Expr {
        match op {
            SSAOp::Copy { dst, src } => self.return_of(src@),
            _ => match width_change(op) {
                Some(p) => self.return_cast(p.0, p.1, self.return_of(p.1)),
                None => self.returned_value(op),
            },
        }
    }

    /// Does an expression say too little to be returned?
    pub open spec fn unreturnable(&self, e: Expr) -> bool {
        self.return_artifact(e) || self.untouched_return_register(e) || expr_listed(
            self.ctx.answers.return_artifacts@,
            e,
        )
    }

    /// The last value that the first `n` operations gave a register family since
    /// the last call, as a return shows it.
    pub open spec fn recent_value(&self, ops: Seq<SSAOp>, n: int, family: Seq<char>) -> Option<Expr>
        decreases n,
    {
        if n <= 0 {
            None
        } else {
            let op = ops[n - 1];
            if calls_out(op) {
                None
            } else if op.defines() is Some && self.family(op.defines()->0) == Some(family)
                && !self.unreturnable(self.family_value(op)) {
                Some(rewritten(self.ctx.answers.return_rewrites@, self.family_value(op)))
            } else {
                self.recent_value(ops, n - 1, family)
            }
        }
    }

    /// The last value that a register family was given before an operation.
    pub open spec fn recent_return(&self, block: SSABlock, op_idx: int, var: Var) -> Option<Expr> {
        match self.family(var) {
            Some(family) => self.recent_value(block.ops@, op_idx, family),
            None => None,
        }
    }
}

impl<'a> Folder<'a> {
    /// The better of two candidates for a returned value.
    pub fn preferred_return_candidate(&self, a: Option<CExpr>, b: Option<CExpr>) -> (r: Option<CExpr>)
        ensures
            view_opt(r) == self@.better_return(view_opt(a), view_opt(b)),
    {
        match (a, b) {
            (Some(x), Some(y)) => if are_exprs_paired(&self.ctx.answers.return_preferences, &x, &y) {
                Some(y)
            } else {
                Some(x)
            },
            (Some(x), None) => Some(x),
            (None, y) => y,
        }
    }

    /// The last word on a returned expression.
    pub fn sanitize_final_return_expr(&self, candidate: CExpr, raw: &CExpr) -> (r: CExpr)
        ensures
            r@ == self@.last_word(candidate@, raw@),
    {
        let t = &self.ctx.answers.final_returns;
        let mut i: usize = 0;
        while i < t.len()
            invariant
                i <= t@.len(),
                t@ == self.ctx.answers.final_returns@,
                final_return_from(t@, candidate@, raw@, 0) == final_return_from(
                    t@,
                    candidate@,
                    raw@,
                    i as int,
                ),
            decreases t@.len() - i,
        {
            if t[i].candidate.same(&candidate) && t[i].raw.same(raw) {
                return t[i].expr.dup();
            }
            i = i + 1;
        }
        candidate
    }

    fn to_shown_return(&self, e: &CExpr) -> (r: CExpr)
        ensures
            r@ == self@.shown_return(e@),
    {
        let meant = self.semanticized(e);
        if expr_in_list(&self.ctx.answers.predicate_like, &meant) {
            rewrite(&self.ctx.answers.condition_rewrites, &meant)
        } else {
            meant
        }
    }

    /// A returned expression in its final form.
    pub fn normalize_final_return_candidate(&self, e: &CExpr) -> (r: CExpr)
        ensures
            r@ == self@.final_candidate(e@),
    {
        let plain = self.rewrite_stack_expr(e);
        self.to_shown_return(&plain)
    }

    /// The value that an operation gives the return register.
    pub fn returned_value_expr(&self, op: &SSAOp) -> (r: CExpr)
        ensures
            r@ == self@.returned_value(*op),
    {
        let raw = self.op_to_expr_impl(op);
        let wide = rewrite(&self.ctx.answers.return_expansions, &raw);
        self.to_shown_return(&wide)
    }

    /// A copied value as a return shows it.
    pub fn tracked_return_source_expr(&self, src: &SSAVar) -> (r: CExpr)
        ensures
            r@ == self@.returned_source(src@),
    {
        let direct = self.get_expr(src);
        if expr_in_list(&self.ctx.answers.scalar_memory, &direct)
            && !self.expr_is_address_artifact_in_scalar_context(&direct) {
            return self.resolve_return_candidate(&direct);
        }
        if self.function_return_int_meta().is_some() && !self.should_preserve_narrow_return_expr(
            src,
        ) {
            return self.get_return_expr(src);
        }
        direct
    }

    /// A returned name followed through definitions.
    pub fn resolve_return_expr_from_defs(&self, e: &CExpr, depth: u32, visited: &Vec<String>) -> (r: Option<
        CExpr,
    >)
        ensures
            view_opt(r) == self@.return_behind(e@, depth as int, texts(visited@)),
        decreases self.ctx.limits.predicate_operand + 1 - depth,
    {
        if depth > self.ctx.limits.predicate_operand as u32 {
            return None;
        }
        match e {
            CExpr::Paren(inner) => self.resolve_return_expr_from_defs(inner, depth + 1, visited),
            CExpr::Cast { ty, expr } => match self.resolve_return_expr_from_defs(
                expr,
                depth + 1,
                visited,
            ) {
                Some(found) => Some(CExpr::cast(ty.dup(), found)),
                None => None,
            },
            CExpr::Var(name) => {
                if has_name(visited, name) {
                    return None;
                }
                match self.best_visible_definition(name) {
                    Some(def) => {
                        if is_exactly(&def, name) {
                            return None;
                        }
                        let more = with_name(visited, name);
                        match self.resolve_return_expr_from_defs(&def, depth + 1, &more) {
                            Some(found) => Some(found),
                            None => Some(def),
                        }
                    },
                    None => None,
                }
            },
            _ => None,
        }
    }

    /// What a return shows.
    pub fn resolve_return_target_expr(&self, target: CExpr, last: Option<&CExpr>) -> (r: CExpr)
        ensures
            r@ == self@.return_target(
                target@,
                match last {
                    Some(e) => Some(e@),
                    None => None,
                },
            ),
    {
        let none: Vec<String> = Vec::new();
        assert(texts(none@) =~= Seq::empty());
        let behind = self.resolve_return_expr_from_defs(&target, 0, &none);
        let other = match &behind {
            Some(e) => !e.same(&target),
            None => false,
        };
        let mut best = Some(target.dup());
        if other {
            best = self.preferred_return_candidate(best, behind);
        }
        if let Some(e) = last {
            let resolved = self.resolve_return_candidate(e);
            best = self.preferred_return_candidate(best, Some(resolved));
        }
        match best {
            Some(e) => e,
            None => target,
        }
    }

    fn is_return_slot(&self, offset: i64) -> (r: bool)
        ensures
            r == self@.return_slot(offset),
    {
        let t = &self.ctx.facts.stack_slot_of;
        let mut i: usize = 0;
        while i < t.len()
            invariant
                i <= t@.len(),
                t@ == self.ctx.facts.stack_slot_of@,
                forall|j: int|
                    0 <= j < i ==> !((#[trigger] t@[j]).1.offset == offset
                        && t@[j].1.return_carrier),
            decreases t@.len() - i,
        {
            if t[i].1.offset == offset && t[i].1.return_carrier {
                return true;
            }
            i = i + 1;
        }
        in_offsets(&self.ctx.state.return_stack_slots, offset)
    }

    fn is_reader_name(&self, e: &CExpr) -> (r: bool)
        ensures
            r == self@.reader_name(e@),
        decreases e,
    {
        match e {
            CExpr::Var(name) => self.arg_alias_for_rendered_name(name).is_some()
                || is_generic_arg_name(name) || self.is_named_scalar_local(name),
            CExpr::Paren(inner) => self.is_reader_name(inner),
            CExpr::Cast { ty, expr } => self.is_reader_name(expr),
            _ => false,
        }
    }

    /// Is the assignment to a stack slot shown?
    pub fn should_emit_return_slot_assignment(&self, offset: i64, value: &CExpr) -> (r: bool)
        ensures
            r == self@.shows_slot_assignment(offset, value@),
    {
        !self.is_return_slot(offset) || !self.is_reader_name(value)
    }

    /// Does a return go to a register that says where it goes, not what it returns?
    pub fn is_control_return_target(&self, target: &SSAVar) -> (r: bool)
        ensures
            r == control_register(target.name@),
    {
        is_control_register_name(&target.name)
    }

    fn family_value_expr(&self, op: &SSAOp) -> (r: CExpr)
        ensures
            r@ == self@.family_value(*op),
    {
        if let SSAOp::Copy { src, .. } = op {
            return self.get_return_expr(src);
        }
        match width_change_of(op) {
            Some(p) => self.tracked_return_cast_expr(p.0, p.1, self.get_return_expr(p.1)),
            None => self.returned_value_expr(op),
        }
    }

    fn is_unreturnable(&self, e: &CExpr) -> (r: bool)
        ensures
            r == self@.unreturnable(e@),
    {
        self.is_low_level_return_artifact(e) || self.is_uninitialized_return_reg(e)
            || expr_in_list(&self.ctx.answers.return_artifacts, e)
    }

    /// The last value that a register family was given before an operation.
    pub fn recent_same_family_return_expr_before(
        &self,
        block: &SSABlock,
        op_idx: usize,
        var: &SSAVar,
    ) -> (r: Option<CExpr>)
        requires
            op_idx <= block.ops@.len(),
        ensures
            view_opt(r) == self@.recent_return(*block, op_idx as int, var@),
    {
        let family = match self.register_family_name_for_ssa(var) {
            Some(family) => family,
            None => {
                return None;
            },
        };
        let mut i: usize = op_idx;
        while i > 0
            invariant
                i <= op_idx <= block.ops@.len(),
                self@.family(var@) == Some(family@),
                self@.recent_value(block.ops@, op_idx as int, family@) == self@.recent_value(
                    block.ops@,
                    i as int,
                    family@,
                ),
            decreases i,
        {
            i = i - 1;
            let op = &block.ops[i];
            if matches!(op, SSAOp::Call { .. } | SSAOp::CallInd { .. } | SSAOp::CallOther { .. }) {
                return None;
            }
            let own = match op.dst() {
                Some(dst) => self.register_family_name_for_ssa(dst),
                None => None,
            };
            let fits = match &own {
                Some(f) => same(f, &family),
                None => false,
            };
            if fits {
                let candidate = self.family_value_expr(op);
                if !self.is_unreturnable(&candidate) {
                    return Some(self.resolve_return_candidate(&candidate));
                }
            }
        }
        None
    }
}

fn is_exactly(e: &CExpr, name: &str) -> (r: bool)
    ensures
        r == (e@ == Expr::Var(name@)),
{
    match e {
        CExpr::Var(own) => same(own, name),
        _ => false,
    }
}

} // verus!
