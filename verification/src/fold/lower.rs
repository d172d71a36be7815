//! Lowering one operation to a statement.

use crate::ast::expr::{binary, call, cast, view_opt, BinaryOp, CExpr, Expr};
use crate::ast::stmt::{assignment, view_opt_stmt, CStmt, Stmt};
use crate::ast::types::{CType, Type};
use crate::fold::call_args::{is_name, is_named};
use crate::fold::casts::{cast_expr_if_needed, cast_to};
use crate::fold::facts::SemanticValue;
use crate::fold::levels::{Folder, Reading};
use crate::fold::literal::{
    identity_simplify_binary, identity_simplify_expr, root_simplified, simplified,
};
use crate::fold::names::{generic_arg, is_generic_arg_name};
use crate::fold::quality::VisibleExprContext;
use crate::fold::shape::{expr_mentions_rendered_name, mentions_name};
use crate::fold::tables::{expr_entry, find_expr, find_offset, offset_entry, rewritten};
use crate::ssa::{SSAVar, Var};
use crate::text::{same, same_ignoring_case, same_lower};
use vstd::prelude::*;

verus! {

/// What an operation lowers to.
#[derive(Debug)]
pub enum LoweredOp {
    Assign { lhs: CExpr, rhs: CExpr },
    Expr(CExpr),
    Return(Option<CExpr>),
    Nothing,
    Comment(String),
}

/// What an operation lowers to, as a mathematical value.
pub enum Lowered {
    Assign { lhs: Expr, rhs: Expr },
    Expr(Expr),
    Return(Option<Expr>),
    Nothing,
    Comment(Seq<char>),
}

impl LoweredOp {
    pub open spec fn view(&self) -> Lowered {
        match *self {
            LoweredOp::Assign { lhs, rhs } => Lowered::Assign { lhs: lhs@, rhs: rhs@ },
            LoweredOp::Expr(e) => Lowered::Expr(e@),
            LoweredOp::Return(e) => Lowered::Return(view_opt(e)),
            LoweredOp::Nothing => Lowered::Nothing,
            LoweredOp::Comment(text) => Lowered::Comment(text@),
        }
    }
}

/// The lowered form that a statement stands for.
pub open spec fn lowered(stmt: Stmt) -> Lowered {
    match stmt {
        Stmt::Expr(e) => match e {
            Expr::Binary { op, left, right } => if op == BinaryOp::Assign {
                Lowered::Assign { lhs: *left, rhs: *right }
            } else {
                Lowered::Expr(e)
            },
            _ => Lowered::Expr(e),
        },
        Stmt::Return(e) => Lowered::Return(e),
        Stmt::Comment(text) => Lowered::Comment(text),
        _ => Lowered::Nothing,
    }
}

/// The lowered form that a statement stands for.
pub fn lowered_from_stmt(stmt: CStmt) -> (r: LoweredOp)
    ensures
        r@ == lowered(stmt@),
{
    match stmt {
        CStmt::Expr(CExpr::Binary { op: BinaryOp::Assign, left, right }) => LoweredOp::Assign {
            lhs: *left,
            rhs: *right,
        },
        CStmt::Expr(e) => LoweredOp::Expr(e),
        CStmt::Return(e) => LoweredOp::Return(e),
        CStmt::Comment(text) => LoweredOp::Comment(text),
        _ => LoweredOp::Nothing,
    }
}

/// The index of an element in bytes.
pub open spec fn scaled(index: Expr, element_size: u32) -> Expr {
    if element_size <= 1 {
        index
    } else {
        binary(BinaryOp::Mul, index, Expr::IntLit(element_size as i64))
    }
}

/// Does an operator compare?
pub open spec fn compares(op: BinaryOp) -> bool {
    op == BinaryOp::Eq || op == BinaryOp::Ne || op == BinaryOp::Lt || op == BinaryOp::Le || op
        == BinaryOp::Gt || op == BinaryOp::Ge
}

impl Reading {
    /// The value of a stack slot below the frame that never changes, where it
    /// is a plain number.
    pub open spec fn stable_scalar(&self, offset: Option<i64>) -> Option<Expr> {
        match offset {
            Some(offset) => if offset < 0 {
                match offset_entry(self.ctx.facts.stable_stack_values@, offset) {
                    Some(v) => if v@ is Expr || v@ is Root {
                        match self.meaning_expr(v@, 0, Seq::empty()) {
                            Some(e) => if !self.address_artifact(e) {
                                Some(e)
                            } else {
                                None
                            },
                            None => None,
                        }
                    } else {
                        None
                    },
                    None => None,
                }
            } else {
                None
            },
            None => None,
        }
    }

    /// The stack slot that a name comes from or lives in.
    pub open spec fn slot_behind(&self, name: Seq<char>) -> Option<i64> {
        match self.origin_slot(name) {
            Some(offset) => Some(offset),
            None => match self.slot_of(name) {
                Some(slot) => Some(slot.offset),
                None => None,
            },
        }
    }

    /// An expression that is no artifact of an address.
    pub open spec fn proper(&self, e: Option<Expr>) -> Option<Expr> {
        match e {
            Some(e) => if !self.address_artifact(e) {
                Some(e)
            } else {
                None
            },
            None => None,
        }
    }

    /// The number that a name stands for, where it is copied from another: the
    /// settled value of its slot or of its root's, or the root itself.
    pub open spec fn scalar_root(&self, name: Seq<char>, context: VisibleExprContext) -> Option<Expr> {
        let root = self.root_name(name);
        let at_root = Expr::Var(
            match self.spelled_var(root) {
                Some(var) => self.shown(var),
                None => Seq::empty(),
            },
        );
        let unresolved = if self.spelled_var(root) is Some {
            at_root
        } else {
            self.fallback(root)
        };
        let meant = self.proper(self.name_meaning(root, 0, Seq::empty()));
        if !context.scalar() {
            None
        } else if self.stable_scalar(self.slot_behind(name)) is Some {
            self.stable_scalar(self.slot_behind(name))
        } else if root == name {
            None
        } else if self.stable_scalar(self.slot_behind(root)) is Some {
            self.stable_scalar(self.slot_behind(root))
        } else {
            self.proper(self.chosen(Some(unresolved), meant, context))
        }
    }

    /// The right side of an assignment as it is shown.
    pub open spec fn assigned(&self, lhs: Expr, rhs: Expr) -> Expr {
        let meant = self.semantic(root_simplified(rhs), 0, Seq::empty());
        let value = rewritten(self.ctx.answers.stack_rewrites@, meant);
        match lhs {
            Expr::Var(name) => if self.storage_offset(name) is Some && self.address_artifact(
                value,
            ) {
                match self.scalar_root(name, VisibleExprContext::ScalarPredicate) {
                    Some(e) => e,
                    None => value,
                }
            } else {
                value
            },
            _ => value,
        }
    }

    /// Is an assignment to a name one that says nothing? It gives a parameter
    /// to itself, makes a pointer parameter out of its own number, or casts a
    /// name to itself.
    pub open spec fn idle_assignment(&self, name: Seq<char>, rhs: Expr) -> bool {
        ||| generic_arg(name) && match expr_entry(self.ctx.answers.expr_arg_aliases@, rhs) {
            Some(alias) => same_ignoring_case(name, alias@),
            None => false,
        }
        ||| generic_arg(name) && (self.hint(name) matches Some(Type::Pointer(_)))
            && !self.pointer_like(rhs) && mentions_name(rhs, name)
        ||| match rhs {
            Expr::Cast { ty, expr } => is_name(*expr, name),
            _ => false,
        }
    }

    /// The call that a name is assigned in place of itself.
    pub open spec fn own_call(&self, lhs: Seq<char>, rhs: Expr) -> Expr {
        match rhs {
            Expr::Var(name) => if same_ignoring_case(lhs, name) {
                match self.definition_of_owner(lhs) {
                    Some(e) => e,
                    None => rhs,
                }
            } else {
                rhs
            },
            _ => rhs,
        }
    }

    /// An assignment as a statement; nothing where it would say nothing.
    #[verifier::opaque]
    pub open spec fn assign(&self, lhs: Expr, rhs: Expr) -> Option<Stmt> {
        let to = rewritten(self.ctx.answers.stack_rewrites@, lhs);
        let value = self.assigned(to, rhs);
        match to {
            Expr::Var(name) => if self.idle_assignment(name, value) {
                None
            } else {
                let last = self.own_call(name, value);
                if to == last {
                    None
                } else {
                    Some(assignment(to, last))
                }
            },
            _ => if to == value {
                None
            } else {
                Some(assignment(to, value))
            },
        }
    }

    /// A pointer moved by whole elements.
    pub open spec fn moved_pointer(&self, base: Var, index: Var, element_size: u32, back: bool) -> Expr {
        binary(
            if back {
                BinaryOp::Sub
            } else {
                BinaryOp::Add
            },
            self.expr_of(base),
            scaled(self.expr_of(index), element_size),
        )
    }

    /// Two variables under an operator.
    pub open spec fn operation(&self, op: BinaryOp, a: Var, b: Var) -> Expr {
        simplified(
            op,
            self.expr_of(a),
            self.expr_of(b),
            if a.size > 0 && a.size == b.size {
                Some(a.size)
            } else {
                None
            },
        )
    }

    /// An operand as it is shown: cast where its hint asks for it, and with no
    /// stack address where the result is a small number.
    pub open spec fn operand(&self, dst: Var, v: Var, ty: Option<Type>) -> Expr {
        let e = match ty {
            Some(ty) => cast_to(self.expr_of(v), ty, self.var_hint(v)),
            None => self.expr_of(v),
        };
        if dst.size <= 4 && !(self.var_hint(dst) matches Some(Type::Pointer(_))) {
            self.collapsed(e)
        } else {
            e
        }
    }

    /// The statement of a binary operation whose operands have a type.
    #[verifier::opaque]
    pub open spec fn binary_typed(&self, dst: Var, a: Var, b: Var, op: BinaryOp, ty: Option<Type>) -> Option<
        Stmt,
    > {
        let raw = simplified(
            op,
            self.operand(dst, a, ty),
            self.operand(dst, b, ty),
            if dst.size > 0 {
                Some(dst.size)
            } else {
                None
            },
        );
        let value = if compares(op) {
            self.predicate_rhs(dst, raw)
        } else {
            raw
        };
        self.assign(self.lhs(dst), self.typed_rhs(dst, None, value))
    }

    /// The statement of a Boolean operation.
    #[verifier::opaque]
    pub open spec fn boolean(&self, dst: Var, op: BinaryOp, a: Var, b: Var) -> Option<Stmt> {
        self.assign(
            self.lhs(dst),
            self.predicate_rhs(dst, binary(op, self.expr_of(a), self.expr_of(b))),
        )
    }
}

impl<'a> Folder<'a> {
    fn find_stable_scalar(&self, offset: Option<i64>) -> (r: Option<CExpr>)
        ensures
            view_opt(r) == self@.stable_scalar(offset),
    {
        let offset: i64 = match offset {
            Some(offset) => offset,
            None => {
                return None;
            },
        };
        if offset >= 0 {
            return None;
        }
        match find_offset(&self.ctx.facts.stable_stack_values, offset) {
            Some(v) => {
                if !matches!(v, SemanticValue::Scalar(_)) {
                    return None;
                }
                let none: Vec<String> = Vec::new();
                assert(crate::text::texts(none@) =~= Seq::empty());
                match self.render_semantic_value(v, 0, &none) {
                    Some(e) => if !self.expr_is_address_artifact_in_scalar_context(&e) {
                        Some(e)
                    } else {
                        None
                    },
                    None => None,
                }
            },
            None => None,
        }
    }

    fn find_slot_behind(&self, name: &str) -> (r: Option<i64>)
        ensures
            r == self@.slot_behind(name@),
    {
        match self.forwarded_slot(name) {
            Some(offset) => Some(offset),
            None => match self.stack_slot_provenance_for_name(name) {
                Some(slot) => Some(slot.offset),
                None => None,
            },
        }
    }

    /// An expression that is no artifact of an address.
    pub fn keep_proper(&self, e: Option<CExpr>) -> (r: Option<CExpr>)
        ensures
            view_opt(r) == self@.proper(view_opt(e)),
    {
        match e {
            Some(e) => if !self.expr_is_address_artifact_in_scalar_context(&e) {
                Some(e)
            } else {
                None
            },
            None => None,
        }
    }

    /// The number that a name stands for, where it is copied from another.
    pub fn scalar_context_root_candidate_for_name(
        &self,
        name: &str,
        context: VisibleExprContext,
    ) -> (r: Option<CExpr>)
        ensures
            view_opt(r) == self@.scalar_root(name@, context),
    {
        if !context.is_scalar() {
            return None;
        }
        if let Some(e) = self.find_stable_scalar(self.find_slot_behind(name)) {
            return Some(e);
        }
        let root = self.resolve_copy_root_name_in_fold(name);
        if same(&root, name) {
            return None;
        }
        if let Some(e) = self.find_stable_scalar(self.find_slot_behind(&root)) {
            return Some(e);
        }
        let unresolved = match self.guess_ssa_var_from_name(&root) {
            Some(var) => CExpr::Var(self.var_name(&var)),
            None => self.expr_for_ssa_fallback_name(&root),
        };
        let meant = self.keep_proper(self.meaning_by_name(&root));
        let best = self.choose_preferred_visible_expr_in_context(Some(unresolved), meant, context);
        self.keep_proper(best)
    }

    fn is_idle_assignment(&self, name: &str, rhs: &CExpr) -> (r: bool)
        ensures
            r == self@.idle_assignment(name@, rhs@),
    {
        if is_generic_arg_name(name) {
            if let Some(alias) = find_expr(&self.ctx.answers.expr_arg_aliases, rhs) {
                if same_lower(name, alias) {
                    return true;
                }
            }
            let pointer = match self.lookup_type_hint(name) {
                Some(ty) => ty.is_pointer(),
                None => false,
            };
            if pointer && !self.looks_like_pointer(rhs) && expr_mentions_rendered_name(rhs, name) {
                return true;
            }
        }
        match rhs {
            CExpr::Cast { ty, expr } => is_named(expr, name),
            _ => false,
        }
    }

    fn find_own_call(&self, lhs: &str, rhs: CExpr) -> (r: CExpr)
        ensures
            r@ == self@.own_call(lhs@, rhs@),
    {
        let repeats = match &rhs {
            CExpr::Var(name) => same_lower(lhs, name),
            _ => false,
        };
        if repeats {
            if let Some(e) = self.recovered_owned_call_result_definition_rhs_for_visible_name(lhs) {
                return e;
            }
        }
        rhs
    }

    fn to_assigned(&self, lhs: &CExpr, rhs: CExpr) -> (r: CExpr)
        ensures
            r@ == self@.assigned(lhs@, rhs@),
    {
        let plain = identity_simplify_expr(rhs);
        let meant = self.semanticized(&plain);
        let value = self.rewrite_stack_expr(&meant);
        if let CExpr::Var(name) = lhs {
            if self.stack_offset_for_visible_storage_name(name).is_some()
                && self.expr_is_address_artifact_in_scalar_context(&value) {
                if let Some(e) = self.scalar_context_root_candidate_for_name(
                    name,
                    VisibleExprContext::ScalarPredicate,
                ) {
                    return e;
                }
            }
        }
        value
    }

    /// An assignment as a statement; nothing where it would say nothing.
    pub fn assign_stmt(&self, lhs: CExpr, rhs: CExpr) -> (r: Option<CStmt>)
        ensures
            view_opt_stmt(r) == self@.assign(lhs@, rhs@),
    {
        proof {
            reveal(Reading::assign);
        }
        let to = self.rewrite_stack_expr(&lhs);
        let value = self.to_assigned(&to, rhs);
        let last = match &to {
            CExpr::Var(name) => {
                if self.is_idle_assignment(name, &value) {
                    return None;
                }
                self.find_own_call(name, value)
            },
            _ => value,
        };
        if to.same(&last) {
            return None;
        }
        Some(CStmt::Expr(CExpr::assign(to, last)))
    }

    /// A pointer moved by whole elements.
    pub fn ptr_arith_expr(&self, base: &SSAVar, index: &SSAVar, element_size: u32, is_sub: bool) -> (r: CExpr)
        ensures
            r@ == self@.moved_pointer(base@, index@, element_size, is_sub),
    {
        let base_expr = self.get_expr(base);
        let index_expr = self.get_expr(index);
        let by = if element_size <= 1 {
            index_expr
        } else {
            CExpr::binary(BinaryOp::Mul, index_expr, CExpr::IntLit(element_size as i64))
        };
        let op = if is_sub {
            BinaryOp::Sub
        } else {
            BinaryOp::Add
        };
        CExpr::binary(op, base_expr, by)
    }

    /// Two variables under an operator.
    pub fn binary_expr(&self, op: BinaryOp, a: &SSAVar, b: &SSAVar) -> (r: CExpr)
        ensures
            r@ == self@.operation(op, a@, b@),
    {
        let width = if a.size > 0 && a.size == b.size {
            Some(a.size)
        } else {
            None
        };
        identity_simplify_binary(op, self.get_expr(a), self.get_expr(b), width)
    }

    fn operand_expr(&self, dst: &SSAVar, v: &SSAVar, ty: Option<&CType>) -> (r: CExpr)
        ensures
            r@ == self@.operand(
                dst@,
                v@,
                match ty {
                    Some(ty) => Some(ty@),
                    None => None,
                },
            ),
    {
        let plain = self.get_expr(v);
        let e = match ty {
            Some(ty) => {
                let hint = self.type_hint_for_var(v);
                cast_expr_if_needed(plain, ty.dup(), hint.as_ref())
            },
            None => plain,
        };
        if dst.size <= 4 && !self.is_pointer_typed_var(dst) {
            self.collapse_scalar_stack_addr_artifact(&e)
        } else {
            e
        }
    }

    /// The statement of a binary operation whose operands have a type.
    pub fn binary_stmt_typed(
        &self,
        dst: &SSAVar,
        a: &SSAVar,
        b: &SSAVar,
        op: BinaryOp,
        operand_ty: Option<CType>,
    ) -> (r: Option<CStmt>)
        ensures
            view_opt_stmt(r) == self@.binary_typed(
                dst@,
                a@,
                b@,
                op,
                crate::ast::types::view_opt(operand_ty),
            ),
    {
        proof {
            reveal(Reading::binary_typed);
        }
        let lhs = self.assignment_lhs_expr(dst);
        let left = self.operand_expr(dst, a, operand_ty.as_ref());
        let right = self.operand_expr(dst, b, operand_ty.as_ref());
        let width = if dst.size > 0 {
            Some(dst.size)
        } else {
            None
        };
        let raw = identity_simplify_binary(op, left, right, width);
        let value = match op {
            BinaryOp::Eq
            | BinaryOp::Ne
            | BinaryOp::Lt
            | BinaryOp::Le
            | BinaryOp::Gt
            | BinaryOp::Ge => self.resolve_predicate_rhs_for_var(dst, raw),
            _ => raw,
        };
        let rhs = self.assignment_rhs_with_type_policy(dst, None, value);
        self.assign_stmt(lhs, rhs)
    }

    /// The statement of a binary operation.
    pub fn binary_stmt(&self, dst: &SSAVar, a: &SSAVar, b: &SSAVar, op: BinaryOp) -> (r: Option<CStmt>)
        ensures
            view_opt_stmt(r) == self@.binary_typed(dst@, a@, b@, op, None),
    {
        self.binary_stmt_typed(dst, a, b, op, None)
    }

    /// The statement of a Boolean operation.
    pub fn boolean_stmt(&self, dst: &SSAVar, op: BinaryOp, a: &SSAVar, b: &SSAVar) -> (r: Option<CStmt>)
        ensures
            view_opt_stmt(r) == self@.boolean(dst@, op, a@, b@),
    {
        proof {
            reveal(Reading::boolean);
        }
        let lhs = self.assignment_lhs_expr(dst);
        let value = CExpr::binary(op, self.get_expr(a), self.get_expr(b));
        let rhs = self.resolve_predicate_rhs_for_var(dst, value);
        self.assign_stmt(lhs, rhs)
    }
}

} // verus!
