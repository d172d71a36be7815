//! Statements of whole operations.

use crate::ast::expr::{
    binary, call, cast, deref, unary, view_opt, views, BinaryOp, CExpr, Expr, UnaryOp,
};
use crate::ast::stmt::{assignment, view_opt_stmt, CStmt, Stmt};
use crate::ast::types::{CType, Type};
use crate::fold::address::first;
use crate::fold::call_args::{is_name, is_named};
use crate::fold::levels::{Folder, Reading};
use crate::fold::literal::{
    bits_of, memory_ordering_name, ordering_text, signed_type, size_bits, type_from_size,
    uint_type_from_size, unsigned_type,
};
use crate::fold::lower::{lowered, lowered_from_stmt, Lowered, LoweredOp};
use crate::fold::names::{
    is_autogenerated_stack_home_name, is_generic_stack_placeholder_alias, stack_home,
    stack_placeholder,
};
use crate::fold::quality::VisibleExprContext;
use crate::fold::render::larger;
use crate::fold::tables::{named_expr, pair_in_list, pair_listed, rewritten, Site};
use crate::il::metadata::MemoryOrdering;
use crate::ssa::{var_views, SSAOp, SSAVar, Var};
use crate::text::{
    copy_of, ends_with, has_prefix, has_suffix, same_ignoring_case, same_lower, starts_with,
};
use vstd::prelude::*;

verus! {

/// A call of a named routine.
pub open spec fn routine(name: Seq<char>, args: Seq<Expr>) -> Expr {
    call(Expr::Var(name), args)
}

fn call_routine(name: &str, args: Vec<CExpr>) -> (r: CExpr)
    ensures
        r@ == routine(name@, views(args@)),
{
    CExpr::call(CExpr::var(name), args)
}

fn quoted(s: &str) -> (r: CExpr)
    ensures
        r@ == Expr::StringLit(s@),
{
    CExpr::StringLit(copy_of(s))
}

fn quoted_ordering(ordering: &MemoryOrdering) -> (r: CExpr)
    ensures
        r@ == Expr::StringLit(ordering_text(*ordering)),
{
    CExpr::StringLit(copy_of(memory_ordering_name(ordering)))
}

fn max_size(a: &SSAVar, b: &SSAVar) -> (r: u32)
    ensures
        r == larger(a.size, b.size),
{
    if a.size >= b.size {
        a.size
    } else {
        b.size
    }
}

/// An assignment, or the value alone where nothing takes it.
pub open spec fn assigned_or_bare(lhs: Option<Expr>, value: Expr) -> Stmt {
    match lhs {
        Some(lhs) => assignment(lhs, value),
        None => Stmt::Expr(value),
    }
}

fn assign_or_bare(lhs: Option<CExpr>, value: CExpr) -> (r: CStmt)
    ensures
        r@ == assigned_or_bare(view_opt(lhs), value@),
{
    match lhs {
        Some(lhs) => CStmt::Expr(CExpr::assign(lhs, value)),
        None => CStmt::Expr(value),
    }
}

/// The name of the variable at a statement that no operation fits.
pub open spec fn unhandled() -> Seq<char> {
    "__unhandled_op__"@
}

impl Reading {
    /// The value of a copy to a global: the written definition of its source.
    pub open spec fn copied_to_global(&self, src: Var) -> Expr {
        let raw = self.raw_of(src.display());
        let direct = named_expr(self.ctx.facts.definitions@, src.display());
        let second = if raw is Some && self.address_artifact(raw->0) {
            self.proper(direct)
        } else {
            direct
        };
        match self.chosen(raw, second, VisibleExprContext::Generic) {
            Some(e) => e,
            None => self.expr_of(src),
        }
    }

    /// Does an expression name something that a copy should look behind?
    pub open spec fn looked_behind(&self, e: Expr) -> bool {
        e matches Expr::Var(name) && (self.forced(name) || stack_placeholder(name))
    }

    /// The value of a copy to anything but a global: its source, or what stands
    /// behind it where the source tells nothing.
    pub open spec fn copied(&self, src: Var) -> Expr {
        let raw = self.expr_of(src);
        if self.looked_behind(raw) {
            let best = self.chosen(
                self.chosen(
                    self.name_meaning(src.display(), 0, Seq::empty()),
                    self.best_known(src.display()),
                    VisibleExprContext::Generic,
                ),
                self.written_definition(src.display()),
                VisibleExprContext::Generic,
            );
            match best {
                Some(e) => if is_name(e, src.display()) {
                    raw
                } else {
                    e
                },
                None => raw,
            }
        } else {
            raw
        }
    }

    /// Is a variable hinted to be a pointer?
    pub open spec fn pointer_var(&self, v: Var) -> bool {
        self.var_hint(v) matches Some(Type::Pointer(_))
    }

    /// The statement of a copy.
    pub open spec fn copy_of_var(&self, dst: Var, src: Var) -> Option<Stmt> {
        if pair_listed(self.ctx.answers.arg_copies@, dst.display(), src.display()) {
            None
        } else {
            let value = self.predicate_rhs(
                src,
                if has_prefix(dst.name, "ram:"@) {
                    self.copied_to_global(src)
                } else {
                    self.copied(src)
                },
            );
            let shown = if !self.pointer_var(src) && !self.pointer_var(dst) {
                self.collapsed(value)
            } else {
                value
            };
            self.assign(self.lhs(dst), self.typed_rhs(dst, Some(src), shown))
        }
    }

    /// Does a shown name take the result of a call: does it own the result, or
    /// is it a named local below the frame?
    pub open spec fn takes_result(&self, name: Seq<char>, site: Site) -> bool {
        ||| match self.owner_name(site) {
            Some(owner) => same_ignoring_case(owner, name) || self.storage_offset(owner) is Some
                && self.storage_offset(owner) == self.storage_offset(name),
            None => false,
        }
        ||| match self.storage_offset(name) {
            Some(offset) => offset < 0 && !stack_home(name) && !has_suffix(name, "_home"@),
            None => false,
        }
    }

    /// The call whose result a variable holds, where the left side takes it.
    pub open spec fn taken_call(&self, lhs: Expr, v: Var) -> Option<Site> {
        match lhs {
            Expr::Var(name) => match self.any_source(v.display()) {
                Some(site) => if self.takes_result(name, site) {
                    Some(site)
                } else {
                    None
                },
                None => None,
            },
            _ => None,
        }
    }

    /// The type that an access has: the hint of its variable, or by its size.
    pub open spec fn access_type(&self, v: Var) -> Type {
        match self.var_hint(v) {
            Some(ty) => ty,
            None => signed_type(v.size),
        }
    }

    /// The statement of a load: the call itself where the left side takes its
    /// result, else the memory access.
    pub open spec fn load(&self, dst: Var, addr: Var) -> Option<Stmt> {
        let lhs = self.lhs(dst);
        let plain = self.load_of(dst, addr, self.access_type(dst));
        let value = match self.taken_call(lhs, dst) {
            Some(site) => match first(
                self.definition_of_owner(lhs->Var_0),
                self.written_call(site),
            ) {
                Some(e) => e,
                None => plain,
            },
            None => plain,
        };
        self.assign(lhs, value)
    }

    /// The call that a stored value is, where the target takes its result.
    pub open spec fn stored_call(&self, lhs: Seq<char>, val: Var, site: Site) -> Option<Expr> {
        first(
            self.defining_call_at(site, false),
            first(
                self.recovered_call(lhs, Expr::Var(val.display())),
                first(
                    self.recovered_call(lhs, self.expr_of(val)),
                    match self.written_definition(val.display()) {
                        Some(e) => self.defining_call(e),
                        None => None,
                    },
                ),
            ),
        )
    }

    /// The value that a store writes.
    pub open spec fn stored_value(&self, lhs: Expr, val: Var) -> Expr {
        let value = match self.taken_call(lhs, val) {
            Some(site) => match self.stored_call(lhs->Var_0, val, site) {
                Some(e) => e,
                None => self.expr_of(val),
            },
            None => self.expr_of(val),
        };
        match self.var_hint(val) {
            Some(ty) => if ty is Pointer && !self.pointer_like(value) {
                cast(ty, value)
            } else {
                value
            },
            None => value,
        }
    }

    /// The statement of a store.
    pub open spec fn store(&self, addr: Var, val: Var) -> Option<Stmt> {
        if pair_listed(self.ctx.answers.arg_stores@, addr.display(), val.display()) {
            None
        } else {
            let lhs = self.target_of(addr, val.size, self.access_type(val));
            self.assign(lhs, self.stored_value(lhs, val))
        }
    }

    /// A variable cast to the size of another.
    pub open spec fn resized(&self, dst: Var, src: Var) -> Expr {
        self.predicate_rhs(dst, cast(signed_type(dst.size), self.expr_of(src)))
    }

    /// A routine called on one variable.
    pub open spec fn routine_of(&self, name: Seq<char>, src: Var) -> Expr {
        routine(name, seq![self.expr_of(src)])
    }

    /// How variables are shown where they are read.
    pub open spec fn exprs_of(&self, list: Seq<Var>) -> Seq<Expr> {
        Seq::new(list.len(), |i: int| self.expr_of(list[i]))
    }

    /// A variable from the halves it is put together from.
    pub open spec fn pieced(&self, dst: Var, hi: Var, lo: Var) -> Expr {
        let ty = unsigned_type(dst.size);
        let bits = size_bits(lo.size);
        let high = cast(ty, self.expr_of(hi));
        binary(
            BinaryOp::BitOr,
            if bits == 0 {
                high
            } else {
                binary(BinaryOp::Shl, high, Expr::IntLit(bits as i64))
            },
            cast(ty, self.expr_of(lo)),
        )
    }

    /// A part of a variable, from a byte on.
    pub open spec fn part(&self, dst: Var, src: Var, offset: u32) -> Expr {
        if offset == 0 && dst.size == src.size {
            self.expr_of(src)
        } else if offset == 0 {
            cast(unsigned_type(dst.size), self.expr_of(src))
        } else {
            cast(
                unsigned_type(dst.size),
                binary(
                    BinaryOp::Shr,
                    cast(unsigned_type(src.size), self.expr_of(src)),
                    Expr::IntLit(size_bits(offset) as i64),
                ),
            )
        }
    }

    /// The variable and value of an operation on one operand or of one that
    /// takes a variable apart or puts it together.
    pub open spec fn single(&self, op: SSAOp) -> Option<(Var, Expr)> {
        match op {
            SSAOp::IntNegate { dst, src } => Some((dst@, unary(UnaryOp::Neg, self.expr_of(src@)))),
            SSAOp::IntNot { dst, src } => Some((dst@, unary(UnaryOp::BitNot, self.expr_of(src@)))),
            SSAOp::BoolNot { dst, src } => Some((dst@, self.predicate_rhs(dst@, unary(UnaryOp::Not, self.expr_of(src@))))),
            SSAOp::IntZExt { dst, src } => Some((dst@, self.resized(dst@, src@))),
            SSAOp::IntSExt { dst, src } => Some((dst@, self.resized(dst@, src@))),
            SSAOp::Trunc { dst, src } => Some((dst@, self.resized(dst@, src@))),
            SSAOp::Cast { dst, src } => Some((dst@, self.resized(dst@, src@))),
            SSAOp::FloatNeg { dst, src } => Some((dst@, unary(UnaryOp::Neg, self.expr_of(src@)))),
            SSAOp::FloatAbs { dst, src } => Some((dst@, self.routine_of("fabs"@, src@))),
            SSAOp::FloatSqrt { dst, src } => Some((dst@, self.routine_of("sqrt"@, src@))),
            SSAOp::FloatCeil { dst, src } => Some((dst@, self.routine_of("ceil"@, src@))),
            SSAOp::FloatFloor { dst, src } => Some((dst@, self.routine_of("floor"@, src@))),
            SSAOp::FloatRound { dst, src } => Some((dst@, self.routine_of("round"@, src@))),
            SSAOp::FloatNaN { dst, src } => Some((dst@, self.routine_of("isnan"@, src@))),
            SSAOp::Int2Float { dst, src } => Some((dst@, cast(Type::Float(dst.size), self.expr_of(src@)))),
            SSAOp::Float2Int { dst, src } => Some((dst@, cast(signed_type(dst.size), self.expr_of(src@)))),
            SSAOp::FloatFloat { dst, src } => Some((dst@, cast(Type::Float(dst.size), self.expr_of(src@)))),
            SSAOp::Piece { dst, hi, lo } => Some((dst@, self.pieced(dst@, hi@, lo@))),
            SSAOp::Subpiece { dst, src, offset } => Some((dst@, self.part(dst@, src@, offset))),
            SSAOp::PtrAdd { dst, base, index, element_size } => Some(
                (dst@, self.moved_pointer(base@, index@, element_size, false)),
            ),
            SSAOp::PtrSub { dst, base, index, element_size } => Some(
                (dst@, self.moved_pointer(base@, index@, element_size, true)),
            ),
            _ => None,
        }
    }

    /// The statement of an operation on two operands.
    pub open spec fn double(&self, op: SSAOp) -> Option<Stmt> {
        match op {
            SSAOp::IntAdd { dst, a, b } => self.binary_typed(dst@, a@, b@, BinaryOp::Add, None),
            SSAOp::IntSub { dst, a, b } => self.binary_typed(dst@, a@, b@, BinaryOp::Sub, None),
            SSAOp::IntMult { dst, a, b } => self.binary_typed(dst@, a@, b@, BinaryOp::Mul, None),
            SSAOp::IntAnd { dst, a, b } => self.binary_typed(dst@, a@, b@, BinaryOp::BitAnd, None),
            SSAOp::IntOr { dst, a, b } => self.binary_typed(dst@, a@, b@, BinaryOp::BitOr, None),
            SSAOp::IntXor { dst, a, b } => self.binary_typed(dst@, a@, b@, BinaryOp::BitXor, None),
            SSAOp::IntLeft { dst, a, b } => self.binary_typed(dst@, a@, b@, BinaryOp::Shl, None),
            SSAOp::IntEqual { dst, a, b } => self.binary_typed(dst@, a@, b@, BinaryOp::Eq, None),
            SSAOp::IntNotEqual { dst, a, b } => self.binary_typed(dst@, a@, b@, BinaryOp::Ne, None),
            SSAOp::FloatAdd { dst, a, b } => self.binary_typed(dst@, a@, b@, BinaryOp::Add, None),
            SSAOp::FloatSub { dst, a, b } => self.binary_typed(dst@, a@, b@, BinaryOp::Sub, None),
            SSAOp::FloatMult { dst, a, b } => self.binary_typed(dst@, a@, b@, BinaryOp::Mul, None),
            SSAOp::FloatDiv { dst, a, b } => self.binary_typed(dst@, a@, b@, BinaryOp::Div, None),
            SSAOp::FloatLess { dst, a, b } => self.binary_typed(dst@, a@, b@, BinaryOp::Lt, None),
            SSAOp::FloatLessEqual { dst, a, b } => self.binary_typed(dst@, a@, b@, BinaryOp::Le, None),
            SSAOp::FloatEqual { dst, a, b } => self.binary_typed(dst@, a@, b@, BinaryOp::Eq, None),
            SSAOp::FloatNotEqual { dst, a, b } => self.binary_typed(dst@, a@, b@, BinaryOp::Ne, None),
            SSAOp::IntDiv { dst, a, b } => self.binary_typed(dst@, a@, b@, BinaryOp::Div, Some(unsigned_type(dst.size))),
            SSAOp::IntSDiv { dst, a, b } => self.binary_typed(dst@, a@, b@, BinaryOp::Div, Some(signed_type(dst.size))),
            SSAOp::IntRem { dst, a, b } => self.binary_typed(dst@, a@, b@, BinaryOp::Mod, Some(unsigned_type(dst.size))),
            SSAOp::IntSRem { dst, a, b } => self.binary_typed(dst@, a@, b@, BinaryOp::Mod, Some(signed_type(dst.size))),
            SSAOp::IntRight { dst, a, b } => self.binary_typed(dst@, a@, b@, BinaryOp::Shr, Some(unsigned_type(dst.size))),
            SSAOp::IntSRight { dst, a, b } => self.binary_typed(dst@, a@, b@, BinaryOp::Shr, Some(signed_type(dst.size))),
            SSAOp::IntLess { dst, a, b } => self.binary_typed(dst@, a@, b@, BinaryOp::Lt, Some(unsigned_type(larger(a.size, b.size)))),
            SSAOp::IntSLess { dst, a, b } => self.binary_typed(dst@, a@, b@, BinaryOp::Lt, Some(signed_type(larger(a.size, b.size)))),
            SSAOp::IntLessEqual { dst, a, b } => self.binary_typed(dst@, a@, b@, BinaryOp::Le, Some(unsigned_type(larger(a.size, b.size)))),
            SSAOp::IntSLessEqual { dst, a, b } => self.binary_typed(dst@, a@, b@, BinaryOp::Le, Some(signed_type(larger(a.size, b.size)))),
            SSAOp::BoolAnd { dst, a, b } => self.boolean(dst@, BinaryOp::And, a@, b@),
            SSAOp::BoolOr { dst, a, b } => self.boolean(dst@, BinaryOp::Or, a@, b@),
            SSAOp::BoolXor { dst, a, b } => self.boolean(dst@, BinaryOp::BitXor, a@, b@),
            _ => None,
        }
    }

    /// The statement of an operation that is shown as a call of a routine.
    pub open spec fn called(&self, op: SSAOp) -> Option<Stmt> {
        match op {
            SSAOp::Fence { ordering } => Some(
                Stmt::Expr(
                    routine("memory_fence"@, seq![Expr::StringLit(ordering_text(ordering))]),
                ),
            ),
            SSAOp::LoadLinked { dst, space, addr, ordering } => Some(
                assignment(
                    self.lhs(dst@),
                    self.memory_routine("load_linked"@, space@, seq![addr@], ordering),
                ),
            ),
            SSAOp::StoreConditional { result, space, addr, val, ordering } => Some(
                assigned_or_bare(
                    self.lhs_opt(result),
                    self.memory_routine("store_conditional"@, space@, seq![addr@, val@], ordering),
                ),
            ),
            SSAOp::AtomicCAS { dst, space, addr, expected, replacement, ordering } => Some(
                assignment(
                    self.lhs(dst@),
                    self.memory_routine("atomic_cas"@, space@, seq![addr@, expected@, replacement@], ordering),
                ),
            ),
            SSAOp::LoadGuarded { dst, space, addr, guard, ordering } => Some(
                assignment(
                    self.lhs(dst@),
                    self.memory_routine("load_guarded"@, space@, seq![addr@, guard@], ordering),
                ),
            ),
            SSAOp::StoreGuarded { space, addr, val, guard, ordering } => Some(
                Stmt::Expr(
                    self.memory_routine("store_guarded"@, space@, seq![addr@, val@, guard@], ordering),
                ),
            ),
            SSAOp::Call { target } => Some(
                Stmt::Expr(call(self.call_target(target@), Seq::empty())),
            ),
            SSAOp::CallInd { target } => Some(
                Stmt::Expr(call(deref(self.expr_of(target@)), Seq::empty())),
            ),
            SSAOp::CallOther { output, userop, inputs } => Some(
                assigned_or_bare(
                    self.lhs_opt(output),
                    routine(
                        "callother"@,
                        seq![Expr::StringLit(self.userop_name(userop))] + self.exprs_of(
                            var_views(inputs@),
                        ),
                    ),
                ),
            ),
            SSAOp::CpuId { dst } => Some(
                assignment(
                    self.lhs(dst@),
                    routine("callother"@, seq![Expr::StringLit("cpuid"@)]),
                ),
            ),
            _ => None,
        }
    }

    /// A routine that accesses memory: the space, the operands and the ordering.
    pub open spec fn memory_routine(
        &self,
        name: Seq<char>,
        space: Seq<char>,
        vars: Seq<Var>,
        ordering: MemoryOrdering,
    ) -> Expr {
        routine(
            name,
            seq![Expr::StringLit(space)] + self.exprs_of(vars)
                + seq![Expr::StringLit(ordering_text(ordering))],
        )
    }

    /// The left side of an assignment to a variable, where there is one.
    pub open spec fn lhs_opt(&self, v: Option<SSAVar>) -> Option<Expr> {
        match v {
            Some(v) => Some(self.lhs(v@)),
            None => None,
        }
    }

    /// The statement that an operation lowers to. Branches, merges of versions
    /// and operations that only set flags lower to none.
    pub open spec fn stmt_of(&self, op: SSAOp) -> Option<Stmt> {
        match op {
            SSAOp::Copy { dst, src } => self.copy_of_var(dst@, src@),
            SSAOp::Load { dst, space, addr } => self.load(dst@, addr@),
            SSAOp::Store { space, addr, val } => self.store(addr@, val@),
            SSAOp::Return { target } => Some(
                Stmt::Return(
                    Some(rewritten(self.ctx.answers.stack_rewrites@, self.return_of(target@))),
                ),
            ),
            SSAOp::Unimplemented => Some(Stmt::Comment("Unimplemented operation"@)),
            _ => match self.single(op) {
                Some(p) => self.assign(self.lhs(p.0), p.1),
                None => first(self.double(op), self.called(op)),
            },
        }
    }

    /// The variable that an operation defines, as an expression.
    pub open spec fn defined_var(&self, op: SSAOp) -> Expr {
        match op.defines() {
            Some(dst) => Expr::Var(self.shown(dst)),
            None => Expr::Var(unhandled()),
        }
    }

    /// The value that an operation computes, as an expression.
    pub open spec fn value_of(&self, op: SSAOp) -> Expr {
        match op {
            SSAOp::Copy { dst, src } => self.expr_of(src@),
            _ => match self.stmt_of(op) {
                Some(stmt) => match lowered(stmt) {
                    Lowered::Assign { lhs, rhs } => rhs,
                    Lowered::Expr(e) => e,
                    Lowered::Return(Some(e)) => e,
                    Lowered::Return(None) => Expr::Var("return"@),
                    _ => self.defined_var(op),
                },
                None => match op {
                    SSAOp::CBranch { target, cond } => self.condition_of(cond@),
                    _ => self.defined_var(op),
                },
            },
        }
    }
}

impl<'a> Folder<'a> {
    fn global_copy_value(&self, src: &SSAVar) -> (r: CExpr)
        ensures
            r@ == self@.copied_to_global(src@),
    {
        let key = src.display_name();
        let raw = self.lookup_definition_raw(&key);
        let direct = self.direct_definition_expr(&key);
        let artifact = match &raw {
            Some(e) => self.expr_is_address_artifact_in_scalar_context(e),
            None => false,
        };
        let second = if artifact {
            self.keep_proper(direct)
        } else {
            direct
        };
        match self.choose_preferred_visible_expr(raw, second) {
            Some(e) => e,
            None => self.get_expr(src),
        }
    }

    fn is_looked_behind(&self, e: &CExpr) -> (r: bool)
        ensures
            r == self@.looked_behind(e@),
    {
        match e {
            CExpr::Var(name) => self.should_force_imported_call_resolution_name(name)
                || is_generic_stack_placeholder_alias(name),
            _ => false,
        }
    }

    fn copy_value(&self, src: &SSAVar) -> (r: CExpr)
        ensures
            r@ == self@.copied(src@),
    {
        let raw = self.get_expr(src);
        if !self.is_looked_behind(&raw) {
            return raw;
        }
        let key = src.display_name();
        let seen = self.choose_preferred_visible_expr(
            self.meaning_by_name(&key),
            self.best_visible_definition(&key),
        );
        match self.choose_preferred_visible_expr(seen, self.find_written_definition(&key)) {
            Some(e) => if is_named(&e, &key) {
                raw
            } else {
                e
            },
            None => raw,
        }
    }

    /// The statement of a copy.
    pub fn copy_stmt(&self, dst: &SSAVar, src: &SSAVar) -> (r: Option<CStmt>)
        ensures
            view_opt_stmt(r) == self@.copy_of_var(dst@, src@),
    {
        if pair_in_list(&self.ctx.answers.arg_copies, &dst.display_name(), &src.display_name()) {
            return None;
        }
        let lhs = self.assignment_lhs_expr(dst);
        let base = if starts_with(&dst.name, "ram:") {
            self.global_copy_value(src)
        } else {
            self.copy_value(src)
        };
        let value = self.resolve_predicate_rhs_for_var(src, base);
        let shown = if !self.is_pointer_typed_var(src) && !self.is_pointer_typed_var(dst) {
            self.collapse_scalar_stack_addr_artifact(&value)
        } else {
            value
        };
        let rhs = self.assignment_rhs_with_type_policy(dst, Some(src), shown);
        self.assign_stmt(lhs, rhs)
    }

    fn is_result_taker(&self, name: &str, site: Site) -> (r: bool)
        ensures
            r == self@.takes_result(name@, site),
    {
        if let Some(owner) = self.stable_owned_call_result_name_for_source(site) {
            if same_lower(&owner, name) || self.visible_names_share_stack_slot(&owner, name) {
                return true;
            }
        }
        match self.stack_offset_for_visible_storage_name(name) {
            Some(offset) => offset < 0 && !is_autogenerated_stack_home_name(name) && !ends_with(
                name,
                "_home",
            ),
            None => false,
        }
    }

    fn find_taken_call(&self, lhs: &CExpr, v: &SSAVar) -> (r: Option<Site>)
        ensures
            r == self@.taken_call(lhs@, v@),
    {
        match lhs {
            CExpr::Var(name) => match self.any_call_source(&v.display_name()) {
                Some(site) => if self.is_result_taker(name, site) {
                    Some(site)
                } else {
                    None
                },
                None => None,
            },
            _ => None,
        }
    }

    fn find_access_type(&self, v: &SSAVar) -> (r: CType)
        ensures
            r@ == self@.access_type(v@),
    {
        match self.type_hint_for_var(v) {
            Some(ty) => ty,
            None => type_from_size(v.size),
        }
    }

    /// The statement of a load.
    pub fn load_stmt(&self, dst: &SSAVar, addr: &SSAVar) -> (r: Option<CStmt>)
        ensures
            view_opt_stmt(r) == self@.load(dst@, addr@),
    {
        let lhs = self.assignment_lhs_expr(dst);
        let plain = self.render_canonical_load_expr(dst, addr, self.find_access_type(dst));
        let found = match self.find_taken_call(&lhs, dst) {
            Some(site) => match &lhs {
                CExpr::Var(name) =>
                match self.recovered_owned_call_result_definition_rhs_for_visible_name(name) {
                    Some(e) => Some(e),
                    None => self.synthesized_call_expr_for_source_call(site),
                },
                _ => None,
            },
            None => None,
        };
        let value = match found {
            Some(e) => e,
            None => plain,
        };
        self.assign_stmt(lhs, value)
    }

    fn find_stored_call(&self, lhs: &str, val: &SSAVar, site: Site) -> (r: Option<CExpr>)
        ensures
            view_opt(r) == self@.stored_call(lhs@, val@, site),
    {
        if let Some(e) = self.defining_call_expr_at(site, false) {
            return Some(e);
        }
        let key = val.display_name();
        let own = CExpr::var(&key);
        if let Some(e) = self.recovered_owned_call_result_definition_rhs(lhs, &own) {
            return Some(e);
        }
        let shown = self.get_expr(val);
        if let Some(e) = self.recovered_owned_call_result_definition_rhs(lhs, &shown) {
            return Some(e);
        }
        match self.find_written_definition(&key) {
            Some(e) => self.normalize_call_expr_for_owner_match(&e),
            None => None,
        }
    }

    fn find_stored_value(&self, lhs: &CExpr, val: &SSAVar) -> (r: CExpr)
        ensures
            r@ == self@.stored_value(lhs@, val@),
    {
        let found = match self.find_taken_call(lhs, val) {
            Some(site) => match lhs {
                CExpr::Var(name) => self.find_stored_call(name, val, site),
                _ => None,
            },
            None => None,
        };
        let value = match found {
            Some(e) => e,
            None => self.get_expr(val),
        };
        match self.type_hint_for_var(val) {
            Some(ty) => if ty.is_pointer() && !self.looks_like_pointer(&value) {
                CExpr::cast(ty, value)
            } else {
                value
            },
            None => value,
        }
    }

    /// The statement of a store.
    pub fn store_stmt(&self, addr: &SSAVar, val: &SSAVar) -> (r: Option<CStmt>)
        ensures
            view_opt_stmt(r) == self@.store(addr@, val@),
    {
        if pair_in_list(&self.ctx.answers.arg_stores, &addr.display_name(), &val.display_name()) {
            return None;
        }
        let ty = self.find_access_type(val);
        let lhs = self.render_canonical_store_target_expr(addr, val.size, ty);
        let rhs = self.find_stored_value(&lhs, val);
        self.assign_stmt(lhs, rhs)
    }

    fn resized_expr(&self, dst: &SSAVar, src: &SSAVar) -> (r: CExpr)
        ensures
            r@ == self@.resized(dst@, src@),
    {
        let e = CExpr::cast(type_from_size(dst.size), self.get_expr(src));
        self.resolve_predicate_rhs_for_var(dst, e)
    }

    fn call_routine_of(&self, name: &str, src: &SSAVar) -> (r: CExpr)
        ensures
            r@ == self@.routine_of(name@, src@),
    {
        let args = vec![self.get_expr(src)];
        assert(views(args@) =~= seq![self@.expr_of(src@)]);
        call_routine(name, args)
    }

    fn pieced_expr(&self, dst: &SSAVar, hi: &SSAVar, lo: &SSAVar) -> (r: CExpr)
        ensures
            r@ == self@.pieced(dst@, hi@, lo@),
    {
        let bits: u32 = bits_of(lo.size);
        let high = CExpr::cast(uint_type_from_size(dst.size), self.get_expr(hi));
        let low = CExpr::cast(uint_type_from_size(dst.size), self.get_expr(lo));
        let shifted = if bits == 0 {
            high
        } else {
            CExpr::binary(BinaryOp::Shl, high, CExpr::IntLit(bits as i64))
        };
        CExpr::binary(BinaryOp::BitOr, shifted, low)
    }

    fn part_expr(&self, dst: &SSAVar, src: &SSAVar, offset: u32) -> (r: CExpr)
        ensures
            r@ == self@.part(dst@, src@, offset),
    {
        if offset == 0 && dst.size == src.size {
            return self.get_expr(src);
        }
        if offset == 0 {
            return CExpr::cast(uint_type_from_size(dst.size), self.get_expr(src));
        }
        let bits: u32 = bits_of(offset);
        let whole = CExpr::cast(uint_type_from_size(src.size), self.get_expr(src));
        let shifted = CExpr::binary(BinaryOp::Shr, whole, CExpr::IntLit(bits as i64));
        CExpr::cast(uint_type_from_size(dst.size), shifted)
    }

    fn single_value(&self, op: &SSAOp) -> (r: Option<(SSAVar, CExpr)>)
        ensures
            match r {
                Some(p) => self@.single(*op) == Some((p.0@, p.1@)),
                None => self@.single(*op) is None,
            },
    {
        match op {
            SSAOp::IntNegate { dst, src } => Some((dst.dup(), CExpr::unary(UnaryOp::Neg, self.get_expr(src)))),
            SSAOp::IntNot { dst, src } => Some((dst.dup(), CExpr::unary(UnaryOp::BitNot, self.get_expr(src)))),
            SSAOp::BoolNot { dst, src } => Some((dst.dup(), self.resolve_predicate_rhs_for_var(dst, CExpr::unary(UnaryOp::Not, self.get_expr(src))))),
            SSAOp::IntZExt { dst, src } => Some((dst.dup(), self.resized_expr(dst, src))),
            SSAOp::IntSExt { dst, src } => Some((dst.dup(), self.resized_expr(dst, src))),
            SSAOp::Trunc { dst, src } => Some((dst.dup(), self.resized_expr(dst, src))),
            SSAOp::Cast { dst, src } => Some((dst.dup(), self.resized_expr(dst, src))),
            SSAOp::FloatNeg { dst, src } => Some((dst.dup(), CExpr::unary(UnaryOp::Neg, self.get_expr(src)))),
            SSAOp::FloatAbs { dst, src } => Some((dst.dup(), self.call_routine_of("fabs", src))),
            SSAOp::FloatSqrt { dst, src } => Some((dst.dup(), self.call_routine_of("sqrt", src))),
            SSAOp::FloatCeil { dst, src } => Some((dst.dup(), self.call_routine_of("ceil", src))),
            SSAOp::FloatFloor { dst, src } => Some((dst.dup(), self.call_routine_of("floor", src))),
            SSAOp::FloatRound { dst, src } => Some((dst.dup(), self.call_routine_of("round", src))),
            SSAOp::FloatNaN { dst, src } => Some((dst.dup(), self.call_routine_of("isnan", src))),
            SSAOp::Int2Float { dst, src } => Some((dst.dup(), CExpr::cast(CType::Float(dst.size), self.get_expr(src)))),
            SSAOp::Float2Int { dst, src } => Some((dst.dup(), CExpr::cast(type_from_size(dst.size), self.get_expr(src)))),
            SSAOp::FloatFloat { dst, src } => Some((dst.dup(), CExpr::cast(CType::Float(dst.size), self.get_expr(src)))),
            SSAOp::Piece { dst, hi, lo } => Some((dst.dup(), self.pieced_expr(dst, hi, lo))),
            SSAOp::Subpiece { dst, src, offset } => Some(
                (dst.dup(), self.part_expr(dst, src, *offset)),
            ),
            SSAOp::PtrAdd { dst, base, index, element_size } => Some(
                (dst.dup(), self.ptr_arith_expr(base, index, *element_size, false)),
            ),
            SSAOp::PtrSub { dst, base, index, element_size } => Some(
                (dst.dup(), self.ptr_arith_expr(base, index, *element_size, true)),
            ),
            _ => None,
        }
    }

    fn double_stmt(&self, op: &SSAOp) -> (r: Option<CStmt>)
        ensures
            view_opt_stmt(r) == self@.double(*op),
    {
        match op {
            SSAOp::IntAdd { dst, a, b } => self.binary_stmt(dst, a, b, BinaryOp::Add),
            SSAOp::IntSub { dst, a, b } => self.binary_stmt(dst, a, b, BinaryOp::Sub),
            SSAOp::IntMult { dst, a, b } => self.binary_stmt(dst, a, b, BinaryOp::Mul),
            SSAOp::IntAnd { dst, a, b } => self.binary_stmt(dst, a, b, BinaryOp::BitAnd),
            SSAOp::IntOr { dst, a, b } => self.binary_stmt(dst, a, b, BinaryOp::BitOr),
            SSAOp::IntXor { dst, a, b } => self.binary_stmt(dst, a, b, BinaryOp::BitXor),
            SSAOp::IntLeft { dst, a, b } => self.binary_stmt(dst, a, b, BinaryOp::Shl),
            SSAOp::IntEqual { dst, a, b } => self.binary_stmt(dst, a, b, BinaryOp::Eq),
            SSAOp::IntNotEqual { dst, a, b } => self.binary_stmt(dst, a, b, BinaryOp::Ne),
            SSAOp::FloatAdd { dst, a, b } => self.binary_stmt(dst, a, b, BinaryOp::Add),
            SSAOp::FloatSub { dst, a, b } => self.binary_stmt(dst, a, b, BinaryOp::Sub),
            SSAOp::FloatMult { dst, a, b } => self.binary_stmt(dst, a, b, BinaryOp::Mul),
            SSAOp::FloatDiv { dst, a, b } => self.binary_stmt(dst, a, b, BinaryOp::Div),
            SSAOp::FloatLess { dst, a, b } => self.binary_stmt(dst, a, b, BinaryOp::Lt),
            SSAOp::FloatLessEqual { dst, a, b } => self.binary_stmt(dst, a, b, BinaryOp::Le),
            SSAOp::FloatEqual { dst, a, b } => self.binary_stmt(dst, a, b, BinaryOp::Eq),
            SSAOp::FloatNotEqual { dst, a, b } => self.binary_stmt(dst, a, b, BinaryOp::Ne),
            SSAOp::IntDiv { dst, a, b } => self.binary_stmt_typed(dst, a, b, BinaryOp::Div, Some(uint_type_from_size(dst.size))),
            SSAOp::IntSDiv { dst, a, b } => self.binary_stmt_typed(dst, a, b, BinaryOp::Div, Some(type_from_size(dst.size))),
            SSAOp::IntRem { dst, a, b } => self.binary_stmt_typed(dst, a, b, BinaryOp::Mod, Some(uint_type_from_size(dst.size))),
            SSAOp::IntSRem { dst, a, b } => self.binary_stmt_typed(dst, a, b, BinaryOp::Mod, Some(type_from_size(dst.size))),
            SSAOp::IntRight { dst, a, b } => self.binary_stmt_typed(dst, a, b, BinaryOp::Shr, Some(uint_type_from_size(dst.size))),
            SSAOp::IntSRight { dst, a, b } => self.binary_stmt_typed(dst, a, b, BinaryOp::Shr, Some(type_from_size(dst.size))),
            SSAOp::IntLess { dst, a, b } => self.binary_stmt_typed(dst, a, b, BinaryOp::Lt, Some(uint_type_from_size(max_size(a, b)))),
            SSAOp::IntSLess { dst, a, b } => self.binary_stmt_typed(dst, a, b, BinaryOp::Lt, Some(type_from_size(max_size(a, b)))),
            SSAOp::IntLessEqual { dst, a, b } => self.binary_stmt_typed(dst, a, b, BinaryOp::Le, Some(uint_type_from_size(max_size(a, b)))),
            SSAOp::IntSLessEqual { dst, a, b } => self.binary_stmt_typed(dst, a, b, BinaryOp::Le, Some(type_from_size(max_size(a, b)))),
            SSAOp::BoolAnd { dst, a, b } => self.boolean_stmt(dst, BinaryOp::And, a, b),
            SSAOp::BoolOr { dst, a, b } => self.boolean_stmt(dst, BinaryOp::Or, a, b),
            SSAOp::BoolXor { dst, a, b } => self.boolean_stmt(dst, BinaryOp::BitXor, a, b),
            _ => None,
        }
    }

    fn lhs_if(&self, v: &Option<SSAVar>) -> (r: Option<CExpr>)
        ensures
            view_opt(r) == self@.lhs_opt(*v),
    {
        match v {
            Some(v) => Some(self.assignment_lhs_expr(v)),
            None => None,
        }
    }

    fn userop_call(&self, userop: u32, inputs: &Vec<SSAVar>) -> (r: CExpr)
        ensures
            r@ == routine(
                "callother"@,
                seq![Expr::StringLit(self@.userop_name(userop))] + self@.exprs_of(
                    var_views(inputs@),
                ),
            ),
    {
        let mut args: Vec<CExpr> = Vec::new();
        args.push(CExpr::StringLit(self.lookup_userop_name(userop)));
        let mut i: usize = 0;
        while i < inputs.len()
            invariant
                i <= inputs@.len(),
                args@.len() == i + 1,
                args@[0]@ == Expr::StringLit(self@.userop_name(userop)),
                forall|j: int|
                    0 <= j < i ==> (#[trigger] args@[j + 1])@ == self@.expr_of(inputs@[j]@),
            decreases inputs@.len() - i,
        {
            args.push(self.get_expr(&inputs[i]));
            i = i + 1;
        }
        proof {
            let want = seq![Expr::StringLit(self@.userop_name(userop))] + self@.exprs_of(
                var_views(inputs@),
            );
            assert forall|j: int| 0 <= j < want.len() implies views(args@)[j] == want[j] by {
                if j > 0 {
                    assert(args@[(j - 1) + 1]@ == self@.expr_of(inputs@[j - 1]@));
                }
            }
            assert(views(args@) =~= want);
        }
        call_routine("callother", args)
    }

    fn memory_call(&self, name: &str, space: &str, vars: Vec<&SSAVar>, ordering: &MemoryOrdering) -> (r: CExpr)
        ensures
            r@ == self@.memory_routine(
                name@,
                space@,
                Seq::new(vars@.len(), |i: int| vars@[i]@),
                *ordering,
            ),
    {
        let ghost list = Seq::new(vars@.len(), |i: int| vars@[i]@);
        let mut args: Vec<CExpr> = Vec::new();
        args.push(quoted(space));
        let mut i: usize = 0;
        while i < vars.len()
            invariant
                i <= vars@.len(),
                list == Seq::new(vars@.len(), |i: int| vars@[i]@),
                args@.len() == i + 1,
                args@[0]@ == Expr::StringLit(space@),
                forall|j: int| 0 <= j < i ==> (#[trigger] args@[j + 1])@ == self@.expr_of(list[j]),
            decreases vars@.len() - i,
        {
            args.push(self.get_expr(vars[i]));
            i = i + 1;
        }
        args.push(quoted_ordering(ordering));
        proof {
            let want = seq![Expr::StringLit(space@)] + self@.exprs_of(list)
                + seq![Expr::StringLit(ordering_text(*ordering))];
            assert forall|j: int| 0 <= j < want.len() implies views(args@)[j] == want[j] by {
                if 0 < j <= list.len() {
                    assert(args@[(j - 1) + 1]@ == self@.expr_of(list[j - 1]));
                }
            }
            assert(views(args@) =~= want);
        }
        call_routine(name, args)
    }

    fn load_linked_stmt(
        &self,
        dst: &SSAVar,
        space: &str,
        addr: &SSAVar,
        ordering: &MemoryOrdering,
    ) -> (r: CStmt)
        ensures
            r@ == assignment(self@.lhs(dst@), self@.memory_routine("load_linked"@, space@, seq![addr@], *ordering)),
    {
        let vars = vec![addr];
        assert(Seq::new(vars@.len(), |i: int| vars@[i]@) =~= seq![addr@]);
        let value = self.memory_call("load_linked", space, vars, ordering);
        CStmt::Expr(CExpr::assign(self.assignment_lhs_expr(dst), value))
    }

    fn store_conditional_stmt(
        &self,
        result: &Option<SSAVar>,
        space: &str,
        addr: &SSAVar,
        val: &SSAVar,
        ordering: &MemoryOrdering,
    ) -> (r: CStmt)
        ensures
            r@ == assigned_or_bare(self@.lhs_opt(*result), self@.memory_routine("store_conditional"@, space@, seq![addr@, val@], *ordering)),
    {
        let vars = vec![addr, val];
        assert(Seq::new(vars@.len(), |i: int| vars@[i]@) =~= seq![addr@, val@]);
        let value = self.memory_call("store_conditional", space, vars, ordering);
        assign_or_bare(self.lhs_if(result), value)
    }

    fn atomic_cas_stmt(
        &self,
        dst: &SSAVar,
        space: &str,
        addr: &SSAVar,
        expected: &SSAVar,
        replacement: &SSAVar,
        ordering: &MemoryOrdering,
    ) -> (r: CStmt)
        ensures
            r@ == assignment(self@.lhs(dst@), self@.memory_routine("atomic_cas"@, space@, seq![addr@, expected@, replacement@], *ordering)),
    {
        let vars = vec![addr, expected, replacement];
        assert(Seq::new(vars@.len(), |i: int| vars@[i]@) =~= seq![addr@, expected@, replacement@]);
        let value = self.memory_call("atomic_cas", space, vars, ordering);
        CStmt::Expr(CExpr::assign(self.assignment_lhs_expr(dst), value))
    }

    fn load_guarded_stmt(
        &self,
        dst: &SSAVar,
        space: &str,
        addr: &SSAVar,
        guard: &SSAVar,
        ordering: &MemoryOrdering,
    ) -> (r: CStmt)
        ensures
            r@ == assignment(self@.lhs(dst@), self@.memory_routine("load_guarded"@, space@, seq![addr@, guard@], *ordering)),
    {
        let vars = vec![addr, guard];
        assert(Seq::new(vars@.len(), |i: int| vars@[i]@) =~= seq![addr@, guard@]);
        let value = self.memory_call("load_guarded", space, vars, ordering);
        CStmt::Expr(CExpr::assign(self.assignment_lhs_expr(dst), value))
    }

    fn store_guarded_stmt(
        &self,
        space: &str,
        addr: &SSAVar,
        val: &SSAVar,
        guard: &SSAVar,
        ordering: &MemoryOrdering,
    ) -> (r: CStmt)
        ensures
            r@ == Stmt::Expr(self@.memory_routine("store_guarded"@, space@, seq![addr@, val@, guard@], *ordering)),
    {
        let vars = vec![addr, val, guard];
        assert(Seq::new(vars@.len(), |i: int| vars@[i]@) =~= seq![addr@, val@, guard@]);
        let value = self.memory_call("store_guarded", space, vars, ordering);
        CStmt::Expr(value)
    }

    fn called_stmt(&self, op: &SSAOp) -> (r: Option<CStmt>)
        ensures
            view_opt_stmt(r) == self@.called(*op),
    {
        match op {
            SSAOp::Fence { ordering } => {
                let args = vec![quoted_ordering(ordering)];
                assert(views(args@) =~= seq![Expr::StringLit(ordering_text(*ordering))]);
                Some(CStmt::Expr(call_routine("memory_fence", args)))
            },
            SSAOp::Call { target } => {
                let args: Vec<CExpr> = Vec::new();
                assert(views(args@) =~= Seq::empty());
                Some(CStmt::Expr(CExpr::call(self.resolve_call_target(target), args)))
            },
            SSAOp::CallInd { target } => {
                let args: Vec<CExpr> = Vec::new();
                assert(views(args@) =~= Seq::empty());
                let func = CExpr::deref(self.get_expr(target));
                Some(CStmt::Expr(CExpr::call(func, args)))
            },
            SSAOp::CallOther { output, userop, inputs } => {
                let value = self.userop_call(*userop, inputs);
                Some(assign_or_bare(self.lhs_if(output), value))
            },
            SSAOp::CpuId { dst } => {
                let args = vec![quoted("cpuid")];
                assert(views(args@) =~= seq![Expr::StringLit("cpuid"@)]);
                let value = call_routine("callother", args);
                Some(CStmt::Expr(CExpr::assign(self.assignment_lhs_expr(dst), value)))
            },
            SSAOp::LoadLinked { dst, space, addr, ordering } => Some(
                self.load_linked_stmt(dst, space, addr, ordering),
            ),
            SSAOp::StoreConditional { result, space, addr, val, ordering } => Some(
                self.store_conditional_stmt(result, space, addr, val, ordering),
            ),
            SSAOp::AtomicCAS { dst, space, addr, expected, replacement, ordering } => Some(
                self.atomic_cas_stmt(dst, space, addr, expected, replacement, ordering),
            ),
            SSAOp::LoadGuarded { dst, space, addr, guard, ordering } => Some(
                self.load_guarded_stmt(dst, space, addr, guard, ordering),
            ),
            SSAOp::StoreGuarded { space, addr, val, guard, ordering } => Some(
                self.store_guarded_stmt(space, addr, val, guard, ordering),
            ),
            _ => None,
        }
    }

    /// The statement that an operation lowers to.
    pub fn op_to_stmt_impl(&self, op: &SSAOp) -> (r: Option<CStmt>)
        ensures
            view_opt_stmt(r) == self@.stmt_of(*op),
    {
        match op {
            SSAOp::Copy { dst, src } => self.copy_stmt(dst, src),
            SSAOp::Load { dst, addr, .. } => self.load_stmt(dst, addr),
            SSAOp::Store { addr, val, .. } => self.store_stmt(addr, val),
            SSAOp::Return { target } => {
                let value = self.rewrite_stack_expr(&self.get_return_expr(target));
                Some(CStmt::Return(Some(value)))
            },
            SSAOp::Unimplemented => Some(CStmt::comment("Unimplemented operation")),
            _ => match self.single_value(op) {
                Some(p) => {
                    let lhs = self.assignment_lhs_expr(&p.0);
                    self.assign_stmt(lhs, p.1)
                },
                None => match self.double_stmt(op) {
                    Some(s) => Some(s),
                    None => self.called_stmt(op),
                },
            },
        }
    }

    fn defined_var_expr(&self, op: &SSAOp) -> (r: CExpr)
        ensures
            r@ == self@.defined_var(*op),
    {
        match op.dst() {
            Some(dst) => CExpr::Var(self.var_name(dst)),
            None => CExpr::var("__unhandled_op__"),
        }
    }

    /// The value that an operation computes, as an expression.
    pub fn op_to_expr_impl(&self, op: &SSAOp) -> (r: CExpr)
        ensures
            r@ == self@.value_of(*op),
    {
        if let SSAOp::Copy { src, .. } = op {
            return self.get_expr(src);
        }
        match self.op_to_stmt_impl(op) {
            Some(stmt) => match lowered_from_stmt(stmt) {
                LoweredOp::Assign { rhs, .. } => rhs,
                LoweredOp::Expr(e) => e,
                LoweredOp::Return(Some(e)) => e,
                LoweredOp::Return(None) => CExpr::var("return"),
                LoweredOp::Comment(_) | LoweredOp::Nothing => self.defined_var_expr(op),
            },
            None => match op {
                SSAOp::CBranch { cond, .. } => self.get_condition_expr(cond),
                _ => self.defined_var_expr(op),
            },
        }
    }
}

} // verus!
