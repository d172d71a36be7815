//! Statements in their final form.

use crate::ast::expr::{binary, view_opt, BinaryOp, CExpr, Expr};
use crate::ast::stmt::{case_views, stmt_views, CStmt, Case, Stmt, SwitchCase};
use crate::fold::levels::{Folder, Found, Reading, Settled};
use crate::fold::ownership::copy_texts;
use crate::fold::shape::{text_of_var, var_text};
use crate::fold::tables::{in_offsets, rewritten};
use crate::text::{copy_of, same_ignoring_case, same_lower, texts};
use vstd::prelude::*;

verus! {

/// A statement as the last pass leaves it, and the names that arguments have been
/// followed through by then.
pub struct SettledStmt {
    pub stmt: Stmt,
    pub followed: Seq<Seq<char>>,
}

/// A list of statements as the last pass leaves them, and the names that arguments have
/// been followed through by then.
pub struct SettledStmts {
    pub stmts: Seq<Stmt>,
    pub followed: Seq<Seq<char>>,
}

/// The cases of a switch as the last pass leaves them, and the names that arguments
/// have been followed through by then.
pub struct SettledCases {
    pub cases: Seq<Case>,
    pub followed: Seq<Seq<char>>,
}

/// The sides of an assignment.
pub open spec fn sides(e: Expr) -> Option<(Expr, Expr)> {
    match e {
        Expr::Binary { op, left, right } => if op == BinaryOp::Assign {
            Some((*left, *right))
        } else {
            None
        },
        _ => None,
    }
}

fn sides_of(e: &CExpr) -> (r: Option<(&CExpr, &CExpr)>)
    ensures
        match r {
            Some(p) => sides(e@) == Some((p.0@, p.1@)),
            None => sides(e@) is None,
        },
{
    match e {
        CExpr::Binary { op, left, right } => if *op == BinaryOp::Assign {
            Some((left, right))
        } else {
            None
        },
        _ => None,
    }
}

impl Reading {
    /// A returned expression in its final form.
    pub open spec fn final_return(&self, e: Expr) -> Settled {
        let settled = self.final_expr(e, false);
        let there = self.having(settled.followed);
        let plain = there.within_arity(settled.expr);
        Settled {
            expr: there.last_word(rewritten(self.ctx.answers.return_rewrites@, plain), plain),
            followed: settled.followed,
        }
    }

    /// Does a name lie in a slot that the function returns through?
    pub open spec fn in_return_slot(&self, name: Seq<char>) -> bool {
        match self.storage_offset(name) {
            Some(offset) => self.ctx.state.return_stack_slots@.contains(offset),
            None => false,
        }
    }

    /// The call that an assignment of a name to itself stands for. `before` is
    /// the right side as it was.
    pub open spec fn call_behind_itself(&self, left: Expr, right: Expr, before: Option<Expr>) -> Option<
        Expr,
    > {
        match (left, right, before) {
            (Expr::Var(l), Expr::Var(r), Some(was)) => if same_ignoring_case(l, r) {
                self.recovered_call(l, was)
            } else {
                None
            },
            _ => None,
        }
    }

    /// The right side of an assignment in its final form.
    pub open spec fn final_value(&self, left: Expr, right: Expr, before: Option<Expr>) -> Settled {
        let value = match self.call_behind_itself(left, right, before) {
            Some(e) => Settled { expr: e, followed: self.followed },
            None => match left {
                Expr::Var(name) => if self.in_return_slot(name) {
                    self.final_return(right)
                } else {
                    Settled { expr: right, followed: self.followed }
                },
                _ => Settled { expr: right, followed: self.followed },
            },
        };
        Settled { expr: self.within_arity(value.expr), followed: value.followed }
    }

    /// An expression statement in its final form. The temporary of a comparison
    /// becomes the assignment of the call that it was made from.
    pub open spec fn final_assign(&self, e: Expr) -> Settled {
        let settled = self.final_expr(e, false);
        let there = self.having(settled.followed);
        match sides(settled.expr) {
            Some(p) => {
                let before = match sides(e) {
                    Some(q) => Some(q.1),
                    None => None,
                };
                let owner = match (var_text(p.0), before) {
                    (Some(name), Some(was)) => there.owner_assignment(name, was),
                    _ => None,
                };
                match owner {
                    Some(recovered) => Settled { expr: recovered, followed: settled.followed },
                    None => {
                        let value = there.final_value(p.0, p.1, before);
                        Settled {
                            expr: binary(BinaryOp::Assign, p.0, value.expr),
                            followed: value.followed,
                        }
                    },
                }
            },
            None => settled,
        }
    }

    /// An optional expression in its final form.
    pub open spec fn final_opt(&self, e: Option<Expr>) -> Found {
        match e {
            Some(e) => {
                let settled = self.final_expr(e, false);
                Found { expr: Some(settled.expr), followed: settled.followed }
            },
            None => Found { expr: None, followed: self.followed },
        }
    }

    /// The first `n` of a list of statements in their final form, one after the other.
    pub open spec fn final_each(&self, list: Seq<Stmt>, n: int) -> SettledStmts
        decreases list, n,
    {
        if n <= 0 || n > list.len() {
            SettledStmts { stmts: Seq::empty(), followed: self.followed }
        } else {
            let before = self.final_each(list, n - 1);
            let s = self.having(before.followed).final_stmt(list[n - 1]);
            SettledStmts { stmts: before.stmts.push(s.stmt), followed: s.followed }
        }
    }

    /// A list of statements in its final form, without what a return repeats.
    pub open spec fn final_body(&self, list: Seq<Stmt>) -> SettledStmts
        decreases list, list.len() + 1,
    {
        let all = self.final_each(list, list.len() as int);
        SettledStmts {
            stmts: self.having(all.followed).pruned(all.stmts),
            followed: all.followed,
        }
    }

    /// The first `n` cases of a switch in their final form, one after the other.
    pub open spec fn final_cases(&self, list: Seq<Case>, n: int) -> SettledCases
        decreases list, n,
    {
        if n <= 0 || n > list.len() {
            SettledCases { cases: Seq::empty(), followed: self.followed }
        } else {
            let before = self.final_cases(list, n - 1);
            let value = self.having(before.followed).final_expr(list[n - 1].value, false);
            let body = self.having(value.followed).final_body(list[n - 1].body);
            SettledCases {
                cases: before.cases.push(Case { value: value.expr, body: body.stmts }),
                followed: body.followed,
            }
        }
    }

    /// A statement in its final form.
    pub open spec fn final_stmt(&self, s: Stmt) -> SettledStmt
        decreases s, 0int,
    {
        match s {
            Stmt::Expr(e) => {
                let r = self.final_assign(e);
                SettledStmt { stmt: Stmt::Expr(r.expr), followed: r.followed }
            },
            Stmt::Decl { ty, name, init } => {
                let r = self.final_opt(init);
                SettledStmt { stmt: Stmt::Decl { ty, name, init: r.expr }, followed: r.followed }
            },
            Stmt::Block(list) => {
                let r = self.final_body(list);
                SettledStmt { stmt: Stmt::Block(r.stmts), followed: r.followed }
            },
            Stmt::If { cond, then_body, else_body } => {
                let c = self.final_expr(cond, false);
                let a = self.having(c.followed).final_stmt(*then_body);
                match else_body {
                    Some(body) => {
                        let b = self.having(a.followed).final_stmt(*body);
                        SettledStmt {
                            stmt: Stmt::If {
                                cond: c.expr,
                                then_body: Box::new(a.stmt),
                                else_body: Some(Box::new(b.stmt)),
                            },
                            followed: b.followed,
                        }
                    },
                    None => SettledStmt {
                        stmt: Stmt::If {
                            cond: c.expr,
                            then_body: Box::new(a.stmt),
                            else_body: None,
                        },
                        followed: a.followed,
                    },
                }
            },
            Stmt::While { cond, body } => {
                let c = self.final_expr(cond, false);
                let b = self.having(c.followed).final_stmt(*body);
                SettledStmt {
                    stmt: Stmt::While { cond: c.expr, body: Box::new(b.stmt) },
                    followed: b.followed,
                }
            },
            Stmt::DoWhile { body, cond } => {
                let b = self.final_stmt(*body);
                let c = self.having(b.followed).final_expr(cond, false);
                SettledStmt {
                    stmt: Stmt::DoWhile { body: Box::new(b.stmt), cond: c.expr },
                    followed: c.followed,
                }
            },
            Stmt::For { init, cond, update, body } => {
                let first = match init {
                    Some(init) => {
                        let i = self.final_stmt(*init);
                        (Some(Box::new(i.stmt)), i.followed)
                    },
                    None => (None, self.followed),
                };
                let c = self.having(first.1).final_opt(cond);
                let u = self.having(c.followed).final_opt(update);
                let b = self.having(u.followed).final_stmt(*body);
                SettledStmt {
                    stmt: Stmt::For {
                        init: first.0,
                        cond: c.expr,
                        update: u.expr,
                        body: Box::new(b.stmt),
                    },
                    followed: b.followed,
                }
            },
            Stmt::Switch { expr, cases, default } => {
                let e = self.final_expr(expr, false);
                let c = self.having(e.followed).final_cases(cases, cases.len() as int);
                match default {
                    Some(list) => {
                        let d = self.having(c.followed).final_body(list);
                        SettledStmt {
                            stmt: Stmt::Switch {
                                expr: e.expr,
                                cases: c.cases,
                                default: Some(d.stmts),
                            },
                            followed: d.followed,
                        }
                    },
                    None => SettledStmt {
                        stmt: Stmt::Switch { expr: e.expr, cases: c.cases, default: None },
                        followed: c.followed,
                    },
                }
            },
            Stmt::Return(e) => match e {
                Some(e) => {
                    let r = self.final_return(e);
                    SettledStmt { stmt: Stmt::Return(Some(r.expr)), followed: r.followed }
                },
                None => SettledStmt { stmt: s, followed: self.followed },
            },
            _ => SettledStmt { stmt: s, followed: self.followed },
        }
    }
}

impl<'a> Folder<'a> {
    /// A returned expression in its final form.
    pub fn normalize_final_return_expr_candidate(&self, e: &CExpr, followed: &mut Vec<String>) -> (r: CExpr)
        ensures
            (Settled { expr: r@, followed: texts(final(followed)@) }) == self@.having(
                texts(old(followed)@),
            ).final_return(e@),
    {
        let settled = self.normalize_final_call_expr(e, followed);
        let now = copy_texts(followed);
        let there = self.now_having(&now);
        let plain = there.truncate_root_non_variadic_call_expr(settled);
        let resolved = there.resolve_return_candidate(&plain);
        there.sanitize_final_return_expr(resolved, &plain)
    }

    fn is_in_return_slot(&self, name: &str) -> (r: bool)
        ensures
            r == self@.in_return_slot(name@),
    {
        match self.stack_offset_for_visible_storage_name(name) {
            Some(offset) => in_offsets(&self.ctx.state.return_stack_slots, offset),
            None => false,
        }
    }

    fn find_call_behind_itself(&self, left: &CExpr, right: &CExpr, before: Option<&CExpr>) -> (r: Option<
        CExpr,
    >)
        ensures
            view_opt(r) == self@.call_behind_itself(
                left@,
                right@,
                match before {
                    Some(e) => Some(e@),
                    None => None,
                },
            ),
    {
        match (left, right, before) {
            (CExpr::Var(l), CExpr::Var(r), Some(was)) => if same_lower(l, r) {
                self.recovered_owned_call_result_definition_rhs(l, was)
            } else {
                None
            },
            _ => None,
        }
    }

    fn find_final_value(
        &self,
        left: &CExpr,
        right: &CExpr,
        before: Option<&CExpr>,
        followed: &mut Vec<String>,
    ) -> (r: CExpr)
        ensures
            (Settled { expr: r@, followed: texts(final(followed)@) }) == self@.having(
                texts(old(followed)@),
            ).final_value(
                left@,
                right@,
                match before {
                    Some(e) => Some(e@),
                    None => None,
                },
            ),
    {
        let at_first = copy_texts(followed);
        let here = self.now_having(&at_first);
        let value = match here.find_call_behind_itself(left, right, before) {
            Some(e) => e,
            None => match left {
                CExpr::Var(name) => if here.is_in_return_slot(name) {
                    self.normalize_final_return_expr_candidate(right, followed)
                } else {
                    right.dup()
                },
                _ => right.dup(),
            },
        };
        here.truncate_root_non_variadic_call_expr(value)
    }

    /// An expression statement in its final form.
    pub fn normalize_final_assign_expr(&self, e: &CExpr, followed: &mut Vec<String>) -> (r: CExpr)
        ensures
            (Settled { expr: r@, followed: texts(final(followed)@) }) == self@.having(
                texts(old(followed)@),
            ).final_assign(e@),
    {
        let settled = self.normalize_final_call_expr(e, followed);
        let now = copy_texts(followed);
        let there = self.now_having(&now);
        let changed = match sides_of(&settled) {
            Some(p) => {
                let before = match sides_of(e) {
                    Some(q) => Some(q.1),
                    None => None,
                };
                let owner = match (text_of_var(p.0), before) {
                    (Some(name), Some(was)) =>
                    there.recover_ephemeral_compare_temp_owner_assignment(&name, was),
                    _ => None,
                };
                match owner {
                    Some(recovered) => Some(recovered),
                    None => {
                        let value = self.find_final_value(p.0, p.1, before, followed);
                        Some(CExpr::assign(p.0.dup(), value))
                    },
                }
            },
            None => None,
        };
        match changed {
            Some(r) => r,
            None => settled,
        }
    }

    fn to_final_opt(&self, e: &Option<CExpr>, followed: &mut Vec<String>) -> (r: Option<CExpr>)
        ensures
            (Found { expr: view_opt(r), followed: texts(final(followed)@) }) == self@.having(
                texts(old(followed)@),
            ).final_opt(view_opt(*e)),
    {
        match e {
            Some(e) => Some(self.normalize_final_call_expr(e, followed)),
            None => None,
        }
    }

    fn to_final_body(&self, list: &Vec<CStmt>, followed: &mut Vec<String>) -> (r: Vec<CStmt>)
        ensures
            (SettledStmts { stmts: stmt_views(r@), followed: texts(final(followed)@) })
                == self@.having(texts(old(followed)@)).final_body(stmt_views(list@)),
        decreases list,
    {
        let ghost start = texts(followed@);
        let mut out: Vec<CStmt> = Vec::new();
        assert(stmt_views(out@) =~= Seq::<Stmt>::empty());
        for i in 0..list.len()
            invariant
                start == texts(old(followed)@),
                (SettledStmts { stmts: stmt_views(out@), followed: texts(followed@) })
                    == self@.having(start).final_each(stmt_views(list@), i as int),
        {
            let ghost before = stmt_views(out@);
            assert(stmt_views(list@)[i as int] == list@[i as int]@);
            let s = self.normalize_final_stmt_calls(&list[i], followed);
            let ghost added = s@;
            out.push(s);
            assert(stmt_views(out@) =~= before.push(added));
        }
        assert(stmt_views(list@).len() == list@.len());
        let now = copy_texts(followed);
        self.now_having(&now).prune_redundant_assign_return_pairs(&out)
    }

    fn to_final_cases(&self, list: &Vec<SwitchCase>, followed: &mut Vec<String>) -> (r: Vec<SwitchCase>)
        ensures
            (SettledCases { cases: case_views(r@), followed: texts(final(followed)@) })
                == self@.having(texts(old(followed)@)).final_cases(
                case_views(list@),
                list@.len() as int,
            ),
        decreases list,
    {
        let ghost start = texts(followed@);
        let mut out: Vec<SwitchCase> = Vec::new();
        assert(case_views(out@) =~= Seq::<Case>::empty());
        for i in 0..list.len()
            invariant
                start == texts(old(followed)@),
                (SettledCases { cases: case_views(out@), followed: texts(followed@) })
                    == self@.having(start).final_cases(case_views(list@), i as int),
        {
            let case = &list[i];
            let ghost before = case_views(out@);
            assert(case_views(list@)[i as int] == list@[i as int]@);
            let value = self.normalize_final_call_expr(&case.value, followed);
            let body = self.to_final_body(&case.body, followed);
            let done = SwitchCase { value, body };
            let ghost added = done@;
            out.push(done);
            assert(case_views(out@) =~= before.push(added));
        }
        assert(case_views(list@).len() == list@.len());
        out
    }

    /// A statement in its final form, and the names that its arguments were followed
    /// through.
    pub fn normalize_final_stmt_calls(&self, s: &CStmt, followed: &mut Vec<String>) -> (r: CStmt)
        ensures
            (SettledStmt { stmt: r@, followed: texts(final(followed)@) }) == self@.having(
                texts(old(followed)@),
            ).final_stmt(s@),
        decreases s,
    {
        match s {
            CStmt::Expr(e) => CStmt::Expr(self.normalize_final_assign_expr(e, followed)),
            CStmt::Decl { ty, name, init } => CStmt::Decl {
                ty: ty.dup(),
                name: copy_of(name),
                init: self.to_final_opt(init, followed),
            },
            CStmt::Block(list) => CStmt::Block(self.to_final_body(list, followed)),
            CStmt::If { cond, then_body, else_body } => {
                let c = self.normalize_final_call_expr(cond, followed);
                let a = self.normalize_final_stmt_calls(then_body, followed);
                let b = match else_body {
                    Some(body) => Some(Box::new(self.normalize_final_stmt_calls(body, followed))),
                    None => None,
                };
                CStmt::If { cond: c, then_body: Box::new(a), else_body: b }
            },
            CStmt::While { cond, body } => {
                let c = self.normalize_final_call_expr(cond, followed);
                let b = self.normalize_final_stmt_calls(body, followed);
                CStmt::While { cond: c, body: Box::new(b) }
            },
            CStmt::DoWhile { body, cond } => {
                let b = self.normalize_final_stmt_calls(body, followed);
                let c = self.normalize_final_call_expr(cond, followed);
                CStmt::DoWhile { body: Box::new(b), cond: c }
            },
            CStmt::For { init, cond, update, body } => {
                let i = match init {
                    Some(init) => Some(Box::new(self.normalize_final_stmt_calls(init, followed))),
                    None => None,
                };
                let c = self.to_final_opt(cond, followed);
                let u = self.to_final_opt(update, followed);
                let b = self.normalize_final_stmt_calls(body, followed);
                CStmt::For { init: i, cond: c, update: u, body: Box::new(b) }
            },
            CStmt::Switch { expr, cases, default } => {
                let e = self.normalize_final_call_expr(expr, followed);
                let c = self.to_final_cases(cases, followed);
                assert(case_views(cases@).len() == cases@.len());
                let d = match default {
                    Some(list) => Some(self.to_final_body(list, followed)),
                    None => None,
                };
                CStmt::Switch { expr: e, cases: c, default: d }
            },
            CStmt::Return(e) => CStmt::Return(
                match e {
                    Some(e) => Some(self.normalize_final_return_expr_candidate(e, followed)),
                    None => None,
                },
            ),
            other => other.dup(),
        }
    }
}

} // verus!
