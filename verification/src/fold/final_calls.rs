//! The last pass over calls: arguments settled, surplus arguments dropped, and
//! calls whose result has an owner replaced by it.

use crate::ast::expr::{
    binary, call, cast, deref, kid_is_smaller, kids, paren, subscript, view_opt, views, with_kids, BinaryOp, CExpr,
    Expr,
};
use crate::fold::address::first;
use crate::fold::call_args::{is_name, is_named};
use crate::fold::context::MAX_SEMANTIC_RENDER_DEPTH;
use crate::fold::definitions::{has_name, with_name};
use crate::fold::imported::{cap, capped, unmark, unmarked, SettledList};
use crate::fold::levels::{Folder, Found, Reading, Settled};
use crate::fold::ownership::copy_texts;
use crate::fold::render::{index_literal, is_whole, whole_elements, write_index};
use crate::fold::shape::{
    arg_has_placeholder, call_arg_contains_stack_placeholder, entry_arg_like, expr_is_generic_entry_arg_like,
};
use crate::fold::tables::{expr_entry, find_expr, rewrite, rewritten};
use crate::text::{join, same, texts};
use vstd::prelude::*;

verus! {

broadcast use kid_is_smaller;

impl Reading {
    /// The string-like object that an optional expression stands for, one level down.
    pub open spec fn text_of(&self, e: Option<Expr>, depth: int, seen: Seq<Seq<char>>) -> Found
        decreases MAX_SEMANTIC_RENDER_DEPTH + 1 - depth, 0int,
    {
        if depth > MAX_SEMANTIC_RENDER_DEPTH {
            Found { expr: None, followed: self.followed }
        } else {
            match e {
                Some(e) => self.text_for(e, depth + 1, seen),
                None => Found { expr: None, followed: self.followed },
            }
        }
    }

    /// The string-like object behind the variable that a name shows: by its meaning, or
    /// its definition.
    pub open spec fn text_by_alias(&self, name: Seq<char>, depth: int, seen: Seq<Seq<char>>) -> Found
        decreases MAX_SEMANTIC_RENDER_DEPTH + 1 - depth, 1int,
    {
        match self.ssa_of(name) {
            Some(ssa) => if ssa != name {
                let meant = self.text_of(self.name_meaning(ssa, depth + 1, seen), depth, seen);
                let there = self.having(meant.followed);
                if meant.expr is Some {
                    meant
                } else {
                    there.text_of(there.defined_as(ssa), depth, seen)
                }
            } else {
                Found { expr: None, followed: self.followed }
            },
            None => Found { expr: None, followed: self.followed },
        }
    }

    /// The string-like object behind a name: by its meaning, its merged versions, its
    /// written definition, the variable behind it, or its best definition.
    pub open spec fn text_behind(&self, name: Seq<char>, depth: int, seen: Seq<Seq<char>>) -> Found
        decreases MAX_SEMANTIC_RENDER_DEPTH + 1 - depth, 2int,
    {
        let meant = self.text_of(self.name_meaning(name, depth + 1, seen), depth, seen);
        let a = self.having(meant.followed);
        let merged = a.asked_merged(name, depth + 1, seen);
        let by_merges = self.having(merged.followed).text_of(merged.expr, depth, seen);
        let b = self.having(by_merges.followed);
        let written = b.text_of(b.raw_of(name), depth, seen);
        let c = self.having(written.followed);
        let by_alias = c.text_by_alias(name, depth, seen);
        let d = self.having(by_alias.followed);
        if meant.expr is Some {
            meant
        } else if by_merges.expr is Some {
            by_merges
        } else if written.expr is Some {
            written
        } else if by_alias.expr is Some {
            by_alias
        } else {
            d.text_of(d.best_known(name), depth, seen)
        }
    }

    /// The string-like object that an expression stands for. `seen` lists the
    /// names being followed.
    pub open spec fn text_for(&self, e: Expr, depth: int, seen: Seq<Seq<char>>) -> Found
        decreases MAX_SEMANTIC_RENDER_DEPTH + 1 - depth, 3int,
    {
        if depth > MAX_SEMANTIC_RENDER_DEPTH {
            Found { expr: None, followed: self.followed }
        } else if self.literal_for(e) is Some {
            Found { expr: self.literal_for(e), followed: self.followed }
        } else {
            match e {
                Expr::StringLit(_) => Found { expr: Some(e), followed: self.followed },
                Expr::Var(name) => if seen.contains("callstr:"@ + name) {
                    Found { expr: None, followed: self.followed }
                } else {
                    self.text_behind(name, depth, seen.push("callstr:"@ + name))
                },
                Expr::AddrOf(inner) => self.text_for(*inner, depth + 1, seen),
                Expr::Paren(inner) => self.text_for(*inner, depth + 1, seen),
                Expr::Cast { ty, expr } => self.text_for(*expr, depth + 1, seen),
                Expr::Deref(inner) => {
                    let target = self.resolved(*inner, depth + 1, seen);
                    self.having(target.followed).text_of(
                        self.access_through(target.expr, self.pointer_size()),
                        depth,
                        seen,
                    )
                },
                _ => Found { expr: None, followed: self.followed },
            }
        }
    }

    /// The element of a pointer array that a load at a fixed distance reads.
    pub open spec fn fixed_pointer_element(&self, e: Expr) -> Option<Expr> {
        match self.address(self.tidy(e, 0), 0) {
            Some(addr) => {
                let size = self.pointer_size();
                if addr.index is Some || addr.offset == 0 || addr.base is StackSlot
                    || self.field_at(addr) is Some || !whole_elements(addr.offset, size) {
                    None
                } else {
                    match self.base_expr(addr.base, false, 0, Seq::empty()) {
                        Some(base) => Some(
                            subscript(
                                self.element_base(
                                    self.pointer_base(base, 0),
                                    self.element_type(addr.base, size),
                                ),
                                index_literal(addr.offset, size),
                            ),
                        ),
                        None => None,
                    }
                }
            },
            None => None,
        }
    }

    /// A load through an address, written as the access or element it reads.
    pub open spec fn memory_form(&self, e: Expr) -> Expr {
        match e {
            Expr::Deref(inner) => match first(
                self.access_through(*inner, self.pointer_size()),
                self.fixed_pointer_element(*inner),
            ) {
                Some(access) => access,
                None => e,
            },
            _ => e,
        }
    }

    /// An expression, or the object it stands for.
    pub open spec fn literal_form(&self, e: Expr) -> Expr {
        match self.literal_for(e) {
            Some(found) => found,
            None => e,
        }
    }

    /// A candidate for a name that must not be passed as it is, followed as far
    /// as it goes.
    pub open spec fn forced_candidate(
        &self,
        name: Seq<char>,
        e: Option<Expr>,
        depth: int,
        seen: Seq<Seq<char>>,
    ) -> Found {
        match e {
            Some(e) => if is_name(e, name) {
                Found { expr: None, followed: self.followed }
            } else {
                let open = self.expanded(e, depth + 1, seen);
                let a = self.having(open.followed);
                let meaning = a.semantic(open.expr, depth + 1, Seq::empty());
                let traced = a.resolved(meaning, depth + 1, Seq::empty());
                let b = self.having(traced.followed);
                let literal = b.literal_form(b.memory_form(traced.expr));
                let text = b.text_for(literal, depth + 1, Seq::empty());
                Found {
                    expr: match text.expr {
                        Some(text) => Some(text),
                        None => Some(literal),
                    },
                    followed: text.followed,
                }
            },
            None => Found { expr: None, followed: self.followed },
        }
    }

    /// The source of the candidate at place `k`: what the name means, what stands behind
    /// it, its merged versions, and its definitions.
    pub open spec fn forced_source(&self, name: Seq<char>, k: int, depth: int, seen: Seq<Seq<char>>) -> Found {
        if k == 0 {
            Found { expr: self.name_meaning(name, depth + 1, seen), followed: self.followed }
        } else if k == 1 {
            let by_alias = match self.ssa_of(name) {
                Some(ssa) => if ssa != name {
                    first(
                        self.name_meaning(ssa, depth + 1, seen),
                        first(self.raw_of(ssa), self.defined_as(ssa)),
                    )
                } else {
                    None
                },
                None => None,
            };
            Found { expr: by_alias, followed: self.followed }
        } else if k == 2 {
            self.asked_merged(name, depth + 1, seen)
        } else if k == 3 {
            Found { expr: self.raw_of(name), followed: self.followed }
        } else if k == 4 {
            Found { expr: self.defined_as(name), followed: self.followed }
        } else {
            Found { expr: self.best_known(name), followed: self.followed }
        }
    }

    /// The best of the first `n` candidates for a name that must not be passed as it is.
    pub open spec fn forced_upto(&self, name: Seq<char>, n: int, depth: int, seen: Seq<Seq<char>>) -> Found
        decreases n,
    {
        if n <= 0 {
            Found { expr: None, followed: self.followed }
        } else {
            let before = self.forced_upto(name, n - 1, depth, seen);
            let source = self.having(before.followed).forced_source(name, n - 1, depth, seen);
            let c = self.having(source.followed).forced_candidate(name, source.expr, depth, seen);
            Found {
                expr: self.having(c.followed).arg_chosen(before.expr, c.expr, true, false),
                followed: c.followed,
            }
        }
    }

    /// The argument to pass for a name that must not be passed as it is. A name
    /// that leads back to itself is answered by what stands there in writing. The name
    /// is on the list of those followed only meanwhile.
    pub open spec fn forced_arg(&self, name: Seq<char>, depth: int, seen: Seq<Seq<char>>) -> Found {
        let key = "force-call:"@ + name;
        if self.followed.contains(name) {
            Found { expr: Some(self.cycle_fallback(name)), followed: self.followed }
        } else if depth > MAX_SEMANTIC_RENDER_DEPTH || seen.contains(key) {
            Found { expr: None, followed: unmarked(self.followed.push(name), name) }
        } else {
            let best = self.having(self.followed.push(name)).forced_upto(
                name,
                6,
                depth,
                seen.push(key),
            );
            Found { expr: best.expr, followed: unmarked(best.followed, name) }
        }
    }

    /// The forms that an argument takes on its way: rewritten, expanded, meant,
    /// settled, resolved, in memory form, in literal form. The best of them is
    /// passed.
    pub open spec fn callee_arg(&self, callee: Expr, e: Expr) -> Settled {
        let imported = self.imported(callee);
        let rewritten_e = rewritten(self.ctx.answers.stack_rewrites@, e);
        let initial = if imported {
            e
        } else {
            rewritten_e
        };
        let open = self.expanded(initial, 0, Seq::empty());
        let opened = self.having(open.followed);
        let meaning = opened.semantic(open.expr, 0, Seq::empty());
        let settled = opened.asked_final(meaning);
        let here = self.having(settled.followed);
        let general = imported || here.arg_has_transient(settled.expr, 0) || arg_has_placeholder(
            settled.expr,
            0,
        ) || entry_arg_like(settled.expr);
        let traced = if general {
            here.resolved(settled.expr, 0, Seq::empty())
        } else {
            settled
        };
        let there = self.having(traced.followed);
        let memory = there.memory_form(traced.expr);
        let literal = there.literal_form(memory);
        let b1 = if imported {
            self.arg_chosen(Some(initial), Some(rewritten_e), true, false)
        } else {
            Some(initial)
        };
        let b2 = opened.arg_chosen(b1, Some(open.expr), imported, false);
        let b3 = opened.arg_chosen(b2, Some(meaning), imported, false);
        let b4 = here.arg_chosen(b3, Some(settled.expr), imported, false);
        let b5 = there.arg_chosen(b4, Some(traced.expr), imported, false);
        let b6 = there.arg_chosen(b5, Some(memory), imported, false);
        let b7 = there.arg_chosen(b6, Some(literal), imported, false);
        let text = if imported {
            there.text_for(literal, 0, Seq::empty())
        } else {
            Found { expr: None, followed: traced.followed }
        };
        let end = self.having(text.followed);
        let b8 = if text.expr is Some {
            end.arg_chosen(b7, text.expr, true, false)
        } else {
            b7
        };
        let best = match b8 {
            Some(best) => best,
            None => rewritten_e,
        };
        let rewritten_best = rewritten(self.ctx.answers.stack_rewrites@, best);
        Settled {
            expr: if imported {
                match end.arg_chosen(Some(best), Some(rewritten_best), true, false) {
                    Some(chosen) => chosen,
                    None => best,
                }
            } else {
                rewritten_best
            },
            followed: text.followed,
        }
    }

    /// An argument, settled, as it is passed.
    pub open spec fn passed(&self, func: Expr, arg: Expr) -> Settled {
        if self.imported(func) {
            Settled {
                expr: rewritten(self.ctx.answers.imported_args@, arg),
                followed: self.followed,
            }
        } else {
            self.callee_arg(func, arg)
        }
    }

    /// The first `n` arguments of a call, each settled and then passed, one after the
    /// other.
    pub open spec fn passed_upto(&self, e: Expr, func: Expr, n: int) -> SettledList
        decreases e, 0int, n,
    {
        if n <= 0 || n >= kids(e).len() {
            SettledList { exprs: Seq::empty(), followed: self.followed }
        } else {
            let before = self.passed_upto(e, func, n - 1);
            let s = self.having(before.followed).final_expr(kids(e)[n], false);
            let p = self.having(s.followed).passed(func, s.expr);
            SettledList { exprs: before.exprs.push(p.expr), followed: p.followed }
        }
    }

    /// A call with its arguments as they are passed. The result of an imported function
    /// is replaced by its owner, unless the call is what defines the owner.
    pub open spec fn final_call(&self, func: Expr, passed: Seq<Expr>, defines: bool) -> Expr {
        let imported = self.imported(func);
        let limit = if !imported {
            None
        } else if self.arity_of(func) is Some {
            self.arity_of(func)
        } else {
            expr_entry(self.ctx.answers.printf_arities@, call(func, passed))
        };
        let e = call(func, capped(passed, limit));
        let owner = self.asked_owner(e);
        if imported && !defines && owner is Some {
            owner->0
        } else {
            e
        }
    }

    /// A load with its address settled: the access that the address stands for.
    pub open spec fn final_load(&self, inner: Expr) -> Expr {
        let access = match self.address(inner, 0) {
            Some(addr) => self.access_expr(addr, 0, 0, Seq::empty()),
            None => None,
        };
        match access {
            Some(access) => access,
            None => deref(inner),
        }
    }

    /// The first `n` subexpressions, each as the last pass leaves it, one after the
    /// other.
    pub open spec fn final_upto(&self, e: Expr, n: int) -> SettledList
        decreases e, 0int, n,
    {
        if n <= 0 || n > kids(e).len() {
            SettledList { exprs: Seq::empty(), followed: self.followed }
        } else {
            let before = self.final_upto(e, n - 1);
            let s = self.having(before.followed).final_expr(kids(e)[n - 1], false);
            SettledList { exprs: before.exprs.push(s.expr), followed: s.followed }
        }
    }

    /// An expression as the last pass leaves it. `defines` says that it is the
    /// right side of a definition.
    pub open spec fn final_expr(&self, e: Expr, defines: bool) -> Settled
        decreases e, 1int, 0int,
    {
        let ks = self.final_upto(e, kids(e).len() as int);
        let whole = Settled { expr: with_kids(e, ks.exprs), followed: ks.followed };
        match e {
            Expr::Binary { op, left, right } => if op == BinaryOp::Assign {
                let l = self.final_expr(*left, false);
                let r = self.having(l.followed).final_expr(*right, true);
                Settled { expr: binary(BinaryOp::Assign, l.expr, r.expr), followed: r.followed }
            } else {
                whole
            },
            Expr::Call { func, args } => {
                let f = self.final_expr(*func, false);
                let rest = self.having(f.followed).passed_upto(e, f.expr, kids(e).len() - 1);
                Settled {
                    expr: self.having(rest.followed).final_call(f.expr, rest.exprs, defines),
                    followed: rest.followed,
                }
            },
            Expr::Deref(inner) => {
                let r = self.final_expr(*inner, false);
                Settled { expr: self.having(r.followed).final_load(r.expr), followed: r.followed }
            },
            Expr::Subscript { base, index } => {
                let b = self.final_expr(*base, false);
                let i = self.having(b.followed).final_expr(*index, false);
                let there = self.having(i.followed);
                Settled {
                    expr: if !there.pointer_like(b.expr) && there.pointer_like(i.expr) {
                        subscript(i.expr, b.expr)
                    } else {
                        subscript(b.expr, i.expr)
                    },
                    followed: i.followed,
                }
            },
            Expr::Cast { ty, expr } => {
                let r = self.final_expr(*expr, defines);
                Settled { expr: cast(ty, r.expr), followed: r.followed }
            },
            Expr::Paren(inner) => {
                let r = self.final_expr(*inner, defines);
                Settled { expr: paren(r.expr), followed: r.followed }
            },
            _ => whole,
        }
    }

    /// A call without surplus arguments.
    pub open spec fn within_arity(&self, e: Expr) -> Expr {
        match e {
            Expr::Call { func, args } => call(*func, capped(args, self.arity_of(*func))),
            _ => e,
        }
    }
}

impl<'a> Folder<'a> {
    fn resolve_text(
        &self,
        e: Option<CExpr>,
        depth: u32,
        visited: &Vec<String>,
        followed: &mut Vec<String>,
    ) -> (r: Option<CExpr>)
        requires
            depth <= MAX_SEMANTIC_RENDER_DEPTH,
        ensures
            (Found { expr: view_opt(r), followed: texts(final(followed)@) }) == self@.having(
                texts(old(followed)@),
            ).text_of(view_opt(e), depth as int, texts(visited@)),
        decreases self.left, 28int, MAX_SEMANTIC_RENDER_DEPTH + 1 - depth, 0int,
    {
        match e {
            Some(e) => self.resolve_string_like_imported_call_arg_expr(
                &e,
                depth + 1,
                visited,
                followed,
            ),
            None => None,
        }
    }

    fn resolve_text_by_alias(
        &self,
        name: &str,
        depth: u32,
        visited: &Vec<String>,
        followed: &mut Vec<String>,
    ) -> (r: Option<CExpr>)
        requires
            depth <= MAX_SEMANTIC_RENDER_DEPTH,
        ensures
            (Found { expr: view_opt(r), followed: texts(final(followed)@) }) == self@.having(
                texts(old(followed)@),
            ).text_by_alias(name@, depth as int, texts(visited@)),
        decreases self.left, 28int, MAX_SEMANTIC_RENDER_DEPTH + 1 - depth, 1int,
    {
        let at_first = copy_texts(followed);
        let here = self.now_having(&at_first);
        match here.find_ssa_name_for_rendered_alias(name) {
            Some(ssa) => {
                if same(&ssa, name) {
                    return None;
                }
                let meant = self.resolve_text(
                    here.render_semantic_value_by_name(&ssa, depth + 1, visited),
                    depth,
                    visited,
                    followed,
                );
                if meant.is_some() {
                    return meant;
                }
                let now = copy_texts(followed);
                let definition = self.now_having(&now).lookup_definition(&ssa);
                self.resolve_text(definition, depth, visited, followed)
            },
            None => None,
        }
    }

    fn resolve_text_behind(
        &self,
        name: &str,
        depth: u32,
        visited: &Vec<String>,
        followed: &mut Vec<String>,
    ) -> (r: Option<CExpr>)
        requires
            depth <= MAX_SEMANTIC_RENDER_DEPTH,
        ensures
            (Found { expr: view_opt(r), followed: texts(final(followed)@) }) == self@.having(
                texts(old(followed)@),
            ).text_behind(name@, depth as int, texts(visited@)),
        decreases self.left, 28int, MAX_SEMANTIC_RENDER_DEPTH + 1 - depth, 2int,
    {
        let at_first = copy_texts(followed);
        let meaning = self.now_having(&at_first).render_semantic_value_by_name(
            name,
            depth + 1,
            visited,
        );
        let meant = self.resolve_text(meaning, depth, visited, followed);
        if meant.is_some() {
            return meant;
        }
        let merged = self.rendered_merged(name, depth + 1, visited, followed);
        let by_merges = self.resolve_text(merged, depth, visited, followed);
        if by_merges.is_some() {
            return by_merges;
        }
        let now = copy_texts(followed);
        let raw = self.now_having(&now).lookup_definition_raw(name);
        let written = self.resolve_text(raw, depth, visited, followed);
        if written.is_some() {
            return written;
        }
        let by_alias = self.resolve_text_by_alias(name, depth, visited, followed);
        if by_alias.is_some() {
            return by_alias;
        }
        let later = copy_texts(followed);
        let best = self.now_having(&later).best_visible_definition(name);
        self.resolve_text(best, depth, visited, followed)
    }

    /// The string-like object that an expression stands for, and the names that it was
    /// followed through.
    pub fn resolve_string_like_imported_call_arg_expr(
        &self,
        e: &CExpr,
        depth: u32,
        visited: &Vec<String>,
        followed: &mut Vec<String>,
    ) -> (r: Option<CExpr>)
        ensures
            (Found { expr: view_opt(r), followed: texts(final(followed)@) }) == self@.having(
                texts(old(followed)@),
            ).text_for(e@, depth as int, texts(visited@)),
        decreases self.left, 28int, MAX_SEMANTIC_RENDER_DEPTH + 1 - depth, 3int,
    {
        if depth > MAX_SEMANTIC_RENDER_DEPTH {
            return None;
        }
        let at_first = copy_texts(followed);
        let here = self.now_having(&at_first);
        if let Some(found) = here.resolve_literalish_call_arg_expr(e) {
            return Some(found);
        }
        match e {
            CExpr::StringLit(_) => Some(e.dup()),
            CExpr::Var(name) => {
                let key = join("callstr:", name);
                if has_name(visited, &key) {
                    return None;
                }
                let within = with_name(visited, &key);
                self.resolve_text_behind(name, depth, &within, followed)
            },
            CExpr::AddrOf(inner) => self.resolve_string_like_imported_call_arg_expr(
                inner,
                depth + 1,
                visited,
                followed,
            ),
            CExpr::Paren(inner) => self.resolve_string_like_imported_call_arg_expr(
                inner,
                depth + 1,
                visited,
                followed,
            ),
            CExpr::Cast { ty, expr } => self.resolve_string_like_imported_call_arg_expr(
                expr,
                depth + 1,
                visited,
                followed,
            ),
            CExpr::Deref(inner) => {
                let target = self.resolve_imported_call_arg_expr(inner, depth + 1, visited, followed);
                self.resolve_text(
                    here.render_memory_access_from_visible_expr(&target, here.pointer_bytes()),
                    depth,
                    visited,
                    followed,
                )
            },
            _ => None,
        }
    }

    /// The element of a pointer array that a load at a fixed distance reads.
    pub fn promote_constant_indexed_call_arg(&self, e: &CExpr) -> (r: Option<CExpr>)
        ensures
            view_opt(r) == self@.fixed_pointer_element(e@),
        decreases self.left, 23int,
    {
        let tidied = self.canonicalize_visible_address_expr(e, 0);
        let addr = match self.normalized_addr_from_visible_expr(&tidied, 0) {
            Some(addr) => addr,
            None => {
                return None;
            },
        };
        let size = self.pointer_bytes();
        if addr.index.is_some() || addr.offset_bytes == 0 || addr.base.is_slot()
            || self.oracle_field_name_for_addr(&addr).is_some() || !is_whole(
            addr.offset_bytes,
            size,
        ) {
            return None;
        }
        let none: Vec<String> = Vec::new();
        assert(texts(none@) =~= Seq::<Seq<char>>::empty());
        match self.render_base_ref_expr(&addr.base, false, 0, &none) {
            Some(base) => {
                let pointer = self.normalize_pointer_base_expr(&base, 0);
                let ty = self.infer_elem_type_from_base_ref(&addr.base, size);
                let b = self.cast_element_base(pointer, ty);
                Some(CExpr::subscript(b, write_index(addr.offset_bytes, size)))
            },
            None => None,
        }
    }

    fn to_memory_form(&self, e: CExpr) -> (r: CExpr)
        ensures
            r@ == self@.memory_form(e@),
        decreases self.left, 24int,
    {
        if let CExpr::Deref(inner) = &e {
            if let Some(access) = self.render_memory_access_from_visible_expr(
                inner,
                self.pointer_bytes(),
            ) {
                return access;
            }
            if let Some(element) = self.promote_constant_indexed_call_arg(inner) {
                return element;
            }
        }
        e
    }

    fn to_literal_form(&self, e: CExpr) -> (r: CExpr)
        ensures
            r@ == self@.literal_form(e@),
        decreases self.left, 20int,
    {
        match self.resolve_literalish_call_arg_expr(&e) {
            Some(found) => found,
            None => e,
        }
    }

    /// A candidate for a name that must not be passed as it is.
    pub fn normalize_forced_imported_call_arg_candidate(
        &self,
        original_name: &str,
        candidate: Option<CExpr>,
        depth: u32,
        visited: &Vec<String>,
        followed: &mut Vec<String>,
    ) -> (r: Option<CExpr>)
        requires
            depth < u32::MAX,
        ensures
            (Found { expr: view_opt(r), followed: texts(final(followed)@) }) == self@.having(
                texts(old(followed)@),
            ).forced_candidate(
                original_name@,
                view_opt(candidate),
                depth as int,
                texts(visited@),
            ),
    {
        match candidate {
            Some(e) => {
                if is_named(&e, original_name) {
                    return None;
                }
                let none: Vec<String> = Vec::new();
                assert(texts(none@) =~= Seq::<Seq<char>>::empty());
                let open = self.expand_call_arg_expr(&e, depth + 1, visited, followed);
                let now = copy_texts(followed);
                let meaning = self.now_having(&now).semanticize_visible_expr(&open, depth + 1, &none);
                let traced = self.resolve_imported_call_arg_expr(&meaning, depth + 1, &none, followed);
                let later = copy_texts(followed);
                let there = self.now_having(&later);
                let literal = there.to_literal_form(there.to_memory_form(traced));
                match self.resolve_string_like_imported_call_arg_expr(
                    &literal,
                    depth + 1,
                    &none,
                    followed,
                ) {
                    Some(text) => Some(text),
                    None => Some(literal),
                }
            },
            None => None,
        }
    }

    fn find_forced_source(
        &self,
        name: &str,
        k: u32,
        depth: u32,
        visited: &Vec<String>,
        followed: &mut Vec<String>,
    ) -> (r: Option<CExpr>)
        requires
            depth <= MAX_SEMANTIC_RENDER_DEPTH,
        ensures
            (Found { expr: view_opt(r), followed: texts(final(followed)@) }) == self@.having(
                texts(old(followed)@),
            ).forced_source(name@, k as int, depth as int, texts(visited@)),
    {
        if k == 2 {
            return self.rendered_merged(name, depth + 1, visited, followed);
        }
        let now = copy_texts(followed);
        let here = self.now_having(&now);
        if k == 0 {
            here.render_semantic_value_by_name(name, depth + 1, visited)
        } else if k == 1 {
            match here.find_ssa_name_for_rendered_alias(name) {
                Some(ssa) => if same(&ssa, name) {
                    None
                } else {
                    match here.render_semantic_value_by_name(&ssa, depth + 1, visited) {
                        Some(e) => Some(e),
                        None => match here.lookup_definition_raw(&ssa) {
                            Some(e) => Some(e),
                            None => here.lookup_definition(&ssa),
                        },
                    }
                },
                None => None,
            }
        } else if k == 3 {
            here.lookup_definition_raw(name)
        } else if k == 4 {
            here.lookup_definition(name)
        } else {
            here.best_visible_definition(name)
        }
    }

    /// The argument to pass for a name that must not be passed as it is.
    pub fn force_resolve_imported_call_arg_var(
        &self,
        name: &str,
        depth: u32,
        visited: &Vec<String>,
        followed: &mut Vec<String>,
    ) -> (r: Option<CExpr>)
        ensures
            (Found { expr: view_opt(r), followed: texts(final(followed)@) }) == self@.having(
                texts(old(followed)@),
            ).forced_arg(name@, depth as int, texts(visited@)),
    {
        if has_name(followed, name) {
            let now = copy_texts(followed);
            return Some(self.now_having(&now).resolution_cycle_fallback(name));
        }
        *followed = with_name(followed, name);
        let key = join("force-call:", name);
        if depth > MAX_SEMANTIC_RENDER_DEPTH || has_name(visited, &key) {
            *followed = unmark(followed, name);
            return None;
        }
        let ghost start = texts(followed@);
        let within = with_name(visited, &key);
        let mut best: Option<CExpr> = None;
        let mut k: u32 = 0;
        while k < 6
            invariant
                k <= 6,
                depth <= MAX_SEMANTIC_RENDER_DEPTH,
                (Found { expr: view_opt(best), followed: texts(followed@) }) == self@.having(
                    start,
                ).forced_upto(name@, k as int, depth as int, texts(within@)),
            decreases 6 - k,
        {
            let source = self.find_forced_source(name, k, depth, &within, followed);
            let candidate = self.normalize_forced_imported_call_arg_candidate(
                name,
                source,
                depth,
                &within,
                followed,
            );
            let now = copy_texts(followed);
            best = self.now_having(&now).choose_preferred_call_arg_expr(best, candidate, true);
            k = k + 1;
        }
        *followed = unmark(followed, name);
        best
    }

    /// An argument as it is passed to a callee, and the names that it was followed
    /// through.
    pub fn normalize_call_arg_expr_for_callee(
        &self,
        callee: &CExpr,
        e: CExpr,
        followed: &mut Vec<String>,
    ) -> (r: CExpr)
        ensures
            (Settled { expr: r@, followed: texts(final(followed)@) }) == self@.having(
                texts(old(followed)@),
            ).callee_arg(callee@, e@),
        decreases self.left, 29int,
    {
        let at_first = copy_texts(followed);
        let first_of_all = self.now_having(&at_first);
        let imported = self.is_imported_call_target(callee);
        let rewritten_e = self.rewrite_stack_expr(&e);
        let initial = if imported {
            e
        } else {
            rewritten_e.dup()
        };
        let none: Vec<String> = Vec::new();
        assert(texts(none@) =~= Seq::<Seq<char>>::empty());
        let open = self.expand_call_arg_expr(&initial, 0, &none, followed);
        let since = copy_texts(followed);
        let opened = self.now_having(&since);
        let meaning = opened.semanticize_visible_expr(&open, 0, &none);
        let settled = self.rewrite_calls(&meaning, followed);
        let now = copy_texts(followed);
        let here = self.now_having(&now);
        let b1 = if imported {
            first_of_all.choose_preferred_call_arg_expr(
                Some(initial),
                Some(rewritten_e.dup()),
                true,
            )
        } else {
            Some(initial)
        };
        let b2 = opened.choose_preferred_call_arg_expr(b1, Some(open), imported);
        let b3 = opened.choose_preferred_call_arg_expr(b2, Some(meaning), imported);
        let b4 = here.choose_preferred_call_arg_expr(b3, Some(settled.dup()), imported);
        let general = imported || here.call_arg_contains_transient_name(&settled, 0)
            || call_arg_contains_stack_placeholder(&settled, 0) || expr_is_generic_entry_arg_like(
            &settled,
        );
        let traced = if general {
            self.resolve_imported_call_arg_expr(&settled, 0, &none, followed)
        } else {
            settled
        };
        let later = copy_texts(followed);
        let there = self.now_having(&later);
        let b5 = there.choose_preferred_call_arg_expr(b4, Some(traced.dup()), imported);
        let memory = there.to_memory_form(traced);
        let b6 = there.choose_preferred_call_arg_expr(b5, Some(memory.dup()), imported);
        let literal = there.to_literal_form(memory);
        let b7 = there.choose_preferred_call_arg_expr(b6, Some(literal.dup()), imported);
        let text = if imported {
            self.resolve_string_like_imported_call_arg_expr(&literal, 0, &none, followed)
        } else {
            None
        };
        let last = copy_texts(followed);
        let end = self.now_having(&last);
        let b8 = match text {
            Some(text) => end.choose_preferred_call_arg_expr(b7, Some(text), true),
            None => b7,
        };
        let best = match b8 {
            Some(best) => best,
            None => rewritten_e,
        };
        let rewritten_best = self.rewrite_stack_expr(&best);
        if imported {
            let chosen = end.choose_preferred_call_arg_expr(
                Some(best.dup()),
                Some(rewritten_best),
                true,
            );
            match chosen {
                Some(chosen) => chosen,
                None => best,
            }
        } else {
            rewritten_best
        }
    }

    fn pass_args(&self, e: &CExpr, func: &CExpr, followed: &mut Vec<String>) -> (r: Vec<CExpr>)
        requires
            kids(e@).len() > 0,
        ensures
            (SettledList { exprs: views(r@), followed: texts(final(followed)@) }) == self@.having(
                texts(old(followed)@),
            ).passed_upto(e@, func@, kids(e@).len() - 1),
        decreases self.left, 30int, 0int, 0int, 0int, e, 0int,
    {
        let ghost start = texts(followed@);
        let imported = self.is_imported_call_target(func);
        let n = e.arity();
        let mut out: Vec<CExpr> = Vec::new();
        let mut i: u128 = 1;
        assert(views(out@) =~= Seq::<Expr>::empty());
        while i < n
            invariant
                1 <= i <= n == kids(e@).len(),
                imported == self@.imported(func@),
                (SettledList { exprs: views(out@), followed: texts(followed@) }) == self@.having(
                    start,
                ).passed_upto(e@, func@, i - 1),
            decreases n - i,
        {
            let ghost before = views(out@);
            let settled = self.normalize_final_call_expr_in_context(e.kid(i), false, followed);
            let arg = if imported {
                rewrite(&self.ctx.answers.imported_args, &settled)
            } else {
                self.normalize_call_arg_expr_for_callee(func, settled, followed)
            };
            let ghost added = arg@;
            out.push(arg);
            assert(views(out@) =~= before.push(added));
            i = i + 1;
        }
        out
    }

    fn finish_call(&self, func: CExpr, args: Vec<CExpr>, defines: bool) -> (r: CExpr)
        ensures
            r@ == self@.final_call(func@, views(args@), defines),
        decreases self.left, 1int,
    {
        let mut passed = args;
        let imported = self.is_imported_call_target(&func);
        if !imported {
            return CExpr::call(func, passed);
        }
        let limit = match self.non_variadic_call_arity(&func) {
            Some(n) => Some(n),
            None => {
                let whole = CExpr::call(func.dup(), crate::ast::expr::dup_all(&passed));
                match find_expr(&self.ctx.answers.printf_arities, &whole) {
                    Some(n) => Some(*n),
                    None => None,
                }
            },
        };
        cap(&mut passed, limit);
        let e = CExpr::call(func, passed);
        if !defines {
            if let Some(owner) = self.rendered_owner(&e) {
                return owner;
            }
        }
        e
    }

    fn finish_load(&self, inner: CExpr) -> (r: CExpr)
        ensures
            r@ == self@.final_load(inner@),
        decreases self.left, 24int,
    {
        let none: Vec<String> = Vec::new();
        assert(texts(none@) =~= Seq::<Seq<char>>::empty());
        if let Some(addr) = self.normalized_addr_from_visible_expr(&inner, 0) {
            if let Some(access) = self.render_access_expr_from_addr(&addr, 0, 0, &none) {
                return access;
            }
        }
        CExpr::deref(inner)
    }

    fn normalize_kids(&self, e: &CExpr, followed: &mut Vec<String>) -> (r: Vec<CExpr>)
        ensures
            (SettledList { exprs: views(r@), followed: texts(final(followed)@) }) == self@.having(
                texts(old(followed)@),
            ).final_upto(e@, kids(e@).len() as int),
            r@.len() == kids(e@).len(),
        decreases self.left, 30int, 0int, 0int, 0int, e, 0int,
    {
        let ghost start = texts(followed@);
        let n = e.arity();
        let mut parts: Vec<CExpr> = Vec::new();
        let mut i: u128 = 0;
        assert(views(parts@) =~= Seq::<Expr>::empty());
        while i < n
            invariant
                i <= n == kids(e@).len(),
                parts@.len() == i,
                (SettledList { exprs: views(parts@), followed: texts(followed@) }) == self@.having(
                    start,
                ).final_upto(e@, i as int),
            decreases n - i,
        {
            let ghost before = views(parts@);
            let part = self.normalize_final_call_expr_in_context(e.kid(i), false, followed);
            let ghost added = part@;
            parts.push(part);
            assert(views(parts@) =~= before.push(added));
            i = i + 1;
        }
        parts
    }

    /// An expression as the last pass leaves it, and the names that its arguments were
    /// followed through.
    pub fn normalize_final_call_expr_in_context(
        &self,
        e: &CExpr,
        defines: bool,
        followed: &mut Vec<String>,
    ) -> (r: CExpr)
        ensures
            (Settled { expr: r@, followed: texts(final(followed)@) }) == self@.having(
                texts(old(followed)@),
            ).final_expr(e@, defines),
        decreases self.left, 30int, 0int, 0int, 0int, e, 1int,
    {
        match e {
            CExpr::Binary { op, left, right } => {
                if *op == BinaryOp::Assign {
                    let l = self.normalize_final_call_expr_in_context(left, false, followed);
                    let r = self.normalize_final_call_expr_in_context(right, true, followed);
                    return CExpr::assign(l, r);
                }
                let parts = self.normalize_kids(e, followed);
                e.rebuild(parts)
            },
            CExpr::Call { func, args } => {
                let f = self.normalize_final_call_expr_in_context(func, false, followed);
                let passed = self.pass_args(e, &f, followed);
                let now = copy_texts(followed);
                self.now_having(&now).finish_call(f, passed, defines)
            },
            CExpr::Deref(inner) => {
                let target = self.normalize_final_call_expr_in_context(inner, false, followed);
                let now = copy_texts(followed);
                self.now_having(&now).finish_load(target)
            },
            CExpr::Subscript { base, index } => {
                let b = self.normalize_final_call_expr_in_context(base, false, followed);
                let i = self.normalize_final_call_expr_in_context(index, false, followed);
                let now = copy_texts(followed);
                if self.now_having(&now).should_swap_indexed_access_base(&b, &i) {
                    CExpr::subscript(i, b)
                } else {
                    CExpr::subscript(b, i)
                }
            },
            CExpr::Cast { ty, expr } => CExpr::cast(
                ty.dup(),
                self.normalize_final_call_expr_in_context(expr, defines, followed),
            ),
            CExpr::Paren(inner) => CExpr::Paren(
                Box::new(self.normalize_final_call_expr_in_context(inner, defines, followed)),
            ),
            _ => {
                let parts = self.normalize_kids(e, followed);
                e.rebuild(parts)
            },
        }
    }

    /// An expression as the last pass leaves it, defining nothing.
    pub fn normalize_final_call_expr(&self, e: &CExpr, followed: &mut Vec<String>) -> (r: CExpr)
        ensures
            (Settled { expr: r@, followed: texts(final(followed)@) }) == self@.having(
                texts(old(followed)@),
            ).final_expr(e@, false),
    {
        self.normalize_final_call_expr_in_context(e, false, followed)
    }

    /// A call as the last pass leaves it, where it defines its result.
    pub fn settled_definition(&self, e: &CExpr) -> (r: CExpr)
        ensures
            r@ == self@.final_expr(e@, true).expr,
        decreases self.left, 31int,
    {
        let mut followed = copy_texts(self.followed);
        self.normalize_final_call_expr_in_context(e, true, &mut followed)
    }

    /// A call without surplus arguments.
    pub fn truncate_root_non_variadic_call_expr(&self, e: CExpr) -> (r: CExpr)
        ensures
            r@ == self@.within_arity(e@),
    {
        match e {
            CExpr::Call { func, mut args } => {
                let arity = self.non_variadic_call_arity(&func);
                cap(&mut args, arity);
                CExpr::Call { func, args }
            },
            other => other,
        }
    }
}

} // verus!
