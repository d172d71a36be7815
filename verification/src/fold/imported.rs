//! Arguments of imported functions, resolved as far as they can be.
//!
//! A name that is being resolved is marked. A marked name is not resolved
//! again: it stands for its definition, the owner of the call result it holds,
//! or itself. A mark is taken off only where a name resolves to nothing but
//! itself, so that a name is followed once per argument.

use crate::ast::expr::{
    addr_of, call, deref, kid_is_smaller, kids, view_opt, views, with_kids, CExpr, Expr,
};
use crate::fold::address::first;
use crate::fold::call_args::{is_name, is_named};
use crate::fold::context::MAX_SEMANTIC_RENDER_DEPTH;
use crate::fold::definitions::{has_name, with_name};
use crate::fold::levels::{Folder, Reading, Settled};
use crate::fold::ownership::copy_texts;
use crate::fold::shape::{text_of_var, var_text};
use crate::fold::tables::{entry, expr_entry, find, find_expr, named_expr, Site};
use crate::text::{copy_of, same, texts};
use vstd::prelude::*;

verus! {

broadcast use kid_is_smaller;

/// A list without one name.
pub open spec fn unmarked(marks: Seq<Seq<char>>, name: Seq<char>) -> Seq<Seq<char>>
    decreases marks.len(),
{
    if marks.len() == 0 {
        marks
    } else {
        let front = unmarked(marks.drop_last(), name);
        if marks.last() == name {
            front
        } else {
            front.push(marks.last())
        }
    }
}

pub fn unmark(marks: &Vec<String>, name: &str) -> (r: Vec<String>)
    ensures
        texts(r@) == unmarked(texts(marks@), name@),
{
    let mut out: Vec<String> = Vec::new();
    let mut i: usize = 0;
    let ghost all = texts(marks@);
    assert(texts(out@) =~= Seq::<Seq<char>>::empty());
    assert(all.take(0) =~= Seq::<Seq<char>>::empty());
    while i < marks.len()
        invariant
            i <= marks@.len(),
            all == texts(marks@),
            texts(out@) == unmarked(all.take(i as int), name@),
        decreases marks@.len() - i,
    {
        assert(all.take(i + 1).drop_last() =~= all.take(i as int));
        assert(all.take(i + 1).last() == marks@[i as int]@);
        if !same(&marks[i], name) {
            let ghost before = texts(out@);
            out.push(copy_of(&marks[i]));
            assert(texts(out@) =~= before.push(marks@[i as int]@));
        }
        i = i + 1;
    }
    assert(all.take(all.len() as int) =~= all);
    out
}

/// The first `n` expressions of a list.
pub open spec fn capped(list: Seq<Expr>, n: Option<usize>) -> Seq<Expr> {
    match n {
        Some(n) => if n < list.len() {
            list.take(n as int)
        } else {
            list
        },
        None => list,
    }
}

/// Cuts a list to a length.
pub fn cap(list: &mut Vec<CExpr>, n: Option<usize>)
    ensures
        views(final(list)@) == capped(views(old(list)@), n),
{
    let ghost before = list@;
    if let Some(n) = n {
        if n < list.len() {
            list.truncate(n);
            assert(views(list@) =~= views(before).take(n as int));
        }
    }
}

/// A list of expressions as a pass leaves them, and the names that arguments have been
/// followed through by then.
pub struct SettledList {
    pub exprs: Seq<Expr>,
    pub followed: Seq<Seq<char>>,
}

impl Reading {
    /// What a marked name stands for.
    pub open spec fn cycle_fallback(&self, name: Seq<char>) -> Expr {
        match first(
            named_expr(self.ctx.facts.definitions@, name),
            self.owner_for(name, true),
        ) {
            Some(e) => e,
            None => self.fallback(name),
        }
    }

    /// How many arguments a callee takes at most.
    pub open spec fn arity_of(&self, callee: Expr) -> Option<usize> {
        expr_entry(self.ctx.answers.call_arities@, callee)
    }

    /// The call whose result a name holds, as preparation found it.
    pub open spec fn prepared_source(&self, name: Seq<char>) -> Option<Site> {
        match self.ctx.inputs.prepared {
            Some(prepared) => match entry(prepared.call_result_sources@, name) {
                Some(site) => Some(site),
                None => match self.ssa_of(name) {
                    Some(ssa) => entry(prepared.call_result_sources@, ssa),
                    None => None,
                },
            },
            None => None,
        }
    }

    /// The result of the call that a name holds.
    pub open spec fn held_call_result(&self, name: Seq<char>) -> Option<Expr> {
        match self.prepared_source(name) {
            Some(site) => first(
                self.owner_expr(site),
                self.asked_call(site),
            ),
            None => None,
        }
    }

    /// A rendering of a name, where passing it is better than passing the name.
    pub open spec fn passed_instead(&self, name: Seq<char>, rendering: Option<Expr>) -> Option<Expr> {
        match rendering {
            Some(r) => {
                let e = Expr::Var(name);
                let preferred = if self.transient(name) {
                    Some(r)
                } else {
                    self.arg_chosen(Some(e), Some(r), true, false)
                };
                match preferred {
                    Some(p) => if p != e {
                        Some(p)
                    } else {
                        None
                    },
                    None => None,
                }
            },
            None => None,
        }
    }

    /// A definition of a name that is not the name itself, up to case.
    pub open spec fn other_than_named(&self, name: Seq<char>, e: Option<Expr>) -> Option<Expr> {
        match e {
            Some(e) => if is_name(e, name) {
                None
            } else {
                Some(e)
            },
            None => None,
        }
    }

    /// A definition of a name that is not the name itself.
    pub open spec fn other_than(&self, name: Seq<char>, e: Option<Expr>) -> Option<Expr> {
        match e {
            Some(e) => if e == Expr::Var(name) {
                None
            } else {
                Some(e)
            },
            None => None,
        }
    }

    /// What a name is followed to first: the call result it holds, what its
    /// slot holds for good, its meaning, or the meaning or definition of the
    /// variable behind it.
    pub open spec fn followed_first(&self, name: Seq<char>, depth: int, seen: Seq<Seq<char>>) -> Option<Expr> {
        let held = match self.stable_meaning(self.storage_offset(name)) {
            Some(m) => self.meaning_expr(m, depth + 1, seen),
            None => None,
        };
        let by_alias = match self.ssa_of(name) {
            Some(ssa) => if ssa != name {
                first(
                    self.passed_instead(name, self.name_meaning(ssa, depth + 1, seen)),
                    self.other_than_named(name, self.defined_as(ssa)),
                )
            } else {
                None
            },
            None => None,
        };
        first(
            self.held_call_result(name),
            first(
                self.passed_instead(name, held),
                first(
                    self.passed_instead(name, self.name_meaning(name, depth + 1, seen)),
                    by_alias,
                ),
            ),
        )
    }

    /// A resolved written definition, or its meaning where that reads better.
    pub open spec fn resolved_definition(&self, e: Expr, depth: int, seen: Seq<Seq<char>>) -> Expr {
        self.best_of_definition(e, self.semantic(e, depth + 1, seen))
    }

    /// A name, resolved, once it is on the list of those followed. Where it leads
    /// nowhere it is taken off the list again.
    pub open spec fn resolved_name(&self, name: Seq<char>, depth: int, seen: Seq<Seq<char>>) -> Settled
        decreases MAX_SEMANTIC_RENDER_DEPTH + 1 - depth, 0int, 0int,
    {
        if depth > MAX_SEMANTIC_RENDER_DEPTH {
            Settled { expr: Expr::Var(name), followed: unmarked(self.followed, name) }
        } else {
            let next = self.followed_first(name, depth, seen);
            let merges = self.asked_merged(name, depth + 1, seen);
            let merged = self.other_than_named(name, merges.expr);
            let there = self.having(merges.followed);
            let written = there.other_than_named(name, there.raw_of(name));
            let defined = first(
                there.other_than(name, there.defined_as(name)),
                there.other_than(name, there.best_known(name)),
            );
            if next is Some {
                self.resolved(next->0, depth + 1, seen)
            } else if merged is Some {
                Settled { expr: merged->0, followed: merges.followed }
            } else if written is Some {
                let r = there.resolved(written->0, depth + 1, seen);
                Settled {
                    expr: self.having(r.followed).resolved_definition(r.expr, depth, seen),
                    followed: r.followed,
                }
            } else if defined is Some {
                there.resolved(defined->0, depth + 1, seen)
            } else {
                Settled { expr: Expr::Var(name), followed: unmarked(merges.followed, name) }
            }
        }
    }

    /// The first `n` expressions of a list, resolved one after the other.
    pub open spec fn resolved_upto(&self, list: Seq<Expr>, n: int, depth: int, seen: Seq<Seq<char>>) -> SettledList
        decreases MAX_SEMANTIC_RENDER_DEPTH + 1 - depth, 2int, n,
    {
        if n <= 0 {
            SettledList { exprs: Seq::empty(), followed: self.followed }
        } else {
            let before = self.resolved_upto(list, n - 1, depth, seen);
            let r = self.having(before.followed).resolved(list[n - 1], depth, seen);
            SettledList { exprs: before.exprs.push(r.expr), followed: r.followed }
        }
    }

    /// An argument, resolved. A name is followed once: from then on it is answered by
    /// what stands there in writing.
    pub open spec fn resolved(&self, e: Expr, depth: int, seen: Seq<Seq<char>>) -> Settled
        decreases MAX_SEMANTIC_RENDER_DEPTH + 1 - depth, 1int, 0int,
    {
        match e {
            Expr::Var(name) => if self.followed.contains(name) {
                Settled { expr: self.cycle_fallback(name), followed: self.followed }
            } else {
                self.having(self.followed.push(name)).resolved_name(name, depth, seen)
            },
            _ => if depth > MAX_SEMANTIC_RENDER_DEPTH {
                Settled { expr: e, followed: self.followed }
            } else {
                match e {
                    Expr::Deref(inner) => {
                        let r = self.resolved(*inner, depth + 1, seen);
                        match self.access_through(r.expr, self.pointer_size()) {
                            Some(access) => self.having(r.followed).resolved(access, depth + 1, seen),
                            None => Settled { expr: deref(r.expr), followed: r.followed },
                        }
                    },
                    Expr::AddrOf(inner) => if self.incoming_slot(*inner) {
                        Settled { expr: e, followed: self.followed }
                    } else {
                        let r = self.resolved(*inner, depth + 1, seen);
                        Settled { expr: addr_of(r.expr), followed: r.followed }
                    },
                    Expr::Call { func, args } => {
                        let f = self.resolved(*func, depth + 1, seen);
                        let rest = self.having(f.followed).resolved_upto(
                            args,
                            args.len() as int,
                            depth + 1,
                            seen,
                        );
                        Settled {
                            expr: call(f.expr, capped(rest.exprs, self.arity_of(f.expr))),
                            followed: rest.followed,
                        }
                    },
                    _ => {
                        let parts = self.resolved_upto(
                            kids(e),
                            kids(e).len() as int,
                            depth + 1,
                            seen,
                        );
                        Settled { expr: with_kids(e, parts.exprs), followed: parts.followed }
                    },
                }
            },
        }
    }

    /// The size of a pointer, at least one byte.
    pub open spec fn pointer_size(&self) -> u32 {
        if self.ctx.arch.ptr_size < 1 {
            1
        } else {
            self.ctx.arch.ptr_size
        }
    }

    /// A slot at or above the frame base.
    pub open spec fn incoming_slot(&self, e: Expr) -> bool {
        match var_text(e) {
            Some(name) => self.storage_offset(name) matches Some(offset) && offset >= 0,
            None => false,
        }
    }
}

impl<'a> Folder<'a> {
    /// What a marked name stands for.
    pub fn resolution_cycle_fallback(&self, name: &str) -> (r: CExpr)
        ensures
            r@ == self@.cycle_fallback(name@),
        decreases self.left, 13int,
    {
        if let Some(e) = self.direct_definition_expr(name) {
            return e;
        }
        match self.stable_owned_call_result_expr_for_name(name, true) {
            Some(e) => e,
            None => self.expr_for_ssa_fallback_name(name),
        }
    }

    /// How many arguments a callee takes at most.
    pub fn non_variadic_call_arity(&self, callee: &CExpr) -> (r: Option<usize>)
        ensures
            r == self@.arity_of(callee@),
    {
        match find_expr(&self.ctx.answers.call_arities, callee) {
            Some(n) => Some(*n),
            None => None,
        }
    }

    fn find_prepared_source(&self, name: &str) -> (r: Option<Site>)
        ensures
            r == self@.prepared_source(name@),
        decreases self.left, 1int,
    {
        match &self.ctx.inputs.prepared {
            Some(prepared) => {
                if let Some(site) = find(&prepared.call_result_sources, name) {
                    return Some(*site);
                }
                match self.find_ssa_name_for_rendered_alias(name) {
                    Some(ssa) => match find(&prepared.call_result_sources, &ssa) {
                        Some(site) => Some(*site),
                        None => None,
                    },
                    None => None,
                }
            },
            None => None,
        }
    }

    fn find_held_call_result(&self, name: &str) -> (r: Option<CExpr>)
        ensures
            view_opt(r) == self@.held_call_result(name@),
        decreases self.left, 12int,
    {
        match self.find_prepared_source(name) {
            Some(site) => match self.stable_owned_call_result_expr_for_source(site) {
                Some(e) => Some(e),
                None => self.rendered_call(site),
            },
            None => None,
        }
    }

    fn pass_instead(&self, name: &str, rendering: Option<CExpr>) -> (r: Option<CExpr>)
        ensures
            view_opt(r) == self@.passed_instead(name@, view_opt(rendering)),
        decreases self.left, 22int,
    {
        match rendering {
            Some(r) => {
                let preferred = if self.is_transient_visible_name(name) {
                    Some(r)
                } else {
                    self.choose_preferred_call_arg_expr(Some(CExpr::var(name)), Some(r), true)
                };
                match preferred {
                    Some(p) => if !p.is_var(name) {
                        Some(p)
                    } else {
                        None
                    },
                    None => None,
                }
            },
            None => None,
        }
    }

    fn keep_other_than_named(&self, name: &str, e: Option<CExpr>) -> (r: Option<CExpr>)
        ensures
            view_opt(r) == self@.other_than_named(name@, view_opt(e)),
    {
        match e {
            Some(e) => if is_named(&e, name) {
                None
            } else {
                Some(e)
            },
            None => None,
        }
    }

    fn keep_other_than(&self, name: &str, e: Option<CExpr>) -> (r: Option<CExpr>)
        ensures
            view_opt(r) == self@.other_than(name@, view_opt(e)),
    {
        match e {
            Some(e) => if e.is_var(name) {
                None
            } else {
                Some(e)
            },
            None => None,
        }
    }

    fn follow_first(&self, name: &str, depth: u32, visited: &Vec<String>) -> (r: Option<CExpr>)
        requires
            depth <= MAX_SEMANTIC_RENDER_DEPTH,
        ensures
            view_opt(r) == self@.followed_first(name@, depth as int, texts(visited@)),
        decreases self.left, 26int,
    {
        if let Some(e) = self.find_held_call_result(name) {
            return Some(e);
        }
        let offset = self.stack_offset_for_visible_storage_name(name);
        let held = match self.find_stable_meaning(offset) {
            Some(m) => self.render_semantic_value(m, depth + 1, visited),
            None => None,
        };
        if let Some(e) = self.pass_instead(name, held) {
            return Some(e);
        }
        if let Some(e) = self.pass_instead(
            name,
            self.render_semantic_value_by_name(name, depth + 1, visited),
        ) {
            return Some(e);
        }
        match self.find_ssa_name_for_rendered_alias(name) {
            Some(ssa) => {
                if same(&ssa, name) {
                    return None;
                }
                if let Some(e) = self.pass_instead(
                    name,
                    self.render_semantic_value_by_name(&ssa, depth + 1, visited),
                ) {
                    return Some(e);
                }
                self.keep_other_than_named(name, self.lookup_definition(&ssa))
            },
            None => None,
        }
    }

    /// The size of a pointer, at least one byte.
    pub fn pointer_bytes(&self) -> (r: u32)
        ensures
            r == self@.pointer_size(),
    {
        if self.ctx.arch.ptr_size < 1 {
            1
        } else {
            self.ctx.arch.ptr_size
        }
    }

    fn is_incoming_slot(&self, e: &CExpr) -> (r: bool)
        ensures
            r == self@.incoming_slot(e@),
    {
        match text_of_var(e) {
            Some(name) => match self.stack_offset_for_visible_storage_name(&name) {
                Some(offset) => offset >= 0,
                None => false,
            },
            None => false,
        }
    }

    fn resolve_name(&self, name: &str, depth: u32, visited: &Vec<String>, followed: &mut Vec<String>) -> (r:
        CExpr)
        ensures
            (Settled { expr: r@, followed: texts(final(followed)@) }) == self@.having(
                texts(old(followed)@),
            ).resolved_name(
                name@,
                depth as int,
                texts(visited@),
            ),
        decreases self.left, 27int, MAX_SEMANTIC_RENDER_DEPTH + 1 - depth, 0int, 0int,
    {
        if depth > MAX_SEMANTIC_RENDER_DEPTH {
            *followed = unmark(followed, name);
            return CExpr::var(name);
        }
        let at_first = copy_texts(followed);
        let here = self.now_having(&at_first);
        if let Some(next) = here.follow_first(name, depth, visited) {
            return self.resolve_imported_call_arg_expr(&next, depth + 1, visited, followed);
        }
        let merged = self.rendered_merged(name, depth + 1, visited, followed);
        if let Some(merged) = here.keep_other_than_named(name, merged) {
            return merged;
        }
        let now = copy_texts(followed);
        let there = self.now_having(&now);
        if let Some(written) = there.keep_other_than_named(name, there.lookup_definition_raw(name)) {
            let e = self.resolve_imported_call_arg_expr(&written, depth + 1, visited, followed);
            let later = copy_texts(followed);
            let behind = self.now_having(&later);
            let meaning = behind.semanticize_visible_expr(&e, depth + 1, visited);
            return if behind.prefers_visible_expr(&e, &meaning) {
                meaning
            } else {
                e
            };
        }
        if let Some(defined) = there.keep_other_than(name, there.lookup_definition(name)) {
            return self.resolve_imported_call_arg_expr(&defined, depth + 1, visited, followed);
        }
        if let Some(best) = there.keep_other_than(name, there.best_visible_definition(name)) {
            return self.resolve_imported_call_arg_expr(&best, depth + 1, visited, followed);
        }
        *followed = unmark(followed, name);
        CExpr::var(name)
    }

    fn resolve_args(
        &self,
        args: &Vec<CExpr>,
        depth: u32,
        visited: &Vec<String>,
        followed: &mut Vec<String>,
    ) -> (r: Vec<CExpr>)
        ensures
            (SettledList { exprs: views(r@), followed: texts(final(followed)@) }) == self@.having(
                texts(old(followed)@),
            ).resolved_upto(
                views(args@),
                args@.len() as int,
                depth as int,
                texts(visited@),
            ),
        decreases self.left, 27int, MAX_SEMANTIC_RENDER_DEPTH + 1 - depth, 2int, 0int,
    {
        let ghost start = texts(followed@);
        let mut out: Vec<CExpr> = Vec::new();
        let mut i: usize = 0;
        assert(views(out@) =~= Seq::<Expr>::empty());
        while i < args.len()
            invariant
                i <= args@.len(),
                (SettledList { exprs: views(out@), followed: texts(followed@) }) == self@.having(
                    start,
                ).resolved_upto(
                    views(args@),
                    i as int,
                    depth as int,
                    texts(visited@),
                ),
            decreases args@.len() - i,
        {
            assert(views(args@)[i as int] == args@[i as int]@);
            let ghost before = views(out@);
            let e = self.resolve_imported_call_arg_expr(&args[i], depth, visited, followed);
            let ghost added = e@;
            out.push(e);
            assert(views(out@) =~= before.push(added));
            i = i + 1;
        }
        out
    }

    /// An argument, resolved, and the names that it was followed through.
    pub fn resolve_imported_call_arg_expr(
        &self,
        e: &CExpr,
        depth: u32,
        visited: &Vec<String>,
        followed: &mut Vec<String>,
    ) -> (r: CExpr)
        ensures
            (Settled { expr: r@, followed: texts(final(followed)@) }) == self@.having(
                texts(old(followed)@),
            ).resolved(
                e@,
                depth as int,
                texts(visited@),
            ),
        decreases self.left, 27int, MAX_SEMANTIC_RENDER_DEPTH + 1 - depth, 1int, 0int,
    {
        if let CExpr::Var(name) = e {
            if has_name(followed, name) {
                let now = copy_texts(followed);
                return self.now_having(&now).resolution_cycle_fallback(name);
            }
            *followed = with_name(followed, name);
            return self.resolve_name(name, depth, visited, followed);
        }
        if depth > MAX_SEMANTIC_RENDER_DEPTH {
            return e.dup();
        }
        let ghost start = texts(followed@);
        let at_first = copy_texts(followed);
        let here = self.now_having(&at_first);
        match e {
            CExpr::Deref(inner) => {
                let target = self.resolve_imported_call_arg_expr(inner, depth + 1, visited, followed);
                match here.render_memory_access_from_visible_expr(&target, here.pointer_bytes()) {
                    Some(access) => self.resolve_imported_call_arg_expr(
                        &access,
                        depth + 1,
                        visited,
                        followed,
                    ),
                    None => CExpr::deref(target),
                }
            },
            CExpr::AddrOf(inner) => {
                if here.is_incoming_slot(inner) {
                    return e.dup();
                }
                CExpr::addr_of(self.resolve_imported_call_arg_expr(inner, depth + 1, visited, followed))
            },
            CExpr::Call { func, args } => {
                let f = self.resolve_imported_call_arg_expr(func, depth + 1, visited, followed);
                let mut rest = self.resolve_args(args, depth + 1, visited, followed);
                assert(views(args@).len() == args@.len());
                let arity = here.non_variadic_call_arity(&f);
                cap(&mut rest, arity);
                CExpr::call(f, rest)
            },
            _ => {
                let n = e.arity();
                let mut parts: Vec<CExpr> = Vec::new();
                let mut i: u128 = 0;
                assert(views(parts@) =~= Seq::<Expr>::empty());
                while i < n
                    invariant
                        i <= n == kids(e@).len(),
                        depth <= MAX_SEMANTIC_RENDER_DEPTH,
                        parts@.len() == i,
                        (SettledList { exprs: views(parts@), followed: texts(followed@) })
                            == self@.having(start).resolved_upto(
                            kids(e@),
                            i as int,
                            depth + 1,
                            texts(visited@),
                        ),
                    decreases n - i,
                {
                    let ghost before = views(parts@);
                    let part = self.resolve_imported_call_arg_expr(
                        e.kid(i),
                        depth + 1,
                        visited,
                        followed,
                    );
                    let ghost added = part@;
                    parts.push(part);
                    assert(views(parts@) =~= before.push(added));
                    i = i + 1;
                }
                e.rebuild(parts)
            },
        }
    }
}

} // verus!
