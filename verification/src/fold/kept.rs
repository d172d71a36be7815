//! What folding keeps from one question to the next.
//!
//! Some answers are given again as they were given first, even where the facts have
//! changed or where a name was being resolved that no longer is. What is kept when
//! a question comes depends on all that was asked before, in here and by the passes
//! beside folding, so the rules take it as it is: what they say holds whatever is
//! kept. The functions of this module ask a question and keep its answer, not those
//! that were found on the way.

use crate::ast::expr::{view_opt, CExpr, Expr};
use crate::ast::stmt::CStmt;
use crate::fold::context::FoldingContext;
use crate::fold::final_stmts::SettledStmt;
use crate::fold::levels::{reading, Reading, Settled};
use crate::fold::ownership::copy_texts;
use crate::fold::tables::{entry, entry_from, expr_entry, expr_entry_from, find, find_expr, view_opt_text};
use crate::ssa::{view_opt_var, SSAVar};
use crate::text::{copy_of, texts};
use vstd::prelude::*;

verus! {

/// The answers that are kept.
pub struct Kept {
    /// Names that an argument was followed through. They are not followed again.
    pub followed: Vec<String>,
    /// The variables behind shown names.
    pub aliases: Vec<(String, Option<String>)>,
    /// The variables of parameters as they arrive, behind shown names.
    pub entry_args: Vec<(String, Option<String>)>,
    /// The variables that forwarded values come from.
    pub sources: Vec<(String, Option<SSAVar>)>,
    /// What the results of calls are shown as. Forgotten with the next analysis.
    pub owners: Vec<(CExpr, Option<CExpr>)>,
}

impl Kept {
    /// Nothing is kept.
    pub open spec fn blank(&self) -> bool {
        &&& self.followed@.len() == 0
        &&& self.aliases@.len() == 0
        &&& self.entry_args@.len() == 0
        &&& self.sources@.len() == 0
        &&& self.owners@.len() == 0
    }

    /// Nothing is kept.
    pub fn new() -> (r: Self)
        ensures
            r.blank(),
    {
        Kept {
            followed: Vec::new(),
            aliases: Vec::new(),
            entry_args: Vec::new(),
            sources: Vec::new(),
            owners: Vec::new(),
        }
    }
}

/// Is a table the one before, with an entry for a name where it had none?
pub open spec fn kept_under<V>(t: Seq<(String, V)>, before: Seq<(String, V)>, name: Seq<char>) -> bool {
    if entry(before, name) is Some {
        t == before
    } else {
        t.len() == before.len() + 1 && t.drop_last() == before && t.last().0@ == name
    }
}

/// Is a table the one before, with an entry for an expression where it had none?
pub open spec fn kept_for<V>(t: Seq<(CExpr, V)>, before: Seq<(CExpr, V)>, e: Expr) -> bool {
    if expr_entry(before, e) is Some {
        t == before
    } else {
        t.len() == before.len() + 1 && t.drop_last() == before && t.last().0@ == e
    }
}

proof fn lemma_entry_after_push<V>(t: Seq<(String, V)>, x: (String, V), key: Seq<char>, i: int)
    requires
        0 <= i <= t.len(),
    ensures
        entry_from(t.push(x), key, i) == if entry_from(t, key, i) is Some {
            entry_from(t, key, i)
        } else if x.0@ == key {
            Some(x.1)
        } else {
            None
        },
    decreases t.len() - i,
{
    if i < t.len() {
        assert(t.push(x)[i] == t[i]);
        lemma_entry_after_push(t, x, key, i + 1);
    } else {
        assert(t.push(x)[i] == x);
        assert(entry_from(t.push(x), key, i + 1) is None);
    }
}

proof fn lemma_expr_entry_after_push<V>(t: Seq<(CExpr, V)>, x: (CExpr, V), key: Expr, i: int)
    requires
        0 <= i <= t.len(),
    ensures
        expr_entry_from(t.push(x), key, i) == if expr_entry_from(t, key, i) is Some {
            expr_entry_from(t, key, i)
        } else if x.0@ == key {
            Some(x.1)
        } else {
            None
        },
    decreases t.len() - i,
{
    if i < t.len() {
        assert(t.push(x)[i] == t[i]);
        lemma_expr_entry_after_push(t, x, key, i + 1);
    } else {
        assert(t.push(x)[i] == x);
        assert(expr_entry_from(t.push(x), key, i + 1) is None);
    }
}

fn keep_under<V>(t: &mut Vec<(String, V)>, name: &str, v: V)
    requires
        entry(old(t)@, name@) is None,
    ensures
        kept_under(final(t)@, old(t)@, name@),
        entry(final(t)@, name@) == Some(v),
{
    let key = copy_of(name);
    let ghost x = (key, v);
    proof {
        lemma_entry_after_push(t@, x, name@, 0);
    }
    t.push((key, v));
    assert(t@.drop_last() =~= old(t)@);
}

fn keep_for<V>(t: &mut Vec<(CExpr, V)>, e: CExpr, v: V)
    requires
        expr_entry(old(t)@, e@) is None,
    ensures
        kept_for(final(t)@, old(t)@, e@),
        expr_entry(final(t)@, e@) == Some(v),
{
    let ghost x = (e, v);
    proof {
        lemma_expr_entry_after_push(t@, x, e@, 0);
    }
    t.push((e, v));
    assert(t@.drop_last() =~= old(t)@);
}

fn text_again(s: &Option<String>) -> (r: Option<String>)
    ensures
        view_opt_text(r) == view_opt_text(*s),
{
    match s {
        Some(s) => Some(copy_of(s)),
        None => None,
    }
}

impl FoldingContext {
    /// The variable behind a shown name. It is kept for good.
    pub fn find_ssa_name_for_rendered_alias(&mut self, name: &str) -> (r: Option<String>)
        ensures
            view_opt_text(r) == reading(*old(self)).ssa_of(name@),
            *final(self) == (FoldingContext {
                kept: Kept { aliases: final(self).kept.aliases, ..old(self).kept },
                ..*old(self)
            }),
            kept_under(final(self).kept.aliases@, old(self).kept.aliases@, name@),
            entry(final(self).kept.aliases@, name@) matches Some(kept) && view_opt_text(kept)
                == reading(*old(self)).ssa_of(name@),
    {
        let none: Vec<String> = Vec::new();
        let answer = self.folder(&none).find_ssa_name_for_rendered_alias(name);
        if find(&self.kept.aliases, name).is_none() {
            keep_under(&mut self.kept.aliases, name, text_again(&answer));
        }
        answer
    }

    /// The variable of a parameter as it arrives, behind a shown name. It is kept
    /// for good.
    pub fn preferred_entry_arg_ssa_name(&mut self, name: &str) -> (r: Option<String>)
        ensures
            view_opt_text(r) == reading(*old(self)).entry_arg(name@),
            *final(self) == (FoldingContext {
                kept: Kept { entry_args: final(self).kept.entry_args, ..old(self).kept },
                ..*old(self)
            }),
            kept_under(final(self).kept.entry_args@, old(self).kept.entry_args@, name@),
            entry(final(self).kept.entry_args@, name@) matches Some(kept) && view_opt_text(kept)
                == reading(*old(self)).entry_arg(name@),
    {
        let none: Vec<String> = Vec::new();
        let answer = self.folder(&none).preferred_entry_arg_ssa_name(name);
        if find(&self.kept.entry_args, name).is_none() {
            keep_under(&mut self.kept.entry_args, name, text_again(&answer));
        }
        answer
    }

    /// The variable that a forwarded value comes from. It is kept for good.
    pub fn forwarded_source_var(&mut self, name: &str) -> (r: Option<SSAVar>)
        ensures
            view_opt_var(r) == reading(*old(self)).forwarded_var(name@),
            *final(self) == (FoldingContext {
                kept: Kept { sources: final(self).kept.sources, ..old(self).kept },
                ..*old(self)
            }),
            kept_under(final(self).kept.sources@, old(self).kept.sources@, name@),
            entry(final(self).kept.sources@, name@) matches Some(kept) && view_opt_var(kept)
                == reading(*old(self)).forwarded_var(name@),
    {
        let none: Vec<String> = Vec::new();
        let answer = self.folder(&none).forwarded_source_var(name);
        if find(&self.kept.sources, name).is_none() {
            let again = match &answer {
                Some(var) => Some(var.dup()),
                None => None,
            };
            keep_under(&mut self.kept.sources, name, again);
        }
        answer
    }

    /// What the result of a call is shown as. It is kept until the next analysis.
    pub fn stable_owned_call_result_expr_for_call_expr(&mut self, e: &CExpr) -> (r: Option<CExpr>)
        ensures
            view_opt(r) == reading(*old(self)).owner_of_call(e@),
            *final(self) == (FoldingContext {
                kept: Kept { owners: final(self).kept.owners, ..old(self).kept },
                ..*old(self)
            }),
            !(e@ is Call) ==> final(self).kept.owners == old(self).kept.owners,
            e@ is Call ==> kept_for(
                final(self).kept.owners@,
                old(self).kept.owners@,
                reading(*old(self)).call_form(e@),
            ) && (expr_entry(
                final(self).kept.owners@,
                reading(*old(self)).call_form(e@),
            ) matches Some(kept) && view_opt(kept) == reading(*old(self)).owner_of_call(e@)),
    {
        let none: Vec<String> = Vec::new();
        let f = self.folder(&none);
        let answer = f.stable_owned_call_result_expr_for_call_expr(e);
        if let CExpr::Call { .. } = e {
            let key = f.call_expr_cache_key(e);
            if find_expr(&self.kept.owners, &key).is_none() {
                let again = match &answer {
                    Some(owner) => Some(owner.dup()),
                    None => None,
                };
                keep_for(&mut self.kept.owners, key, again);
            }
        }
        answer
    }

    /// An argument of an imported function, resolved. The names that it was followed
    /// through are kept for good.
    pub fn resolve_imported_call_arg_expr(&mut self, e: &CExpr) -> (r: CExpr)
        ensures
            (Settled { expr: r@, followed: texts(final(self).kept.followed@) }) == reading(
                *old(self),
            ).resolved(e@, 0, Seq::empty()),
            *final(self) == (FoldingContext {
                kept: Kept { followed: final(self).kept.followed, ..old(self).kept },
                ..*old(self)
            }),
    {
        let none: Vec<String> = Vec::new();
        assert(texts(none@) =~= Seq::<Seq<char>>::empty());
        let mut followed = copy_texts(&self.kept.followed);
        let r = self.folder(&none).resolve_imported_call_arg_expr(e, 0, &none, &mut followed);
        self.kept.followed = followed;
        r
    }

    /// A statement in its final form. The names that its arguments were followed
    /// through are kept for good.
    pub fn normalize_final_stmt_calls(&mut self, s: &CStmt) -> (r: CStmt)
        ensures
            (SettledStmt { stmt: r@, followed: texts(final(self).kept.followed@) }) == reading(
                *old(self),
            ).final_stmt(s@),
            *final(self) == (FoldingContext {
                kept: Kept { followed: final(self).kept.followed, ..old(self).kept },
                ..*old(self)
            }),
    {
        let none: Vec<String> = Vec::new();
        let mut followed = copy_texts(&self.kept.followed);
        let r = self.folder(&none).normalize_final_stmt_calls(s, &mut followed);
        self.kept.followed = followed;
        r
    }
}

impl Reading {
    /// The variable behind a shown name that was asked for before is the one that was
    /// found then, whatever the facts now say and whichever names are being resolved.
    pub proof fn a_kept_alias_is_given_again(&self, name: Seq<char>)
        requires
            entry(self.ctx.kept.aliases@, name) is Some,
        ensures
            self.ssa_of(name) == view_opt_text(entry(self.ctx.kept.aliases@, name)->0),
    {
    }

    /// What the result of a call is shown as, once it was asked for, stays so until
    /// the next analysis.
    pub proof fn a_kept_owner_is_given_again(&self, e: Expr)
        requires
            e is Call,
            expr_entry(self.ctx.kept.owners@, self.call_form(e)) is Some,
        ensures
            self.owner_of_call(e) == view_opt(
                expr_entry(self.ctx.kept.owners@, self.call_form(e))->0,
            ),
    {
    }

    /// A name that an argument was followed through before is not followed again: it
    /// is answered by what stands there in writing.
    pub proof fn what_was_followed_is_not_followed_again(
        &self,
        name: Seq<char>,
        depth: int,
        seen: Seq<Seq<char>>,
    )
        requires
            self.followed.contains(name),
        ensures
            self.resolved(Expr::Var(name), depth, seen) == (Settled {
                expr: self.cycle_fallback(name),
                followed: self.followed,
            }),
            self.forced_arg(name, depth, seen).expr == Some(self.cycle_fallback(name)),
    {
    }
}

/// Keeping one answer leaves the others as they were.
pub proof fn keeping_disturbs_no_other_answer<V>(
    t: Seq<(String, V)>,
    before: Seq<(String, V)>,
    name: Seq<char>,
    other: Seq<char>,
)
    requires
        kept_under(t, before, name),
        other != name,
    ensures
        entry(t, other) == entry(before, other),
{
    if entry(before, name) is None {
        assert(t =~= before.push(t.last()));
        lemma_entry_after_push(before, t.last(), other, 0);
    }
}

} // verus!
