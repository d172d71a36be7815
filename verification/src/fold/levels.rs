//! Asking one rule from within another.
//!
//! What a name means may rest on what other names mean, and those may rest on the
//! first one again. A rule that needs the answer of another for some name asks the
//! level below. A level answers with the same rules, asking the level below it in
//! turn; the lowest level knows nothing of other names. What is being resolved is
//! marked, so that a name that leads back to itself is answered by what stands
//! there in writing. Names that arguments are followed through stay on a list of
//! their own, which passes on from one argument to the next.
//!
//! A rule calls another of its own level directly only where that one comes before
//! it: the second number of its measure is its place in that order.

use crate::ast::expr::{view_opt, CExpr, Expr};
use crate::fold::context::FoldingContext;
use crate::fold::definitions::{has_name, with_name};
use crate::fold::facts::{Meaning, SemanticValue, Val, ValueRef};
use crate::fold::ownership::copy_texts;
use crate::fold::tables::{entry, find, view_opt_text, Site};
use crate::ssa::{SSAVar, Var};
use crate::text::{copy_of, join, texts};
use vstd::prelude::*;

verus! {

/// What a rule asks of the level below.
pub enum Question {
    /// The rendered meaning of a name.
    NameMeaning { name: Seq<char>, depth: int, seen: Seq<Seq<char>> },
    /// What a meaning is written as.
    MeaningExpr { m: Meaning, depth: int, seen: Seq<Seq<char>> },
    /// What a value is written as.
    ValueExpr { v: Val },
    /// How a variable is read.
    Read { var: Var },
    /// The variable behind a shown name.
    Behind { name: Seq<char> },
    /// What the merged versions of a name are passed as to an imported function.
    MergedArg { name: Seq<char>, depth: int, seen: Seq<Seq<char>> },
    /// An expression with its calls settled.
    FinalExpr { e: Expr },
    /// What the result of a call is shown as.
    OwnerOfCall { e: Expr },
    /// The call at a place, written out.
    WrittenCall { site: Site },
}

/// What the level below says: an expression, or the name of a variable. `followed`
/// holds the names that arguments have been followed through by then.
pub struct Answer {
    pub expr: Option<Expr>,
    pub name: Option<Seq<char>>,
    pub followed: Seq<Seq<char>>,
}

pub open spec fn expr_answer(e: Option<Expr>) -> Answer {
    Answer { expr: e, name: None, followed: Seq::empty() }
}

/// An expression as a pass leaves it, and the names that arguments have been followed
/// through by then.
pub struct Settled {
    pub expr: Expr,
    pub followed: Seq<Seq<char>>,
}

/// The best expression found, if any, and the names that arguments have been followed
/// through by then.
pub struct Found {
    pub expr: Option<Expr>,
    pub followed: Seq<Seq<char>>,
}

/// What `n` levels say about a context, for the names being resolved.
#[verifier::opaque]
pub open spec fn asking(ctx: FoldingContext, n: nat) -> spec_fn(
    Seq<Seq<char>>,
    Seq<Seq<char>>,
    Question,
) -> Answer
    decreases n, 1int,
{
    |marks: Seq<Seq<char>>, followed: Seq<Seq<char>>, q: Question|
        answer(ctx, n, marks, followed, q)
}

/// What the highest of `n` levels answers, by the rules of folding. Below the last
/// level nothing is known of other names.
pub open spec fn answer(
    ctx: FoldingContext,
    n: nat,
    marks: Seq<Seq<char>>,
    followed: Seq<Seq<char>>,
    q: Question,
) -> Answer
    decreases n, 0int,
{
    if n == 0 {
        match q {
            Question::FinalExpr { e } => Answer { expr: Some(e), name: None, followed },
            Question::MergedArg { .. } => Answer { expr: None, name: None, followed },
            _ => expr_answer(None),
        }
    } else {
        let level = Reading { ctx, marks, followed, below: asking(ctx, (n - 1) as nat) };
        match q {
            Question::NameMeaning { name, depth, seen } => expr_answer(
                level.name_meaning(name, depth, seen),
            ),
            Question::MeaningExpr { m, depth, seen } => expr_answer(
                level.meaning_expr(m, depth, seen),
            ),
            Question::ValueExpr { v } => expr_answer(level.value_expr(v, 0, Seq::empty())),
            Question::Read { var } => expr_answer(Some(level.expr_of(var))),
            Question::Behind { name } => Answer {
                expr: None,
                name: level.alias_of(name),
                followed,
            },
            Question::MergedArg { name, depth, seen } => {
                let found = level.merged_arg(name, depth, seen);
                Answer { expr: found.expr, name: None, followed: found.followed }
            },
            Question::FinalExpr { e } => {
                let settled = level.final_expr(e, false);
                Answer { expr: Some(settled.expr), name: None, followed: settled.followed }
            },
            Question::OwnerOfCall { e } => expr_answer(level.owner_of_call(e)),
            Question::WrittenCall { site } => expr_answer(level.written_call(site)),
        }
    }
}

/// What is asked of `n` levels is what the highest of them answers.
pub proof fn asked_is_answered(
    ctx: FoldingContext,
    n: nat,
    marks: Seq<Seq<char>>,
    followed: Seq<Seq<char>>,
    q: Question,
)
    ensures
        asking(ctx, n)(marks, followed, q) == answer(ctx, n, marks, followed, q),
{
    reveal(asking);
}

/// How many levels folding starts from: more than ever stand on one another, since
/// each of them takes room that runs out before.
pub const LEVELS: u32 = 0xffff_ffff;

/// Reads a context at a level, while some names are being resolved.
pub struct Folder<'a> {
    pub ctx: &'a FoldingContext,
    /// What is being resolved, each name behind the word of its rule.
    pub marks: &'a Vec<String>,
    /// Names that arguments have been followed through. They are not followed again.
    pub followed: &'a Vec<String>,
    /// How many levels are left below.
    pub left: u32,
}

/// A context read at a level, as a mathematical value.
pub struct Reading {
    pub ctx: FoldingContext,
    pub marks: Seq<Seq<char>>,
    pub followed: Seq<Seq<char>>,
    /// What the level below answers.
    pub below: spec_fn(Seq<Seq<char>>, Seq<Seq<char>>, Question) -> Answer,
}

impl<'a> Folder<'a> {
    pub open spec fn view(&self) -> Reading {
        Reading {
            ctx: *self.ctx,
            marks: texts(self.marks@),
            followed: texts(self.followed@),
            below: asking(*self.ctx, self.left as nat),
        }
    }

    /// The same context, one level down.
    fn below(&self) -> (r: Folder<'a>)
        requires
            self.left > 0,
        ensures
            r.left == self.left - 1,
            r.ctx == self.ctx,
            r.marks == self.marks,
            r.followed == self.followed,
    {
        Folder {
            ctx: self.ctx,
            marks: self.marks,
            followed: self.followed,
            left: self.left - 1,
        }
    }

    /// This reading, once arguments have been followed through some names.
    pub fn now_having<'b>(&'b self, followed: &'b Vec<String>) -> (r: Folder<'b>)
        ensures
            r.ctx == self.ctx,
            r.marks == self.marks,
            r.followed == followed,
            r.left == self.left,
    {
        Folder { ctx: self.ctx, marks: self.marks, followed, left: self.left }
    }

    /// This reading, with other marks.
    pub fn now_marking<'b>(&'b self, marks: &'b Vec<String>) -> (r: Folder<'b>)
        ensures
            r.ctx == self.ctx,
            r.marks == marks,
            r.followed == self.followed,
            r.left == self.left,
    {
        Folder { ctx: self.ctx, marks, followed: self.followed, left: self.left }
    }

    /// Is a name being resolved by a rule?
    pub fn is_marked(&self, rule: &str, name: &str) -> (r: bool)
        ensures
            r == self@.marked(rule@, name@),
    {
        has_name(self.marks, &join(rule, name))
    }

    /// The marks, with a name that a rule resolves.
    pub fn with_mark(&self, rule: &str, name: &str) -> (r: Vec<String>)
        ensures
            texts(r@) == self@.marks.push(rule@ + name@),
    {
        with_name(self.marks, &join(rule, name))
    }

    /// Is a key marked?
    pub fn has_mark(&self, key: &str) -> (r: bool)
        ensures
            r == self@.marks.contains(key@),
    {
        has_name(self.marks, key)
    }

    /// The rendered meaning of a name, as the level below gives it.
    pub fn rendered_meaning(&self, name: &str, depth: u32, visited: &Vec<String>) -> (r: Option<CExpr>)
        ensures
            view_opt(r) == self@.asked_meaning(name@, depth as int, texts(visited@)),
        decreases self.left, 0int,
    {
        proof {
            reveal(asking);
        }
        if self.left == 0 {
            return None;
        }
        let below = self.below();
        below.render_semantic_value_by_name(name, depth, visited)
    }

    /// What a meaning is written as, as the level below gives it.
    pub fn rendered_value_meaning(&self, m: &SemanticValue, depth: u32, visited: &Vec<String>) -> (r: Option<CExpr>)
        ensures
            view_opt(r) == self@.asked_meaning_expr(m@, depth as int, texts(visited@)),
        decreases self.left, 0int,
    {
        proof {
            reveal(asking);
        }
        if self.left == 0 {
            return None;
        }
        let below = self.below();
        below.render_semantic_value(m, depth, visited)
    }

    /// What a value is written as, as the level below gives it.
    pub fn rendered_value(&self, v: &ValueRef) -> (r: Option<CExpr>)
        ensures
            view_opt(r) == self@.asked_value(v@),
        decreases self.left, 0int,
    {
        proof {
            reveal(asking);
        }
        if self.left == 0 {
            return None;
        }
        let none: Vec<String> = Vec::new();
        assert(texts(none@) =~= Seq::empty());
        let below = self.below();
        below.render_value_ref(v, 0, &none)
    }

    /// How a variable is read, as the level below reads it.
    pub fn rendered_read(&self, var: &SSAVar) -> (r: CExpr)
        ensures
            r@ == self@.asked_read(var@),
        decreases self.left, 0int,
    {
        proof {
            reveal(asking);
        }
        if self.left == 0 {
            return CExpr::Var(self.var_name(var));
        }
        let below = self.below();
        below.get_expr(var)
    }

    /// The variable behind a shown name.
    pub fn find_ssa_name_for_rendered_alias(&self, name: &str) -> (r: Option<String>)
        ensures
            view_opt_text(r) == self@.ssa_of(name@),
        decreases self.left, 0int,
    {
        if let Some(kept) = find(&self.ctx.kept.aliases, name) {
            return match kept {
                Some(ssa) => Some(copy_of(ssa)),
                None => None,
            };
        }
        proof {
            reveal(asking);
        }
        if self.left == 0 {
            return None;
        }
        let below = self.below();
        below.resolve_rendered_alias(name)
    }

    /// What the merged versions of a name are passed as, as the level below gives it.
    pub fn rendered_merged(
        &self,
        name: &str,
        depth: u32,
        visited: &Vec<String>,
        followed: &mut Vec<String>,
    ) -> (r: Option<CExpr>)
        ensures
            (Found { expr: view_opt(r), followed: texts(final(followed)@) }) == self@.having(
                texts(old(followed)@),
            ).asked_merged(
                name@,
                depth as int,
                texts(visited@),
            ),
        decreases self.left, 0int,
    {
        proof {
            reveal(asking);
        }
        if self.left == 0 {
            return None;
        }
        let below = self.below();
        below.resolve_imported_arg_from_phi_sources(name, depth, visited, followed)
    }

    /// What the merged versions of a name are passed as, as the level below gives it,
    /// whatever names that follows.
    pub fn rendered_merged_arg(&self, name: &str, depth: u32, visited: &Vec<String>) -> (r: Option<CExpr>)
        ensures
            view_opt(r) == self@.asked_merged_arg(name@, depth as int, texts(visited@)),
        decreases self.left, 1int,
    {
        let mut followed = copy_texts(self.followed);
        self.rendered_merged(name, depth, visited, &mut followed)
    }

    /// An expression with its calls settled, as the level below settles them.
    pub fn rewrite_calls(&self, e: &CExpr, followed: &mut Vec<String>) -> (r: CExpr)
        ensures
            (Settled { expr: r@, followed: texts(final(followed)@) }) == self@.having(
                texts(old(followed)@),
            ).asked_final(e@),
        decreases self.left, 0int,
    {
        proof {
            reveal(asking);
        }
        if self.left == 0 {
            return e.dup();
        }
        let below = self.below();
        below.normalize_final_call_expr_in_context(e, false, followed)
    }

    /// What the result of a call is shown as, as the level below gives it.
    pub fn rendered_owner(&self, e: &CExpr) -> (r: Option<CExpr>)
        ensures
            view_opt(r) == self@.asked_owner(e@),
        decreases self.left, 0int,
    {
        proof {
            reveal(asking);
        }
        if self.left == 0 {
            return None;
        }
        let below = self.below();
        below.stable_owned_call_result_expr_for_call_expr(e)
    }

    /// The call at a place, as the level below writes it out.
    pub fn rendered_call(&self, site: Site) -> (r: Option<CExpr>)
        ensures
            view_opt(r) == self@.asked_call(site),
        decreases self.left, 0int,
    {
        proof {
            reveal(asking);
        }
        if self.left == 0 {
            return None;
        }
        let below = self.below();
        below.synthesized_call_expr_for_source_call(site)
    }
}

impl Reading {
    /// Is a name being resolved by a rule?
    pub open spec fn marked(&self, rule: Seq<char>, name: Seq<char>) -> bool {
        self.marks.contains(rule + name)
    }

    /// This reading, while a rule resolves a name.
    pub open spec fn resolving(&self, rule: Seq<char>, name: Seq<char>) -> Reading {
        Reading { marks: self.marks.push(rule + name), ..*self }
    }

    /// This reading, with a key marked.
    pub open spec fn marking(&self, key: Seq<char>) -> Reading {
        Reading { marks: self.marks.push(key), ..*self }
    }

    /// This reading, once arguments have been followed through some names.
    pub open spec fn having(&self, followed: Seq<Seq<char>>) -> Reading {
        Reading { followed, ..*self }
    }

    /// The rendered meaning of a name, as the level below gives it.
    pub open spec fn asked_meaning(&self, name: Seq<char>, depth: int, seen: Seq<Seq<char>>) -> Option<Expr> {
        (self.below)(self.marks, self.followed, Question::NameMeaning { name, depth, seen }).expr
    }

    /// What a meaning is written as, as the level below gives it.
    pub open spec fn asked_meaning_expr(&self, m: Meaning, depth: int, seen: Seq<Seq<char>>) -> Option<Expr> {
        (self.below)(self.marks, self.followed, Question::MeaningExpr { m, depth, seen }).expr
    }

    /// What a value is written as, as the level below gives it.
    pub open spec fn asked_value(&self, v: Val) -> Option<Expr> {
        (self.below)(self.marks, self.followed, Question::ValueExpr { v }).expr
    }

    /// How a variable is read, as the level below reads it.
    pub open spec fn asked_read(&self, var: Var) -> Expr {
        match (self.below)(self.marks, self.followed, Question::Read { var }).expr {
            Some(e) => e,
            None => Expr::Var(self.shown(var)),
        }
    }

    /// The variable behind a shown name: the one found before, or the one that the
    /// level below finds.
    pub open spec fn ssa_of(&self, name: Seq<char>) -> Option<Seq<char>> {
        match entry(self.ctx.kept.aliases@, name) {
            Some(kept) => view_opt_text(kept),
            None => (self.below)(self.marks, self.followed, Question::Behind { name }).name,
        }
    }

    /// What the merged versions of a name are passed as, as the level below gives it.
    pub open spec fn asked_merged(&self, name: Seq<char>, depth: int, seen: Seq<Seq<char>>) -> Found {
        let a = (self.below)(self.marks, self.followed, Question::MergedArg { name, depth, seen });
        Found { expr: a.expr, followed: a.followed }
    }

    /// What the merged versions of a name are passed as, as the level below gives it,
    /// whatever names that follows.
    pub open spec fn asked_merged_arg(&self, name: Seq<char>, depth: int, seen: Seq<Seq<char>>) -> Option<Expr> {
        self.asked_merged(name, depth, seen).expr
    }

    /// An expression with its calls settled, as the level below settles them.
    pub open spec fn asked_final(&self, e: Expr) -> Settled {
        let a = (self.below)(self.marks, self.followed, Question::FinalExpr { e });
        Settled {
            expr: match a.expr {
                Some(settled) => settled,
                None => e,
            },
            followed: a.followed,
        }
    }

    /// What the result of a call is shown as, as the level below gives it.
    pub open spec fn asked_owner(&self, e: Expr) -> Option<Expr> {
        (self.below)(self.marks, self.followed, Question::OwnerOfCall { e }).expr
    }

    /// The call at a place, as the level below writes it out.
    pub open spec fn asked_call(&self, site: Site) -> Option<Expr> {
        (self.below)(self.marks, self.followed, Question::WrittenCall { site }).expr
    }
}

/// A context read from the start, with nothing being resolved.
pub open spec fn reading(ctx: FoldingContext) -> Reading {
    Reading {
        ctx,
        marks: Seq::empty(),
        followed: texts(ctx.kept.followed@),
        below: asking(ctx, LEVELS as nat),
    }
}

impl FoldingContext {
    /// This context, read from the top level.
    pub fn folder<'a>(&'a self, marks: &'a Vec<String>) -> (r: Folder<'a>)
        ensures
            r@ == (Reading { marks: texts(marks@), ..reading(*self) }),
            marks@.len() == 0 ==> r@ == reading(*self),
    {
        assert(marks@.len() == 0 ==> texts(marks@) =~= Seq::empty());
        Folder { ctx: self, marks, followed: &self.kept.followed, left: LEVELS }
    }
}

} // verus!
