//! The best rendering of what a name is defined as.

use crate::ast::expr::{cast, kid_is_smaller, paren, unary, view_opt, BinaryOp, CExpr, Expr};
use crate::fold::context::MAX_SEMANTIC_RENDER_DEPTH;
use crate::fold::definitions::{
    as_candidate, candidate_expr, candidate_from, has_name, view_opt_candidate, with_name, Candidate, RenderCandidate,
    RenderCandidateSource,
};
use crate::fold::facts::Origin;
use crate::fold::levels::{Folder, Reading};
use crate::fold::names::{is_low_signal_visible_name, low_signal};
use crate::fold::quality::VisibleExprContext;
use crate::fold::shape::{text_of_var, var_text};
use crate::fold::tables::{
    entry, expr_in_list, expr_listed, find, find_named_expr, find_number, named_expr, number_entry,
};
use crate::text::{has_prefix, lower, same, starts_with, texts, to_lower};
use vstd::prelude::*;

verus! {

broadcast use kid_is_smaller;

impl Reading {
    /// A load or an element access, as the memory pass tells them.
    pub open spec fn memory_shaped(&self, e: Expr) -> bool {
        expr_listed(self.ctx.answers.scalar_memory@, e) || expr_listed(
            self.ctx.answers.structured_memory@,
            e,
        )
    }

    /// The address of something that a reader can make sense of.
    pub open spec fn telling_reference(&self, e: Expr) -> bool {
        match e {
            Expr::Var(name) => self.telling_address(name),
            Expr::AddrOf(inner) => match var_text(*inner) {
                Some(name) => !low_signal(name) && !self.transient(name),
                None => false,
            },
            _ => false,
        }
    }

    /// A written definition, or its meaning where that reads better. An access
    /// does not give way to something that is none.
    pub open spec fn rendered_definition(&self, raw: Expr, depth: int, seen: Seq<Seq<char>>) -> Expr {
        if self.telling_reference(raw) {
            raw
        } else {
            let meaning = self.semantic(raw, depth, seen);
            if self.memory_shaped(raw) && !self.memory_shaped(meaning) {
                raw
            } else if self.prefers(raw, meaning, VisibleExprContext::Generic) {
                meaning
            } else {
                raw
            }
        }
    }

    /// What a forwarded value comes from, rendered.
    pub open spec fn rendered_origin(
        &self,
        origin: Option<Origin>,
        depth: int,
        seen: Seq<Seq<char>>,
    ) -> Option<Candidate>
        decreases self.ctx.limits.simple_expr + 2 - depth, 4int,
    {
        match origin {
            Some(origin) => {
                let found = if depth > self.ctx.limits.simple_expr {
                    None
                } else {
                    self.definition(origin.source, depth, seen)
                };
                candidate_from(
                    match found {
                        Some(e) => Some(e),
                        None => Some(self.fallback(origin.source)),
                    },
                    RenderCandidateSource::ForwardedValue,
                )
            },
            None => None,
        }
    }

    /// What the number of a value gives: its definition, its meaning, its origin.
    pub open spec fn value_candidate(&self, id: u32, depth: int, seen: Seq<Seq<char>>) -> Option<
        Candidate,
    >
        decreases self.ctx.limits.simple_expr + 2 - depth, 1int,
    {
        let defined = candidate_from(
            match number_entry(self.ctx.facts.value_definitions@, id) {
                Some(e) => Some(e@),
                None => None,
            },
            RenderCandidateSource::ValueDefinition,
        );
        let meant = candidate_from(
            match number_entry(self.ctx.facts.value_meanings@, id) {
                Some(m) => self.asked_meaning_expr(m@, depth, seen),
                None => None,
            },
            RenderCandidateSource::SemanticValue,
        );
        let origin = match number_entry(self.ctx.facts.value_origins@, id) {
            Some(p) => Some(p@),
            None => None,
        };
        let best = self.better_candidate(defined, meant, VisibleExprContext::Generic);
        let comes_from = if depth > self.ctx.limits.simple_expr {
            match origin {
                Some(origin) => candidate_from(
                    Some(self.fallback(origin.source)),
                    RenderCandidateSource::ForwardedValue,
                ),
                None => None,
            }
        } else {
            self.rendered_origin(origin, depth + 1, seen)
        };
        self.better_candidate(best, comes_from, VisibleExprContext::Generic)
    }

    /// The best rendering of what a name is defined as. What is being looked up
    /// answers with its direct definition. `seen` holds the keys of the names being
    /// looked up here.
    pub open spec fn definition(&self, name: Seq<char>, depth: int, seen: Seq<Seq<char>>) -> Option<Expr>
        decreases self.ctx.limits.simple_expr + 2 - depth, 3int,
    {
        let key = self.visit_key("def"@, name);
        let progress = self.visit_key("def-progress"@, name);
        if depth > self.ctx.limits.simple_expr || seen.contains(key) {
            None
        } else if self.marks.contains(progress) {
            named_expr(self.ctx.facts.definitions@, name)
        } else {
            self.marking(progress).best_candidate(name, depth, seen.push(key))
        }
    }

    /// The best of what a value gives, a direct definition, a meaning, a written
    /// definition, an origin, and the variable behind a name.
    pub open spec fn best_candidate(&self, name: Seq<char>, depth: int, seen: Seq<Seq<char>>) -> Option<Expr>
        decreases self.ctx.limits.simple_expr + 2 - depth, 2int,
    {
        if depth > self.ctx.limits.simple_expr {
            None
        } else {
            let g = VisibleExprContext::Generic;
            let by_value = match entry(self.ctx.facts.value_ids@, name) {
                Some(id) => self.value_candidate(id, depth, seen),
                None => None,
            };
            let exact = candidate_from(
                named_expr(self.ctx.facts.definitions@, name),
                RenderCandidateSource::ExactNameDefinition,
            );
            let meant = candidate_from(
                self.asked_meaning(name, depth, seen),
                RenderCandidateSource::SemanticValue,
            );
            let raw = match self.raw_definition(name, depth + 1, seen) {
                Some(raw) => candidate_from(
                    Some(self.rendered_definition(raw, depth + 1, seen)),
                    RenderCandidateSource::RawDefinition,
                ),
                None => None,
            };
            let origin = self.rendered_origin(self.origin_of(name), depth + 1, seen);
            let alias = match self.ssa_of(name) {
                Some(ssa) => candidate_from(
                    self.definition(ssa, depth + 1, seen),
                    RenderCandidateSource::AliasDefinition,
                ),
                None => None,
            };
            let b1 = self.better_candidate(by_value, exact, g);
            let b2 = self.better_candidate(b1, meant, g);
            let b3 = self.better_candidate(b2, raw, g);
            let b4 = self.better_candidate(b3, origin, g);
            candidate_expr(self.better_candidate(b4, alias, g))
        }
    }

    /// The best rendering of what a name is defined as, from the start. A name
    /// that leads back to itself is answered by what stands there in writing.
    pub open spec fn defined_as(&self, name: Seq<char>) -> Option<Expr> {
        if self.marked("definition:"@, name) {
            Some(self.cycle_fallback(name))
        } else {
            self.resolving("definition:"@, name).definition(name, 0, Seq::empty())
        }
    }

    /// The definition of a name or its prepared form, whichever reads better.
    pub open spec fn best_definition(&self, name: Seq<char>, context: VisibleExprContext) -> Option<Expr> {
        self.chosen(
            self.definition(name, 0, Seq::empty()),
            named_expr(self.ctx.facts.formatted_defs@, name),
            context,
        )
    }

    /// The definition of a name or its prepared form, from the start. A name that
    /// leads back to itself is answered by what stands there in writing.
    pub open spec fn best_known(&self, name: Seq<char>) -> Option<Expr> {
        if self.marked("visible:"@, name) {
            Some(self.cycle_fallback(name))
        } else {
            self.resolving("visible:"@, name).best_definition(name, VisibleExprContext::Generic)
        }
    }

    /// A pointer's base with its name replaced by a definition that looks like
    /// a pointer itself.
    pub open spec fn pointer_base(&self, e: Expr, depth: int) -> Expr
        decreases 5 - depth,
    {
        if depth > 4 {
            e
        } else {
            match e {
                Expr::Var(name) => match self.defined_as(name) {
                    Some(inner) => {
                        let base = self.pointer_base(inner, depth + 1);
                        if self.pointer_like(base) {
                            base
                        } else {
                            e
                        }
                    },
                    None => e,
                },
                Expr::Paren(inner) => paren(self.pointer_base(*inner, depth + 1)),
                Expr::Cast { ty, expr } => cast(ty, self.pointer_base(*expr, depth + 1)),
                _ => e,
            }
        }
    }

    /// How many definitions a chain can pass before it leads back to itself.
    pub open spec fn chain_bound(&self) -> nat {
        self.ctx.facts.value_ids@.len() + self.ctx.facts.definitions@.len() + self.ctx.facts.meanings@.len()
            + self.ctx.facts.forwarded@.len() + self.ctx.facts.var_aliases@.len()
    }

    /// Can a name without a definition be an index?
    pub open spec fn index_name(&self, name: Seq<char>) -> bool {
        let l = lower(name);
        let placeholder = l == "stack"@ || l == "saved_fp"@ || has_prefix(l, "stack_"@);
        !has_prefix(name, "const:"@) && !has_prefix(name, "ram:"@) && !placeholder && (self.slot_of(
            name,
        ) is None || has_prefix(l, "local_"@) || has_prefix(l, "arg"@))
    }

    /// Is an expression one to index with? Names are followed to their
    /// definitions, `fuel` of them at most.
    pub open spec fn index_like(&self, e: Expr, fuel: nat) -> bool
        decreases fuel, e,
    {
        match e {
            Expr::Var(name) => match self.defined_as(name) {
                Some(inner) => fuel > 0 && self.index_like(inner, (fuel - 1) as nat),
                None => self.index_name(name),
            },
            Expr::Unary { op, operand } => self.index_like(*operand, fuel),
            Expr::Binary { op, left, right } => self.index_like(*left, fuel) || self.index_like(
                *right,
                fuel,
            ),
            Expr::Paren(inner) => self.index_like(*inner, fuel),
            Expr::Cast { ty, expr } => self.index_like(*expr, fuel),
            _ => false,
        }
    }

    /// An index, where the expression is one.
    pub open spec fn plain_index(&self, e: Expr) -> Option<Expr> {
        if self.index_like(e, self.chain_bound()) {
            Some(e)
        } else {
            None
        }
    }

    /// The definition to look for an index in: the name's own, or that of the
    /// variable behind it.
    pub open spec fn index_definition(&self, name: Seq<char>) -> Option<Expr> {
        let g = VisibleExprContext::Generic;
        match self.defined_as(name) {
            Some(e) => Some(e),
            None => match self.best_known(name) {
                Some(e) => Some(e),
                None => match self.ssa_of(name) {
                    Some(ssa) => match self.defined_as(ssa) {
                        Some(e) => Some(e),
                        None => self.best_known(ssa),
                    },
                    None => None,
                },
            },
        }
    }

    /// An expression as an index: itself where it can be one, else the index
    /// that its definition holds.
    pub open spec fn index_of(&self, e: Expr, depth: int) -> Option<Expr>
        decreases 5 - depth,
    {
        if depth > 4 {
            self.plain_index(e)
        } else {
            match e {
                Expr::Var(name) => {
                    let own = !low_signal(name) && !self.transient(name) && !self.pointer_shaped(e)
                        && self.plain_index(e) is Some;
                    let found = match self.index_definition(name) {
                        Some(inner) => match self.index_of(inner, depth + 1) {
                            Some(index) => if self.pointer_shaped(index) {
                                None
                            } else {
                                Some(index)
                            },
                            None => None,
                        },
                        None => None,
                    };
                    if own {
                        Some(e)
                    } else if found is Some {
                        found
                    } else if self.defined_as(name) is Some || self.best_known(name) is Some || self.ssa_of(name) is Some {
                        None
                    } else if self.pointer_shaped(e) {
                        None
                    } else {
                        self.plain_index(e)
                    }
                },
                Expr::Paren(inner) => match self.index_of(*inner, depth + 1) {
                    Some(index) => Some(paren(index)),
                    None => None,
                },
                Expr::Cast { ty, expr } => match self.index_of(*expr, depth + 1) {
                    Some(index) => Some(cast(ty, index)),
                    None => None,
                },
                Expr::Unary { op, operand } => match self.index_of(*operand, depth + 1) {
                    Some(index) => Some(unary(op, index)),
                    None => None,
                },
                _ => self.plain_index(e),
            }
        }
    }

    /// Does an expression come out as zero? Names are followed to their
    /// written definitions, to a depth.
    pub open spec fn zero_valued(&self, e: Expr, depth: int) -> bool
        decreases MAX_SEMANTIC_RENDER_DEPTH + 1 - depth,
    {
        depth <= MAX_SEMANTIC_RENDER_DEPTH && match e {
            Expr::IntLit(v) => v == 0,
            Expr::UIntLit(v) => v == 0,
            Expr::Paren(inner) => self.zero_valued(*inner, depth + 1),
            Expr::Cast { ty, expr } => self.zero_valued(*expr, depth + 1),
            Expr::Binary { op, left, right } => op == BinaryOp::BitXor && *left == *right,
            Expr::Var(name) => {
                ||| self.raw_of(name) matches Some(def) && def
                    != Expr::Var(name) && self.zero_valued(def, depth + 1)
                ||| match self.ssa_of(name) {
                    Some(ssa) => ssa != name && match self.raw_of(ssa) {
                        Some(def) => self.zero_valued(def, depth + 1),
                        None => false,
                    },
                    None => false,
                }
            },
            _ => false,
        }
    }
}

impl<'a> Folder<'a> {
    /// A load or an element access, as the memory pass tells them.
    pub fn is_memory_shaped(&self, e: &CExpr) -> (r: bool)
        ensures
            r == self@.memory_shaped(e@),
    {
        expr_in_list(&self.ctx.answers.scalar_memory, e) || expr_in_list(
            &self.ctx.answers.structured_memory,
            e,
        )
    }

    fn is_telling_reference(&self, e: &CExpr) -> (r: bool)
        ensures
            r == self@.telling_reference(e@),
    {
        match e {
            CExpr::Var(name) => self.should_preserve_address_like_visible_name(name),
            CExpr::AddrOf(inner) => match text_of_var(inner) {
                Some(name) => !is_low_signal_visible_name(&name) && !self.is_transient_visible_name(
                    &name,
                ),
                None => false,
            },
            _ => false,
        }
    }

    fn render_definition(&self, raw: CExpr, depth: u32, visited: &Vec<String>) -> (r: CExpr)
        ensures
            r@ == self@.rendered_definition(raw@, depth as int, texts(visited@)),
        decreases self.left, 11int,
    {
        if self.is_telling_reference(&raw) {
            return raw;
        }
        let meaning = self.semanticize_visible_expr(&raw, depth, visited);
        if self.is_memory_shaped(&raw) && !self.is_memory_shaped(&meaning) {
            return raw;
        }
        if self.prefers_visible_expr(&raw, &meaning) {
            meaning
        } else {
            raw
        }
    }

    fn render_origin(&self, source: &str, depth: u32, visited: &Vec<String>) -> (r: Option<
        RenderCandidate,
    >)
        requires
            depth <= self.ctx.limits.simple_expr + 1,
        ensures
            forall|origin: Origin|
                origin.source == source@ ==> view_opt_candidate(r) == #[trigger] self@.rendered_origin(
                    Some(origin),
                    depth as int,
                    texts(visited@),
                ),
        decreases self.left, 12int, self.ctx.limits.simple_expr + 2 - depth, 4int,
    {
        let mut found: Option<CExpr> = None;
        if depth <= self.ctx.limits.simple_expr as u32 {
            found = self.lookup_definition_with_depth(source, depth, visited);
        }
        let e = match found {
            Some(e) => e,
            None => self.expr_for_ssa_fallback_name(source),
        };
        Some(RenderCandidate { expr: e, source: RenderCandidateSource::ForwardedValue })
    }

    /// What the number of a value gives.
    pub fn render_candidate_for_value_id_with_depth(
        &self,
        id: u32,
        depth: u32,
        visited: &Vec<String>,
    ) -> (r: Option<RenderCandidate>)
        ensures
            view_opt_candidate(r) == self@.value_candidate(id, depth as int, texts(visited@)),
        decreases self.left, 12int, self.ctx.limits.simple_expr + 2 - depth, 1int,
    {
        let defined = as_candidate(
            match find_number(&self.ctx.facts.value_definitions, id) {
                Some(e) => Some(e.dup()),
                None => None,
            },
            RenderCandidateSource::ValueDefinition,
        );
        let meant = as_candidate(
            match find_number(&self.ctx.facts.value_meanings, id) {
                Some(m) => self.rendered_value_meaning(m, depth, visited),
                None => None,
            },
            RenderCandidateSource::SemanticValue,
        );
        let best = self.choose_preferred_render_candidate(
            defined,
            meant,
            VisibleExprContext::Generic,
        );
        let origin = match find_number(&self.ctx.facts.value_origins, id) {
            Some(p) => if depth > self.ctx.limits.simple_expr as u32 {
                Some(
                    RenderCandidate {
                        expr: self.expr_for_ssa_fallback_name(&p.source),
                        source: RenderCandidateSource::ForwardedValue,
                    },
                )
            } else {
                let r = self.render_origin(&p.source, depth + 1, visited);
                assert(view_opt_candidate(r) == self@.rendered_origin(
                    Some(p@),
                    depth + 1,
                    texts(visited@),
                ));
                r
            },
            None => None,
        };
        self.choose_preferred_render_candidate(best, origin, VisibleExprContext::Generic)
    }

    /// The best rendering of what a name is defined as.
    pub fn lookup_definition_with_depth(
        &self,
        name: &str,
        depth: u32,
        visited: &Vec<String>,
    ) -> (r: Option<CExpr>)
        ensures
            view_opt(r) == self@.definition(name@, depth as int, texts(visited@)),
        decreases self.left, 12int, self.ctx.limits.simple_expr + 2 - depth, 3int,
    {
        let key = self.resolution_name_key("def", name);
        if depth > self.ctx.limits.simple_expr as u32 || has_name(visited, &key) {
            return None;
        }
        let progress = self.resolution_name_key("def-progress", name);
        if self.has_mark(&progress) {
            return self.direct_definition_expr(name);
        }
        let within = with_name(visited, &key);
        let more = with_name(self.marks, &progress);
        self.now_marking(&more).lookup_best_candidate(
            name,
            depth,
            &within,
        )
    }

    fn lookup_best_candidate(&self, name: &str, depth: u32, visited: &Vec<String>) -> (r: Option<CExpr>)
        requires
            depth <= self.ctx.limits.simple_expr,
        ensures
            view_opt(r) == self@.best_candidate(name@, depth as int, texts(visited@)),
        decreases self.left, 12int, self.ctx.limits.simple_expr + 2 - depth, 2int,
    {
        let g = VisibleExprContext::Generic;
        let by_value = match find(&self.ctx.facts.value_ids, name) {
            Some(id) => self.render_candidate_for_value_id_with_depth(*id, depth, visited),
            None => None,
        };
        let exact = as_candidate(
            self.direct_definition_expr(name),
            RenderCandidateSource::ExactNameDefinition,
        );
        let b1 = self.choose_preferred_render_candidate(by_value, exact, g);
        let meant = as_candidate(
            self.rendered_meaning(name, depth, visited),
            RenderCandidateSource::SemanticValue,
        );
        let b2 = self.choose_preferred_render_candidate(b1, meant, g);
        let raw = match self.lookup_definition_raw_with_depth(name, depth + 1, visited) {
            Some(raw) => Some(
                RenderCandidate {
                    expr: self.render_definition(raw, depth + 1, visited),
                    source: RenderCandidateSource::RawDefinition,
                },
            ),
            None => None,
        };
        let b3 = self.choose_preferred_render_candidate(b2, raw, g);
        let origin = match self.forwarded_value_for_name(name) {
            Some(p) => {
                let r = self.render_origin(&p.source, depth + 1, visited);
                assert(view_opt_candidate(r) == self@.rendered_origin(
                    Some(p@),
                    depth + 1,
                    texts(visited@),
                ));
                r
            },
            None => None,
        };
        let b4 = self.choose_preferred_render_candidate(b3, origin, g);
        let alias = match self.find_ssa_name_for_rendered_alias(name) {
            Some(ssa) => as_candidate(
                self.lookup_definition_with_depth(&ssa, depth + 1, visited),
                RenderCandidateSource::AliasDefinition,
            ),
            None => None,
        };
        match self.choose_preferred_render_candidate(b4, alias, g) {
            Some(candidate) => Some(candidate.expr),
            None => None,
        }
    }

    /// The best rendering of what a name is defined as, from the start.
    pub fn lookup_definition(&self, name: &str) -> (r: Option<CExpr>)
        ensures
            view_opt(r) == self@.defined_as(name@),
        decreases self.left, 14int,
    {
        if self.is_marked("definition:", name) {
            return Some(self.resolution_cycle_fallback(name));
        }
        let none: Vec<String> = Vec::new();
        assert(texts(none@) =~= Seq::<Seq<char>>::empty());
        let more = self.with_mark("definition:", name);
        self.now_marking(&more).lookup_definition_with_depth(
            name,
            0,
            &none,
        )
    }

    /// The definition of a name or its prepared form, whichever reads better.
    pub fn best_visible_definition_in_context(
        &self,
        name: &str,
        context: VisibleExprContext,
    ) -> (r: Option<CExpr>)
        ensures
            view_opt(r) == self@.best_definition(name@, context),
        decreases self.left, 13int,
    {
        let none: Vec<String> = Vec::new();
        assert(texts(none@) =~= Seq::<Seq<char>>::empty());
        self.choose_preferred_visible_expr_in_context(
            self.lookup_definition_with_depth(name, 0, &none),
            find_named_expr(&self.ctx.facts.formatted_defs, name),
            context,
        )
    }

    /// The definition of a name or its prepared form, whichever reads better.
    pub fn best_visible_definition(&self, name: &str) -> (r: Option<CExpr>)
        ensures
            view_opt(r) == self@.best_known(name@),
        decreases self.left, 14int,
    {
        if self.is_marked("visible:", name) {
            return Some(self.resolution_cycle_fallback(name));
        }
        let more = self.with_mark("visible:", name);
        self.now_marking(&more).best_visible_definition_in_context(
            name,
            VisibleExprContext::Generic,
        )
    }

    /// A pointer's base with its name replaced by a definition that looks like
    /// a pointer itself.
    pub fn normalize_pointer_base_expr(&self, e: &CExpr, depth: u32) -> (r: CExpr)
        ensures
            r@ == self@.pointer_base(e@, depth as int),
        decreases self.left, 15int, 5 - depth,
    {
        if depth > 4 {
            return e.dup();
        }
        match e {
            CExpr::Var(name) => match self.lookup_definition(name) {
                Some(inner) => {
                    let base = self.normalize_pointer_base_expr(&inner, depth + 1);
                    if self.looks_like_pointer(&base) {
                        base
                    } else {
                        e.dup()
                    }
                },
                None => e.dup(),
            },
            CExpr::Paren(inner) => CExpr::Paren(
                Box::new(self.normalize_pointer_base_expr(inner, depth + 1)),
            ),
            CExpr::Cast { ty, expr } => CExpr::cast(
                ty.dup(),
                self.normalize_pointer_base_expr(expr, depth + 1),
            ),
            _ => e.dup(),
        }
    }

    /// How many definitions a chain can pass before it leads back to itself.
    pub fn longest_chain(&self) -> (r: u128)
        ensures
            r == self@.chain_bound(),
            r <= 5 * 0xffff_ffff_ffff_ffff,
    {
        self.ctx.facts.value_ids.len() as u128 + self.ctx.facts.definitions.len() as u128
            + self.ctx.facts.meanings.len() as u128 + self.ctx.facts.forwarded.len() as u128
            + self.ctx.facts.var_aliases.len() as u128
    }

    fn is_index_name(&self, name: &str) -> (r: bool)
        ensures
            r == self@.index_name(name@),
        decreases self.left, 2int,
    {
        let l = to_lower(name);
        let placeholder = same(&l, "stack") || same(&l, "saved_fp") || starts_with(&l, "stack_");
        !starts_with(name, "const:") && !starts_with(name, "ram:") && !placeholder && (
        self.stack_slot_provenance_for_name(name).is_none() || starts_with(&l, "local_")
            || starts_with(&l, "arg"))
    }

    fn follows_to_index(&self, e: &CExpr, fuel: u128) -> (r: bool)
        ensures
            r == self@.index_like(e@, fuel as nat),
        decreases self.left, 15int, fuel, 0int, 0int, e,
    {
        match e {
            CExpr::Var(name) => match self.lookup_definition(name) {
                Some(inner) => fuel > 0 && self.follows_to_index(&inner, fuel - 1),
                None => self.is_index_name(name),
            },
            CExpr::Unary { op, operand } => self.follows_to_index(operand, fuel),
            CExpr::Binary { op, left, right } => self.follows_to_index(left, fuel)
                || self.follows_to_index(right, fuel),
            CExpr::Paren(inner) => self.follows_to_index(inner, fuel),
            CExpr::Cast { ty, expr } => self.follows_to_index(expr, fuel),
            _ => false,
        }
    }

    /// Is an expression one to index with? A name whose definition leads back
    /// to itself is none.
    pub fn is_semantic_index_expr(&self, e: &CExpr) -> (r: bool)
        ensures
            r == self@.index_like(e@, self@.chain_bound()),
        decreases self.left, 16int,
    {
        self.follows_to_index(e, self.longest_chain())
    }

    fn keep_if_index(&self, e: &CExpr) -> (r: Option<CExpr>)
        ensures
            view_opt(r) == self@.plain_index(e@),
        decreases self.left, 17int,
    {
        if self.is_semantic_index_expr(e) {
            Some(e.dup())
        } else {
            None
        }
    }

    fn find_index_definition(&self, name: &str) -> (r: Option<CExpr>)
        ensures
            view_opt(r) == self@.index_definition(name@),
        decreases self.left, 15int,
    {
        if let Some(e) = self.lookup_definition(name) {
            return Some(e);
        }
        if let Some(e) = self.best_visible_definition(name) {
            return Some(e);
        }
        match self.find_ssa_name_for_rendered_alias(name) {
            Some(ssa) => match self.lookup_definition(&ssa) {
                Some(e) => Some(e),
                None => self.best_visible_definition(&ssa),
            },
            None => None,
        }
    }

    /// An expression as an index.
    pub fn normalize_index_expr(&self, e: &CExpr, depth: u32) -> (r: Option<CExpr>)
        ensures
            view_opt(r) == self@.index_of(e@, depth as int),
        decreases self.left, 18int, 5 - depth,
    {
        if depth > 4 {
            return self.keep_if_index(e);
        }
        match e {
            CExpr::Var(name) => {
                if !is_low_signal_visible_name(name) && !self.is_transient_visible_name(name)
                    && !self.is_non_index_pointer_expr(e) && self.is_semantic_index_expr(e) {
                    return Some(e.dup());
                }
                if let Some(inner) = self.find_index_definition(name) {
                    if let Some(index) = self.normalize_index_expr(&inner, depth + 1) {
                        if !self.is_non_index_pointer_expr(&index) {
                            return Some(index);
                        }
                    }
                }
                if self.lookup_definition(name).is_some() || self.best_visible_definition(
                    name,
                ).is_some() || self.find_ssa_name_for_rendered_alias(name).is_some() {
                    return None;
                }
                if self.is_non_index_pointer_expr(e) {
                    None
                } else {
                    self.keep_if_index(e)
                }
            },
            CExpr::Paren(inner) => match self.normalize_index_expr(inner, depth + 1) {
                Some(index) => Some(CExpr::Paren(Box::new(index))),
                None => None,
            },
            CExpr::Cast { ty, expr } => match self.normalize_index_expr(expr, depth + 1) {
                Some(index) => Some(CExpr::cast(ty.dup(), index)),
                None => None,
            },
            CExpr::Unary { op, operand } => match self.normalize_index_expr(operand, depth + 1) {
                Some(index) => Some(CExpr::unary(*op, index)),
                None => None,
            },
            _ => self.keep_if_index(e),
        }
    }

    /// Does an expression come out as zero?
    pub fn expr_resolves_to_visible_zero(&self, e: &CExpr, depth: u32) -> (r: bool)
        ensures
            r == self@.zero_valued(e@, depth as int),
        decreases self.left, 15int, MAX_SEMANTIC_RENDER_DEPTH + 1 - depth,
    {
        if depth > MAX_SEMANTIC_RENDER_DEPTH {
            return false;
        }
        match e {
            CExpr::IntLit(v) => *v == 0,
            CExpr::UIntLit(v) => *v == 0,
            CExpr::Paren(inner) => self.expr_resolves_to_visible_zero(inner, depth + 1),
            CExpr::Cast { ty, expr } => self.expr_resolves_to_visible_zero(expr, depth + 1),
            CExpr::Binary { op, left, right } => *op == BinaryOp::BitXor && left.same(right),
            CExpr::Var(name) => {
                if let Some(def) = self.lookup_definition_raw(name) {
                    if !def.is_var(name) && self.expr_resolves_to_visible_zero(&def, depth + 1) {
                        return true;
                    }
                }
                if let Some(ssa) = self.find_ssa_name_for_rendered_alias(name) {
                    if !same(&ssa, name) {
                        if let Some(def) = self.lookup_definition_raw(&ssa) {
                            if self.expr_resolves_to_visible_zero(&def, depth + 1) {
                                return true;
                            }
                        }
                    }
                }
                false
            },
            _ => false,
        }
    }
}

} // verus!
