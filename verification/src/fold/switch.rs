//! What a switch selects on, and what merged versions pass to a call.

use crate::ast::expr::{view_opt, CExpr, Expr};
use crate::fold::address::first;
use crate::fold::block::{block_entry_from, find_block};
use crate::fold::context::{FunctionSemanticSummary, MAX_SEMANTIC_RENDER_DEPTH};
use crate::fold::definitions::{has_name, with_name};
use crate::fold::levels::{Folder, Found, Reading};
use crate::fold::names::{callee_key, normalize_callee_name};
use crate::fold::ownership::copy_texts;
use crate::fold::quality::VisibleExprContext;
use crate::fold::tables::{find_named_expr, named_expr, rewrite, rewritten};
use crate::ssa::{var_views, view_opt_var, SSAVar, Var};
use crate::text::{same, texts};
use vstd::prelude::*;

verus! {

/// The twin of a switch's variable.
pub open spec fn selector_at(t: Seq<(u64, Option<SSAVar>)>, addr: u64) -> Option<Var> {
    match block_entry_from(t, addr, 0) {
        Some(v) => view_opt_var(v),
        None => None,
    }
}

/// The only entry of a table.
pub open spec fn only<V>(t: Seq<(u64, V)>) -> Option<V> {
    if t.len() == 1 {
        Some(t[0].1)
    } else {
        None
    }
}

/// The first summary with a callee's key, from place `i` on.
pub open spec fn summary_from(
    addresses: Seq<(String, u64)>,
    t: Seq<FunctionSemanticSummary>,
    key: Seq<char>,
    i: int,
) -> Option<FunctionSemanticSummary>
    decreases t.len() - i,
{
    if i < 0 || i >= t.len() {
        None
    } else if t[i].name is Some && callee_key(addresses, t[i].name->0@) == key {
        Some(t[i])
    } else {
        summary_from(addresses, t, key, i + 1)
    }
}

impl Reading {
    /// What is known of the function of that name, under whatever spelling.
    pub open spec fn summary_of(&self, name: Seq<char>) -> Option<FunctionSemanticSummary> {
        match self.ctx.inputs.summaries {
            Some(list) => summary_from(
                self.ctx.answers.addresses@,
                list@,
                callee_key(self.ctx.answers.addresses@, name),
                0,
            ),
            None => None,
        }
    }

    /// What a variable is called where it comes from.
    pub open spec fn origin_expr_of(&self, name: Seq<char>) -> Expr {
        match named_expr(self.ctx.answers.origin_exprs@, name) {
            Some(e) => e,
            None => self.fallback(name),
        }
    }

    /// A switch selector without wrappers, on the rewritten stack.
    pub open spec fn plain_selector(&self, e: Expr) -> Expr {
        self.bare_selector(rewritten(self.ctx.answers.stack_rewrites@, e))
    }

    /// What stands behind a selector's name that tells nothing.
    pub open spec fn selector_behind(&self, name: Seq<char>) -> Option<Expr> {
        let owned = match self.any_source(name) {
            Some(site) => self.owner_expr(site),
            None => None,
        };
        match first(
            owned,
            first(
                self.owner_for(name, true),
                self.best_known(name),
            ),
        ) {
            Some(e) => Some(self.plain_selector(e)),
            None => None,
        }
    }

    /// A switch selector as it is shown: the plain one, or what stands behind it
    /// where that is better.
    pub open spec fn refined_selector(&self, e: Expr) -> Expr {
        let plain = self.plain_selector(e);
        let other = match plain {
            Expr::Var(name) => if !self.telling(name) {
                self.selector_behind(name)
            } else {
                None
            },
            _ => None,
        };
        match self.chosen(Some(plain), other, VisibleExprContext::Generic) {
            Some(best) => best,
            None => plain,
        }
    }

    /// The better of a rendered selector and its meaning, as it is shown.
    pub open spec fn shown_selector(&self, rendered: Expr) -> Option<Expr> {
        match self.chosen(
            Some(rendered),
            Some(self.semantic(rendered, 0, Seq::empty())),
            VisibleExprContext::Generic,
        ) {
            Some(best) => Some(self.refined_selector(best)),
            None => None,
        }
    }

    /// A selector variable as it is shown: its canonical root, a constant as such.
    pub open spec fn selector_var(&self, v: Var) -> Option<Expr> {
        let root = match self.canonical_root(v) {
            Some(root) => root,
            None => v,
        };
        self.shown_selector(
            if root.constant() {
                self.constant(root)
            } else {
                rewritten(
                    self.ctx.answers.predicate_operands@,
                    self.origin_expr_of(root.display()),
                )
            },
        )
    }

    /// The selector expression that preparation found: of the block, or the only
    /// one there is.
    pub open spec fn prepared_selector(&self, addr: u64) -> Option<Expr> {
        match self.ctx.inputs.prepared {
            Some(prepared) => match first(
                block_entry_from(prepared.switch_selectors@, addr, 0),
                only(prepared.switch_selectors@),
            ) {
                Some(e) => Some(e@),
                None => None,
            },
            None => None,
        }
    }

    /// The selector variable that the block's operations give, where the
    /// function has one switch only.
    pub open spec fn unique_selector(&self) -> Option<Var> {
        match self.ctx.inputs.prepared {
            Some(prepared) => if prepared.switch_blocks@.len() == 1 {
                match block_entry_from(
                    prepared.inferred_switch_vars@,
                    prepared.switch_blocks@[0],
                    0,
                ) {
                    Some(v) => Some(v@),
                    None => None,
                }
            } else {
                None
            },
            None => None,
        }
    }

    /// The selector variable of a block's switch: as its predicate gives it, that
    /// of the only predicate, as the block's operations give it, or that of the
    /// only switch.
    pub open spec fn selector_variable(&self, addr: u64) -> Option<Var> {
        match self.ctx.inputs.prepared {
            Some(prepared) => {
                let alone = match only(prepared.switch_vars@) {
                    Some(v) => view_opt_var(v),
                    None => None,
                };
                let inferred = match block_entry_from(prepared.inferred_switch_vars@, addr, 0) {
                    Some(v) => Some(v@),
                    None => None,
                };
                first(
                    selector_at(prepared.switch_vars@, addr),
                    first(alone, first(inferred, self.unique_selector())),
                )
            },
            None => None,
        }
    }

    /// The selector whose meaning analysis found.
    pub open spec fn meant_selector(&self, addr: u64) -> Option<Expr> {
        match block_entry_from(self.ctx.facts.switch_selector_roots@, addr, 0) {
            Some(p) => self.shown_selector(
                match self.meaning_expr(p.0@, 0, Seq::empty()) {
                    Some(e) => e,
                    None => p.1@,
                },
            ),
            None => None,
        }
    }

    /// What the switch that ends a block selects on.
    pub open spec fn switch_expr(&self, addr: u64) -> Option<Expr> {
        match self.prepared_selector(addr) {
            Some(e) => Some(self.refined_selector(e)),
            None => match self.selector_variable(addr) {
                Some(v) => self.selector_var(v),
                None => self.meant_selector(addr),
            },
        }
    }

    /// The best of the first `n` merged versions, as an argument to an imported
    /// function.
    pub open spec fn merged_best_arg(&self, list: Seq<Var>, n: int, depth: int, seen: Seq<Seq<char>>) -> Found
        decreases n,
    {
        if n <= 0 {
            Found { expr: None, followed: self.followed }
        } else {
            let before = self.merged_best_arg(list, n - 1, depth, seen);
            let here = self.having(before.followed);
            match here.merged_candidate(list[n - 1], depth, seen) {
                Some(e) => {
                    let r = here.resolved(e, depth + 1, seen);
                    Found {
                        expr: self.having(r.followed).arg_chosen(before.expr, Some(r.expr), true, false),
                        followed: r.followed,
                    }
                },
                None => Found {
                    expr: here.arg_chosen(before.expr, None, true, false),
                    followed: before.followed,
                },
            }
        }
    }

    /// What the merged versions of a name are passed as to an imported function.
    pub open spec fn merged_arg(&self, name: Seq<char>, depth: int, seen: Seq<Seq<char>>) -> Found {
        let key = self.visit_key("phi-expr"@, name);
        if depth > MAX_SEMANTIC_RENDER_DEPTH || seen.contains(key) {
            Found { expr: None, followed: self.followed }
        } else {
            self.merged_best_arg(
                self.merged(name),
                self.merged(name).len() as int,
                depth,
                seen.push(key),
            )
        }
    }
}

impl<'a> Folder<'a> {
    /// What is known of the function of that name.
    pub fn interproc_summary_for_name(&self, name: &str) -> (r: Option<&FunctionSemanticSummary>)
        ensures
            match r {
                Some(s) => self@.summary_of(name@) == Some(*s),
                None => self@.summary_of(name@) is None,
            },
    {
        let list = match &self.ctx.inputs.summaries {
            Some(list) => list,
            None => {
                return None;
            },
        };
        let t = &self.ctx.answers.addresses;
        let key = normalize_callee_name(t, name);
        let mut i: usize = 0;
        while i < list.len()
            invariant
                i <= list@.len(),
                t@ == self.ctx.answers.addresses@,
                key@ == callee_key(t@, name@),
                self.ctx.inputs.summaries == Some(*list),
                summary_from(t@, list@, key@, 0) == summary_from(t@, list@, key@, i as int),
            decreases list@.len() - i,
        {
            if let Some(own) = &list[i].name {
                let other = normalize_callee_name(t, own);
                if same(&other, &key) {
                    return Some(&list[i]);
                }
            }
            i = i + 1;
        }
        None
    }

    /// What a variable is called where it comes from.
    pub fn origin_name_to_expr(&self, name: &str) -> (r: CExpr)
        ensures
            r@ == self@.origin_expr_of(name@),
    {
        match find_named_expr(&self.ctx.answers.origin_exprs, name) {
            Some(e) => e,
            None => self.expr_for_ssa_fallback_name(name),
        }
    }

    fn find_selector_behind(&self, name: &str) -> (r: Option<CExpr>)
        ensures
            view_opt(r) == self@.selector_behind(name@),
    {
        let owned = match self.any_call_source(name) {
            Some(site) => self.stable_owned_call_result_expr_for_source(site),
            None => None,
        };
        let found = match owned {
            Some(e) => Some(e),
            None => match self.stable_owned_call_result_expr_for_name(name, true) {
                Some(e) => Some(e),
                None => self.best_visible_definition(name),
            },
        };
        match found {
            Some(e) => Some(self.simplify_switch_selector_expr(self.rewrite_stack_expr(&e))),
            None => None,
        }
    }

    /// A switch selector as it is shown.
    pub fn refine_switch_selector_expr(&self, e: CExpr) -> (r: CExpr)
        ensures
            r@ == self@.refined_selector(e@),
    {
        let plain = self.simplify_switch_selector_expr(self.rewrite_stack_expr(&e));
        let other = match &plain {
            CExpr::Var(name) => if !self.is_telling_name(name) {
                self.find_selector_behind(name)
            } else {
                None
            },
            _ => None,
        };
        match self.choose_preferred_visible_expr(Some(plain.dup()), other) {
            Some(best) => best,
            None => plain,
        }
    }

    fn show_selector(&self, rendered: CExpr) -> (r: Option<CExpr>)
        ensures
            view_opt(r) == self@.shown_selector(rendered@),
    {
        let meant = self.semanticized(&rendered);
        match self.choose_preferred_visible_expr(Some(rendered), Some(meant)) {
            Some(best) => Some(self.refine_switch_selector_expr(best)),
            None => None,
        }
    }

    fn show_selector_var(&self, v: &SSAVar) -> (r: Option<CExpr>)
        ensures
            view_opt(r) == self@.selector_var(v@),
    {
        let root = match self.prepared_canonical_value_root(v) {
            Some(root) => root,
            None => v.dup(),
        };
        let rendered = if root.is_const() {
            self.const_to_expr(&root)
        } else {
            let origin = self.origin_name_to_expr(&root.display_name());
            rewrite(&self.ctx.answers.predicate_operands, &origin)
        };
        self.show_selector(rendered)
    }

    fn find_prepared_selector(&self, addr: u64) -> (r: Option<CExpr>)
        ensures
            view_opt(r) == self@.prepared_selector(addr),
    {
        match &self.ctx.inputs.prepared {
            Some(prepared) => {
                if let Some(e) = find_block(&prepared.switch_selectors, addr) {
                    return Some(e.dup());
                }
                if prepared.switch_selectors.len() == 1 {
                    return Some(prepared.switch_selectors[0].1.dup());
                }
                None
            },
            None => None,
        }
    }

    /// The selector variable of the only switch.
    pub fn infer_unique_switch_selector_var(&self) -> (r: Option<SSAVar>)
        ensures
            view_opt_var(r) == self@.unique_selector(),
    {
        match &self.ctx.inputs.prepared {
            Some(prepared) => {
                if prepared.switch_blocks.len() != 1 {
                    return None;
                }
                match find_block(&prepared.inferred_switch_vars, prepared.switch_blocks[0]) {
                    Some(v) => Some(v.dup()),
                    None => None,
                }
            },
            None => None,
        }
    }

    fn find_selector_variable(&self, addr: u64) -> (r: Option<SSAVar>)
        ensures
            view_opt_var(r) == self@.selector_variable(addr),
    {
        let prepared = match &self.ctx.inputs.prepared {
            Some(prepared) => prepared,
            None => {
                return None;
            },
        };
        if let Some(v) = find_block(&prepared.switch_vars, addr) {
            if let Some(v) = v {
                return Some(v.dup());
            }
        }
        if prepared.switch_vars.len() == 1 {
            if let Some(v) = &prepared.switch_vars[0].1 {
                return Some(v.dup());
            }
        }
        if let Some(v) = find_block(&prepared.inferred_switch_vars, addr) {
            return Some(v.dup());
        }
        self.infer_unique_switch_selector_var()
    }

    fn find_meant_selector(&self, addr: u64) -> (r: Option<CExpr>)
        ensures
            view_opt(r) == self@.meant_selector(addr),
    {
        match find_block(&self.ctx.facts.switch_selector_roots, addr) {
            Some(p) => {
                let none: Vec<String> = Vec::new();
                assert(texts(none@) =~= Seq::empty());
                let rendered = match self.render_semantic_value(&p.0, 0, &none) {
                    Some(e) => e,
                    None => p.1.dup(),
                };
                self.show_selector(rendered)
            },
            None => None,
        }
    }

    /// What the switch that ends a block selects on.
    pub fn resolve_switch_expr_for_block(&self, block_addr: u64) -> (r: Option<CExpr>)
        ensures
            view_opt(r) == self@.switch_expr(block_addr),
    {
        match self.find_prepared_selector(block_addr) {
            Some(e) => Some(self.refine_switch_selector_expr(e)),
            None => match self.find_selector_variable(block_addr) {
                Some(v) => self.show_selector_var(&v),
                None => self.find_meant_selector(block_addr),
            },
        }
    }

    /// What the merged versions of a name are passed as to an imported function, and
    /// the names that they were followed through.
    pub fn resolve_imported_arg_from_phi_sources(
        &self,
        name: &str,
        depth: u32,
        visited: &Vec<String>,
        followed: &mut Vec<String>,
    ) -> (r: Option<CExpr>)
        ensures
            (Found { expr: view_opt(r), followed: texts(final(followed)@) }) == self@.having(
                texts(old(followed)@),
            ).merged_arg(name@, depth as int, texts(visited@)),
        decreases self.left, 28int,
    {
        let ghost start = texts(followed@);
        let key = self.resolution_name_key("phi-expr", name);
        if depth > MAX_SEMANTIC_RENDER_DEPTH || has_name(visited, &key) {
            return None;
        }
        let within = with_name(visited, &key);
        let list = self.phi_sources_for_name(name);
        let mut best: Option<CExpr> = None;
        let mut i: usize = 0;
        while i < list.len()
            invariant
                i <= list@.len(),
                depth <= MAX_SEMANTIC_RENDER_DEPTH,
                (Found { expr: view_opt(best), followed: texts(followed@) }) == self@.having(
                    start,
                ).merged_best_arg(var_views(list@), i as int, depth as int, texts(within@)),
            decreases list@.len() - i,
        {
            assert(var_views(list@)[i as int] == list@[i as int]@);
            let now = copy_texts(followed);
            let candidate = match self.now_having(&now).render_merged_candidate(
                &list[i],
                depth,
                &within,
            ) {
                Some(e) => Some(self.resolve_imported_call_arg_expr(&e, depth + 1, &within, followed)),
                None => None,
            };
            let later = copy_texts(followed);
            best = self.now_having(&later).choose_preferred_call_arg_expr(best, candidate, true);
            i = i + 1;
        }
        assert(var_views(list@).len() == list@.len());
        best
    }
}

/// Does a table hold an entry for a block?
pub open spec fn lists_block<V>(t: Seq<(u64, V)>, addr: u64) -> bool {
    exists|i: int| 0 <= i < t.len() && (#[trigger] t[i]).0 == addr
}

proof fn lemma_block_entry<V>(t: Seq<(u64, V)>, addr: u64, i: int)
    requires
        0 <= i <= t.len(),
    ensures
        block_entry_from(t, addr, i) is Some <==> exists|j: int|
            i <= j < t.len() && (#[trigger] t[j]).0 == addr,
        block_entry_from(t, addr, i) matches Some(v) ==> exists|j: int|
            i <= j < t.len() && (#[trigger] t[j]).0 == addr && t[j].1 == v,
    decreases t.len() - i,
{
    if i < t.len() {
        lemma_block_entry(t, addr, i + 1);
        if t[i].0 == addr {
            assert(t[i].1 == block_entry_from(t, addr, i)->0);
        }
    }
}

proof fn lemma_block_entry_is_the_only_one<V>(t: Seq<(u64, V)>, addr: u64, i: int, k: int)
    requires
        0 <= i <= k < t.len(),
        t[k].0 == addr,
        forall|j: int| 0 <= j < t.len() && j != k ==> (#[trigger] t[j]).0 != addr,
    ensures
        block_entry_from(t, addr, i) == Some(t[k].1),
    decreases k - i,
{
    if i < k {
        lemma_block_entry_is_the_only_one(t, addr, i + 1, k);
    }
}

impl Reading {
    /// A switch selects on what preparation lists for its own block: with one entry for the
    /// block, at place `k`, the selector is that entry's, refined, whatever the entries for
    /// other blocks hold.
    pub proof fn a_switch_selects_on_its_own_entry(
        &self,
        addr: u64,
        prepared: crate::fold::context::PreparedFacts,
        k: int,
    )
        requires
            self.ctx.inputs.prepared == Some(prepared),
            0 <= k < prepared.switch_selectors@.len(),
            prepared.switch_selectors@[k].0 == addr,
            forall|j: int|
                0 <= j < prepared.switch_selectors@.len() && j != k ==> (
                #[trigger] prepared.switch_selectors@[j]).0 != addr,
        ensures
            self.switch_expr(addr) == Some(
                self.refined_selector(prepared.switch_selectors@[k].1@),
            ),
    {
        lemma_block_entry_is_the_only_one(prepared.switch_selectors@, addr, 0, k);
    }

    /// Where several selectors are listed and none for the block, none of them is used: what
    /// the switch selects on is what it selects on where none is listed at all.
    pub proof fn selectors_of_other_blocks_are_not_used(
        &self,
        addr: u64,
        prepared: crate::fold::context::PreparedFacts,
    )
        requires
            self.ctx.inputs.prepared == Some(prepared),
            !lists_block(prepared.switch_selectors@, addr),
            prepared.switch_selectors@.len() != 1,
        ensures
            self.switch_expr(addr) == match self.selector_variable(addr) {
                Some(v) => self.selector_var(v),
                None => self.meant_selector(addr),
            },
    {
        lemma_block_entry(prepared.switch_selectors@, addr, 0);
    }

    /// A function with one selector has it for every switch.
    pub proof fn an_only_selector_serves_every_block(
        &self,
        addr: u64,
        prepared: crate::fold::context::PreparedFacts,
    )
        requires
            self.ctx.inputs.prepared == Some(prepared),
            prepared.switch_selectors@.len() == 1,
        ensures
            self.switch_expr(addr) == Some(
                self.refined_selector(prepared.switch_selectors@[0].1@),
            ),
    {
        lemma_block_entry(prepared.switch_selectors@, addr, 0);
    }

    /// Without prepared facts a switch selects on what analysis found for its own block:
    /// with one root for the block, at place `k`, on that root, whatever the roots of other
    /// blocks are; with none, on nothing.
    pub proof fn a_switch_selects_on_its_own_root(&self, addr: u64, k: int)
        requires
            self.ctx.inputs.prepared is None,
            0 <= k < self.ctx.facts.switch_selector_roots@.len(),
            self.ctx.facts.switch_selector_roots@[k].0 == addr,
            forall|j: int|
                0 <= j < self.ctx.facts.switch_selector_roots@.len() && j != k ==> (
                #[trigger] self.ctx.facts.switch_selector_roots@[j]).0 != addr,
        ensures
            ({
                let root = self.ctx.facts.switch_selector_roots@[k].1;
                let meant = self.meaning_expr(root.0@, 0, Seq::empty());
                self.switch_expr(addr) == self.shown_selector(
                    if meant is Some {
                        meant->0
                    } else {
                        root.1@
                    },
                )
            }),
    {
        lemma_block_entry_is_the_only_one(self.ctx.facts.switch_selector_roots@, addr, 0, k);
    }

    /// A switch about which nothing is known has no selector.
    pub proof fn an_unknown_switch_has_no_selector(&self, addr: u64)
        requires
            self.ctx.inputs.prepared is None,
            !lists_block(self.ctx.facts.switch_selector_roots@, addr),
        ensures
            self.switch_expr(addr) is None,
    {
        lemma_block_entry(self.ctx.facts.switch_selector_roots@, addr, 0);
    }

    /// The selector variable of a switch is that of its own block's predicate where there is
    /// one, whatever the predicates of other blocks are.
    pub proof fn a_predicate_names_its_own_selector(
        &self,
        addr: u64,
        prepared: crate::fold::context::PreparedFacts,
        k: int,
        v: SSAVar,
    )
        requires
            self.ctx.inputs.prepared == Some(prepared),
            0 <= k < prepared.switch_vars@.len(),
            prepared.switch_vars@[k].0 == addr,
            prepared.switch_vars@[k].1 == Some(v),
            forall|j: int|
                0 <= j < prepared.switch_vars@.len() && j != k ==> (
                #[trigger] prepared.switch_vars@[j]).0 != addr,
        ensures
            self.selector_variable(addr) == Some(v@),
    {
        lemma_block_entry_is_the_only_one(prepared.switch_vars@, addr, 0, k);
    }
}

} // verus!
