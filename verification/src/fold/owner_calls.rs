//! Calls behind the names that own their results.

use crate::ast::expr::{binary, call, kid_is_smaller, view_opt, views, BinaryOp, CExpr, Expr};
use crate::fold::address::first;
use crate::fold::call_args::is_name;
use crate::fold::levels::{Folder, Reading};
use crate::fold::owner::{entry_any_case, find_any_case};
use crate::fold::tables::{entry, expr_entry, find_expr, find_site, named_expr, site_entry, Site};
use crate::text::{in_list, listed, same_ignoring_case, same_lower};
use vstd::prelude::*;

verus! {

broadcast use kid_is_smaller;

impl Reading {
    /// The call at a place, written out from its target and arguments.
    pub open spec fn written_call(&self, source: Site) -> Option<Expr> {
        match self.ctx.inputs.prepared {
            Some(prepared) => match site_entry(prepared.call_sites@, source) {
                Some(parts) => Some(self.final_expr(call(parts.0@, views(parts.1@)), true).expr),
                None => None,
            },
            None => None,
        }
    }

    /// A call as it defines its result; nothing for what is no call.
    pub open spec fn defining_call(&self, e: Expr) -> Option<Expr> {
        if e is Call {
            Some(self.final_expr(e, true).expr)
        } else {
            None
        }
    }

    /// An expression, as it defines its result where it is a call.
    pub open spec fn defining_form(&self, e: Expr) -> Expr {
        match self.defining_call(e) {
            Some(c) => c,
            None => e,
        }
    }

    /// Do two expressions stand for the same call? The same target, under
    /// whatever name, and the same arguments.
    pub open spec fn same_call(&self, a: Expr, b: Expr) -> bool {
        let x = self.defining_form(a);
        let y = self.defining_form(b);
        match (x, y) {
            (Expr::Call { func: f, args: s }, Expr::Call { func: g, args: t }) => self.target_key(
                *f,
            ) == self.target_key(*g) && s == t,
            _ => x == y,
        }
    }

    /// What a name is defined as, however it is found.
    pub open spec fn any_definition(&self, name: Seq<char>) -> Option<Expr> {
        first(self.written_definition(name), self.defined_as(name))
    }

    /// What a name is written to be defined as.
    pub open spec fn written_definition(&self, name: Seq<char>) -> Option<Expr> {
        first(
            named_expr(self.ctx.facts.definitions@, name),
            self.raw_of(name),
        )
    }

    /// The first recorded call result that is this call, from entry `i` on.
    pub open spec fn recorded_call_from(&self, e: Expr, i: int) -> Option<Site>
        decreases self.ctx.facts.call_result_exprs@.len() - i,
    {
        let t = self.ctx.facts.call_result_exprs@;
        if i < 0 || i >= t.len() {
            None
        } else if self.same_call(t[i].1@, e) {
            Some(t[i].0)
        } else {
            self.recorded_call_from(e, i + 1)
        }
    }

    /// Is one of a list of aliases, from place `i` on, defined as this call?
    pub open spec fn alias_is_call_from(&self, aliases: Seq<String>, e: Expr, i: int) -> bool
        decreases aliases.len() - i,
    {
        if i < 0 || i >= aliases.len() {
            false
        } else if self.any_definition(aliases[i]@) matches Some(def) && self.same_call(def, e) {
            true
        } else {
            self.alias_is_call_from(aliases, e, i + 1)
        }
    }

    /// The first call one of whose aliases is defined as this call, from entry `i` on.
    pub open spec fn aliased_call_from(&self, e: Expr, i: int) -> Option<Site>
        decreases self.ctx.facts.call_result_aliases@.len() - i,
    {
        let t = self.ctx.facts.call_result_aliases@;
        if i < 0 || i >= t.len() {
            None
        } else if self.alias_is_call_from(t[i].1@, e, 0) {
            Some(t[i].0)
        } else {
            self.aliased_call_from(e, i + 1)
        }
    }

    /// The first call that is written out as this call, from entry `i` on.
    pub open spec fn written_call_from(&self, e: Expr, i: int) -> Option<Site>
        decreases self.ctx.facts.call_result_aliases@.len() - i,
    {
        let t = self.ctx.facts.call_result_aliases@;
        if i < 0 || i >= t.len() {
            None
        } else if self.written_call(t[i].0) matches Some(written) && self.same_call(written, e) {
            Some(t[i].0)
        } else {
            self.written_call_from(e, i + 1)
        }
    }

    /// The place of a call.
    pub open spec fn site_of_call(&self, e: Expr) -> Option<Site> {
        if e is Call {
            first(
                expr_entry(self.ctx.call_sources(), self.call_form(e)),
                first(
                    self.recorded_call_from(e, 0),
                    first(self.aliased_call_from(e, 0), self.written_call_from(e, 0)),
                ),
            )
        } else {
            None
        }
    }

    /// What the result of a call is shown as: what it was shown as since the last
    /// analysis, or the owner that its place has.
    pub open spec fn owner_of_call(&self, e: Expr) -> Option<Expr> {
        let kept = if e is Call {
            expr_entry(self.ctx.kept.owners@, self.call_form(e))
        } else {
            None
        };
        match kept {
            Some(owner) => view_opt(owner),
            None => self.placed_owner(e),
        }
    }

    /// The owner that the place of a call has.
    pub open spec fn placed_owner(&self, e: Expr) -> Option<Expr> {
        match self.site_of_call(e) {
            Some(site) => self.owner_expr(site),
            None => None,
        }
    }

    /// The first recorded owner that shares a stack slot with a name, from
    /// entry `i` on.
    pub open spec fn slot_sharing_owner_from(&self, name: Seq<char>, i: int) -> Option<Site>
        decreases self.ctx.owned_calls().len() - i,
    {
        let t = self.ctx.owned_calls();
        if i < 0 || i >= t.len() {
            None
        } else if t[i].1.owner matches Some(owner) && self.storage_offset(
            owner.visible_name@,
        ) is Some && self.storage_offset(owner.visible_name@) == self.storage_offset(name) {
            Some(t[i].1.source)
        } else {
            self.slot_sharing_owner_from(name, i + 1)
        }
    }

    /// The call whose result a shown name owns.
    pub open spec fn site_owned_by(&self, name: Seq<char>) -> Option<Site> {
        first(
            entry_any_case(self.ctx.owner_sources(), name),
            if self.storage_offset(name) is Some {
                self.slot_sharing_owner_from(name, 0)
            } else {
                None
            },
        )
    }

    /// The first of a list of aliases that is defined as a call, as it defines
    /// its result; from place `i` on. `deep` says how definitions are found.
    pub open spec fn defining_alias_from(&self, aliases: Seq<String>, deep: bool, i: int) -> Option<Expr>
        decreases aliases.len() - i,
    {
        if i < 0 || i >= aliases.len() {
            None
        } else {
            let def = if deep {
                self.any_definition(aliases[i]@)
            } else {
                self.written_definition(aliases[i]@)
            };
            let here = match def {
                Some(e) => self.defining_call(e),
                None => None,
            };
            first(here, self.defining_alias_from(aliases, deep, i + 1))
        }
    }

    /// The call that defines a result: as recorded, as one of its aliases is
    /// defined, or written out.
    pub open spec fn defining_call_at(&self, site: Site, deep: bool) -> Option<Expr> {
        let recorded = match site_entry(self.ctx.facts.call_result_exprs@, site) {
            Some(e) => Some(self.final_expr(e@, true).expr),
            None => None,
        };
        let by_alias = match site_entry(self.ctx.facts.call_result_aliases@, site) {
            Some(aliases) => self.defining_alias_from(aliases@, deep, 0),
            None => None,
        };
        first(recorded, first(by_alias, self.written_call(site)))
    }

    /// The call that defines what a shown name owns.
    pub open spec fn definition_of_owner(&self, name: Seq<char>) -> Option<Expr> {
        match self.site_owned_by(name) {
            Some(site) => self.defining_call_at(site, false),
            None => None,
        }
    }

    /// The call that defines an assignment's left side, recovered from the name
    /// or call on its right.
    pub open spec fn recovered_call(&self, lhs: Seq<char>, rhs: Expr) -> Option<Expr>
        decreases rhs,
    {
        match rhs {
            Expr::Paren(inner) => self.recovered_call(lhs, *inner),
            Expr::Cast { ty, expr } => self.recovered_call(lhs, *expr),
            Expr::Call { .. } => match self.owner_of_call(rhs) {
                Some(owner) => if is_name(owner, lhs) {
                    Some(self.final_expr(rhs, true).expr)
                } else {
                    None
                },
                None => None,
            },
            Expr::Var(name) => match self.any_source(name) {
                Some(site) => match self.owner_name(site) {
                    Some(owner) => if same_ignoring_case(owner, lhs) {
                        self.defining_call_at(site, true)
                    } else {
                        None
                    },
                    None => None,
                },
                None => None,
            },
            _ => None,
        }
    }

    /// The call that a comparison's operand comes from.
    pub open spec fn compared_call(&self, e: Expr) -> Option<Site>
        decreases e,
    {
        match e {
            Expr::Var(name) => self.any_source(name),
            Expr::Call { .. } => self.site_of_call(e),
            Expr::Paren(inner) => self.compared_call(*inner),
            Expr::Cast { ty, expr } => self.compared_call(*expr),
            Expr::Binary { op, left, right } => if op == BinaryOp::Add || op == BinaryOp::Sub {
                first(self.compared_call(*left), self.compared_call(*right))
            } else {
                None
            },
            _ => None,
        }
    }

    /// The call that the right side of a comparison holds.
    pub open spec fn call_within(&self, e: Expr) -> Option<Expr> {
        match e {
            Expr::Call { .. } => Some(e),
            Expr::Binary { op, left, right } => first(
                self.defining_call(*left),
                self.defining_call(*right),
            ),
            Expr::Paren(inner) => self.defining_call(*inner),
            Expr::Cast { ty, expr } => self.defining_call(*expr),
            _ => None,
        }
    }

    /// The assignment of a call to its owner that a comparison's temporary
    /// stands for.
    pub open spec fn owner_assignment(&self, lhs: Seq<char>, rhs: Expr) -> Option<Expr> {
        if !listed(self.ctx.answers.ephemeral_targets@, lhs) || !(listed(
            self.ctx.facts.flag_only_values@,
            lhs,
        ) || listed(self.ctx.facts.condition_vars@, lhs)) {
            None
        } else {
            match self.compared_call(rhs) {
                Some(site) => match self.owner_name(site) {
                    Some(owner) => if same_ignoring_case(owner, lhs) || listed(
                        self.ctx.answers.ephemeral_targets@,
                        owner,
                    ) {
                        None
                    } else {
                        match first(self.written_call(site), self.call_within(rhs)) {
                            Some(c) => Some(
                                binary(
                                    BinaryOp::Assign,
                                    Expr::Var(owner),
                                    self.within_arity(self.final_expr(c, true).expr),
                                ),
                            ),
                            None => None,
                        }
                    },
                    None => None,
                },
                None => None,
            }
        }
    }
}

impl<'a> Folder<'a> {
    /// The call at a place, written out from its target and arguments.
    pub fn synthesized_call_expr_for_source_call(&self, source: Site) -> (r: Option<CExpr>)
        ensures
            view_opt(r) == self@.written_call(source),
        decreases self.left, 32int,
    {
        match &self.ctx.inputs.prepared {
            Some(prepared) => match find_site(&prepared.call_sites, source) {
                Some(parts) => {
                    let e = CExpr::call(parts.0.dup(), crate::ast::expr::dup_all(&parts.1));
                    Some(self.settled_definition(&e))
                },
                None => None,
            },
            None => None,
        }
    }

    /// A call as it defines its result.
    pub fn normalize_call_expr_for_owner_match(&self, e: &CExpr) -> (r: Option<CExpr>)
        ensures
            view_opt(r) == self@.defining_call(e@),
        decreases self.left, 32int,
    {
        if matches!(e, CExpr::Call { .. }) {
            Some(self.settled_definition(e))
        } else {
            None
        }
    }

    fn to_defining_form(&self, e: &CExpr) -> (r: CExpr)
        ensures
            r@ == self@.defining_form(e@),
        decreases self.left, 33int,
    {
        match self.normalize_call_expr_for_owner_match(e) {
            Some(c) => c,
            None => e.dup(),
        }
    }

    /// Do two expressions stand for the same call?
    pub fn call_exprs_match_for_owner(&self, candidate: &CExpr, e: &CExpr) -> (r: bool)
        ensures
            r == self@.same_call(candidate@, e@),
        decreases self.left, 34int,
    {
        let x = self.to_defining_form(candidate);
        let y = self.to_defining_form(e);
        match (&x, &y) {
            (CExpr::Call { func: f, args: s }, CExpr::Call { func: g, args: t }) => {
                let targets = match (self.call_target_identity(f), self.call_target_identity(g)) {
                    (Some(p), Some(q)) => crate::text::same(&p, &q),
                    (None, None) => true,
                    _ => false,
                };
                targets && crate::ast::expr::same_all(s, t)
            },
            _ => x.same(&y),
        }
    }

    /// What a name is written to be defined as.
    pub fn find_written_definition(&self, name: &str) -> (r: Option<CExpr>)
        ensures
            view_opt(r) == self@.written_definition(name@),
        decreases self.left, 15int,
    {
        match self.direct_definition_expr(name) {
            Some(e) => Some(e),
            None => self.lookup_definition_raw(name),
        }
    }

    /// What a name is defined as, however it is found.
    pub fn find_any_definition(&self, name: &str) -> (r: Option<CExpr>)
        ensures
            view_opt(r) == self@.any_definition(name@),
        decreases self.left, 16int,
    {
        match self.find_written_definition(name) {
            Some(e) => Some(e),
            None => self.lookup_definition(name),
        }
    }

    fn find_recorded_call(&self, e: &CExpr) -> (r: Option<Site>)
        ensures
            r == self@.recorded_call_from(e@, 0),
        decreases self.left, 35int,
    {
        let t = &self.ctx.facts.call_result_exprs;
        let mut i: usize = 0;
        while i < t.len()
            invariant
                i <= t@.len(),
                t@ == self.ctx.facts.call_result_exprs@,
                self@.recorded_call_from(e@, 0) == self@.recorded_call_from(e@, i as int),
            decreases t@.len() - i,
        {
            if self.call_exprs_match_for_owner(&t[i].1, e) {
                return Some(t[i].0);
            }
            i = i + 1;
        }
        None
    }

    fn alias_defines_call(&self, aliases: &Vec<String>, e: &CExpr) -> (r: bool)
        ensures
            r == self@.alias_is_call_from(aliases@, e@, 0),
        decreases self.left, 35int,
    {
        let mut i: usize = 0;
        while i < aliases.len()
            invariant
                i <= aliases@.len(),
                self@.alias_is_call_from(aliases@, e@, 0) == self@.alias_is_call_from(
                    aliases@,
                    e@,
                    i as int,
                ),
            decreases aliases@.len() - i,
        {
            if let Some(def) = self.find_any_definition(&aliases[i]) {
                if self.call_exprs_match_for_owner(&def, e) {
                    return true;
                }
            }
            i = i + 1;
        }
        false
    }

    fn find_aliased_call(&self, e: &CExpr) -> (r: Option<Site>)
        ensures
            r == self@.aliased_call_from(e@, 0),
        decreases self.left, 36int,
    {
        let t = &self.ctx.facts.call_result_aliases;
        let mut i: usize = 0;
        while i < t.len()
            invariant
                i <= t@.len(),
                t@ == self.ctx.facts.call_result_aliases@,
                self@.aliased_call_from(e@, 0) == self@.aliased_call_from(e@, i as int),
            decreases t@.len() - i,
        {
            if self.alias_defines_call(&t[i].1, e) {
                return Some(t[i].0);
            }
            i = i + 1;
        }
        None
    }

    fn find_written_call(&self, e: &CExpr) -> (r: Option<Site>)
        ensures
            r == self@.written_call_from(e@, 0),
        decreases self.left, 35int,
    {
        let t = &self.ctx.facts.call_result_aliases;
        let mut i: usize = 0;
        while i < t.len()
            invariant
                i <= t@.len(),
                t@ == self.ctx.facts.call_result_aliases@,
                self@.written_call_from(e@, 0) == self@.written_call_from(e@, i as int),
            decreases t@.len() - i,
        {
            if let Some(written) = self.synthesized_call_expr_for_source_call(t[i].0) {
                if self.call_exprs_match_for_owner(&written, e) {
                    return Some(t[i].0);
                }
            }
            i = i + 1;
        }
        None
    }

    /// The place of a call.
    pub fn source_call_for_call_expr(&self, e: &CExpr) -> (r: Option<Site>)
        ensures
            r == self@.site_of_call(e@),
        decreases self.left, 37int,
    {
        if !matches!(e, CExpr::Call { .. }) {
            return None;
        }
        let key = self.call_expr_cache_key(e);
        if let Some(o) = &self.ctx.ownership {
            if let Some(site) = find_expr(&o.call_expr_sources, &key) {
                return Some(*site);
            }
        }
        if let Some(site) = self.find_recorded_call(e) {
            return Some(site);
        }
        if let Some(site) = self.find_aliased_call(e) {
            return Some(site);
        }
        self.find_written_call(e)
    }

    /// What the result of a call is shown as.
    pub fn stable_owned_call_result_expr_for_call_expr(&self, e: &CExpr) -> (r: Option<CExpr>)
        ensures
            view_opt(r) == self@.owner_of_call(e@),
        decreases self.left, 38int,
    {
        if let CExpr::Call { .. } = e {
            let key = self.call_expr_cache_key(e);
            if let Some(kept) = find_expr(&self.ctx.kept.owners, &key) {
                return match kept {
                    Some(owner) => Some(owner.dup()),
                    None => None,
                };
            }
        }
        match self.source_call_for_call_expr(e) {
            Some(site) => self.stable_owned_call_result_expr_for_source(site),
            None => None,
        }
    }

    /// The call whose result a shown name owns.
    pub fn source_call_for_visible_owner_name(&self, name: &str) -> (r: Option<Site>)
        ensures
            r == self@.site_owned_by(name@),
    {
        let o = match &self.ctx.ownership {
            Some(o) => o,
            None => {
                return None;
            },
        };
        if let Some(site) = find_any_case(&o.visible_owner_sources, name) {
            return Some(*site);
        }
        if self.stack_offset_for_visible_storage_name(name).is_none() {
            return None;
        }
        let t = &o.call_ownership;
        let mut i: usize = 0;
        while i < t.len()
            invariant
                i <= t@.len(),
                t@ == self.ctx.owned_calls(),
                entry_any_case(self.ctx.owner_sources(), name@) is None,
                self@.storage_offset(name@) is Some,
                self@.slot_sharing_owner_from(name@, 0) == self@.slot_sharing_owner_from(
                    name@,
                    i as int,
                ),
            decreases t@.len() - i,
        {
            if let Some(owner) = &t[i].1.owner {
                if self.visible_names_share_stack_slot(&owner.visible_name, name) {
                    return Some(t[i].1.source);
                }
            }
            i = i + 1;
        }
        None
    }

    fn find_defining_alias(&self, aliases: &Vec<String>, deep: bool) -> (r: Option<CExpr>)
        ensures
            view_opt(r) == self@.defining_alias_from(aliases@, deep, 0),
    {
        let mut i: usize = 0;
        while i < aliases.len()
            invariant
                i <= aliases@.len(),
                self@.defining_alias_from(aliases@, deep, 0) == self@.defining_alias_from(
                    aliases@,
                    deep,
                    i as int,
                ),
            decreases aliases@.len() - i,
        {
            let def = if deep {
                self.find_any_definition(&aliases[i])
            } else {
                self.find_written_definition(&aliases[i])
            };
            if let Some(e) = def {
                if let Some(found) = self.normalize_call_expr_for_owner_match(&e) {
                    return Some(found);
                }
            }
            i = i + 1;
        }
        None
    }

    /// The call that defines a result.
    pub fn defining_call_expr_at(&self, site: Site, deep: bool) -> (r: Option<CExpr>)
        ensures
            view_opt(r) == self@.defining_call_at(site, deep),
    {
        if let Some(e) = find_site(&self.ctx.facts.call_result_exprs, site) {
            return Some(self.settled_definition(e));
        }
        if let Some(aliases) = find_site(&self.ctx.facts.call_result_aliases, site) {
            if let Some(found) = self.find_defining_alias(aliases, deep) {
                return Some(found);
            }
        }
        self.synthesized_call_expr_for_source_call(site)
    }

    /// The call that defines what a shown name owns.
    pub fn recovered_owned_call_result_definition_rhs_for_visible_name(&self, name: &str) -> (r: Option<
        CExpr,
    >)
        ensures
            view_opt(r) == self@.definition_of_owner(name@),
    {
        match self.source_call_for_visible_owner_name(name) {
            Some(site) => self.defining_call_expr_at(site, false),
            None => None,
        }
    }

    /// The call that defines an assignment's left side.
    pub fn recovered_owned_call_result_definition_rhs(&self, lhs_name: &str, rhs: &CExpr) -> (r: Option<
        CExpr,
    >)
        ensures
            view_opt(r) == self@.recovered_call(lhs_name@, rhs@),
        decreases rhs,
    {
        match rhs {
            CExpr::Paren(inner) => self.recovered_owned_call_result_definition_rhs(
                lhs_name,
                inner,
            ),
            CExpr::Cast { ty, expr } => self.recovered_owned_call_result_definition_rhs(
                lhs_name,
                expr,
            ),
            CExpr::Call { .. } => match self.stable_owned_call_result_expr_for_call_expr(rhs) {
                Some(owner) => if crate::fold::call_args::is_named(&owner, lhs_name) {
                    Some(self.settled_definition(rhs))
                } else {
                    None
                },
                None => None,
            },
            CExpr::Var(name) => match self.any_call_source(name) {
                Some(site) => match self.stable_owned_call_result_name_for_source(site) {
                    Some(owner) => if same_lower(&owner, lhs_name) {
                        self.defining_call_expr_at(site, true)
                    } else {
                        None
                    },
                    None => None,
                },
                None => None,
            },
            _ => None,
        }
    }

    /// The call that a comparison's operand comes from.
    pub fn source_call_for_compare_temp_expr(&self, e: &CExpr) -> (r: Option<Site>)
        ensures
            r == self@.compared_call(e@),
        decreases e,
    {
        match e {
            CExpr::Var(name) => self.any_call_source(name),
            CExpr::Call { .. } => self.source_call_for_call_expr(e),
            CExpr::Paren(inner) => self.source_call_for_compare_temp_expr(inner),
            CExpr::Cast { ty, expr } => self.source_call_for_compare_temp_expr(expr),
            CExpr::Binary { op, left, right } => {
                if *op != BinaryOp::Add && *op != BinaryOp::Sub {
                    return None;
                }
                match self.source_call_for_compare_temp_expr(left) {
                    Some(site) => Some(site),
                    None => self.source_call_for_compare_temp_expr(right),
                }
            },
            _ => None,
        }
    }

    fn find_call_within(&self, e: &CExpr) -> (r: Option<CExpr>)
        ensures
            view_opt(r) == self@.call_within(e@),
    {
        match e {
            CExpr::Call { .. } => Some(e.dup()),
            CExpr::Binary { op, left, right } => match self.normalize_call_expr_for_owner_match(
                left,
            ) {
                Some(c) => Some(c),
                None => self.normalize_call_expr_for_owner_match(right),
            },
            CExpr::Paren(inner) => self.normalize_call_expr_for_owner_match(inner),
            CExpr::Cast { ty, expr } => self.normalize_call_expr_for_owner_match(expr),
            _ => None,
        }
    }

    /// The assignment of a call to its owner that a comparison's temporary
    /// stands for.
    pub fn recover_ephemeral_compare_temp_owner_assignment(&self, lhs_name: &str, rhs: &CExpr) -> (r: Option<
        CExpr,
    >)
        ensures
            view_opt(r) == self@.owner_assignment(lhs_name@, rhs@),
    {
        if !in_list(&self.ctx.answers.ephemeral_targets, lhs_name) {
            return None;
        }
        if !in_list(&self.ctx.facts.flag_only_values, lhs_name) && !in_list(
            &self.ctx.facts.condition_vars,
            lhs_name,
        ) {
            return None;
        }
        let site = match self.source_call_for_compare_temp_expr(rhs) {
            Some(site) => site,
            None => {
                return None;
            },
        };
        let owner = match self.stable_owned_call_result_name_for_source(site) {
            Some(owner) => owner,
            None => {
                return None;
            },
        };
        if same_lower(&owner, lhs_name) || in_list(&self.ctx.answers.ephemeral_targets, &owner) {
            return None;
        }
        let found = match self.synthesized_call_expr_for_source_call(site) {
            Some(c) => Some(c),
            None => self.find_call_within(rhs),
        };
        match found {
            Some(c) => {
                let settled = self.settled_definition(&c);
                let value = self.truncate_root_non_variadic_call_expr(settled);
                Some(CExpr::assign(CExpr::Var(owner), value))
            },
            None => None,
        }
    }
}

} // verus!
