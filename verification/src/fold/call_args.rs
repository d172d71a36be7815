//! Arguments of calls: which of several renderings is passed.

use crate::ast::expr::{
    kid_is_smaller, kids, view_opt, views, with_kids, CExpr, Expr,
};
use crate::fold::address::first;
use crate::fold::context::MAX_SEMANTIC_RENDER_DEPTH;
use crate::fold::definitions::{has_name, with_name};
use crate::fold::imported::SettledList;
use crate::fold::levels::{Folder, Found, Reading, Settled};
use crate::fold::names::{const_value, parse_const_value};
use crate::fold::ownership::copy_texts;
use crate::fold::quality::VisibleExprContext;
use crate::fold::shape::{
    arg_has_call, arg_has_low_quality, arg_has_placeholder, call_arg_contains_call,
    call_arg_contains_low_quality_name, call_arg_contains_stack_placeholder, constish,
    is_direct_constish_visible_expr,
};
use crate::text::{join, same, same_ignoring_case, same_lower, texts};
use vstd::prelude::*;

verus! {

broadcast use kid_is_smaller;

/// A whole-number literal.
pub open spec fn int_literal(e: Expr) -> bool {
    e is IntLit || e is UIntLit
}

fn is_int_literal(e: &CExpr) -> (r: bool)
    ensures
        r == int_literal(e@),
{
    matches!(e, CExpr::IntLit(_) | CExpr::UIntLit(_))
}

/// A variable of that name, up to case.
pub open spec fn is_name(e: Expr, name: Seq<char>) -> bool {
    e matches Expr::Var(own) && same_ignoring_case(own, name)
}

/// A variable of that name, up to case.
pub fn is_named(e: &CExpr, name: &str) -> (r: bool)
    ensures
        r == is_name(e@, name@),
{
    match e {
        CExpr::Var(own) => same_lower(own, name),
        _ => false,
    }
}

/// A number as a literal: signed where it fits 31 bits.
pub open spec fn number_literal(v: u64) -> Expr {
    if v > 0x7fff_ffff {
        Expr::UIntLit(v)
    } else {
        Expr::IntLit(v as i64)
    }
}

fn write_number(v: u64) -> (r: CExpr)
    ensures
        r@ == number_literal(v),
{
    if v > 0x7fff_ffff {
        CExpr::UIntLit(v)
    } else {
        CExpr::IntLit(v as i64)
    }
}

impl Reading {
    /// How many names a chain of definitions and aliases can pass before it
    /// leads back to itself.
    pub open spec fn name_bound(&self) -> nat {
        self.chain_bound() + self.ctx.facts.var_aliases@.len() + self.ctx.facts.formatted_defs@.len()
    }

    /// The definition through which a literal is looked for.
    pub open spec fn literal_definition(&self, name: Seq<char>) -> Option<Expr> {
        first(
            self.raw_of(name),
            self.best_known(name),
        )
    }

    /// The object that the first resolvable variable of a list stands for.
    pub open spec fn literal_of_list(&self, list: Seq<Seq<char>>, i: int, fuel: nat) -> Option<Expr>
        decreases fuel, list.len() - i + 1,
    {
        if i < 0 || i >= list.len() {
            None
        } else {
            let here = match self.literal_definition(list[i]) {
                Some(def) => self.literal_object(def, fuel),
                None => None,
            };
            first(here, self.literal_of_list(list, i + 1, fuel))
        }
    }

    /// The object that a definition stands for, where it is not the name itself.
    pub open spec fn literal_of_definition(&self, def: Option<Expr>, e: Expr, fuel: nat) -> Option<Expr>
        decreases fuel, 1int,
    {
        match def {
            Some(def) => if def != e {
                self.literal_object(def, fuel)
            } else {
                None
            },
            None => None,
        }
    }

    /// The function, string or symbol that an expression stands for. Names are
    /// followed, `fuel` of them at most.
    pub open spec fn literal_object(&self, e: Expr, fuel: nat) -> Option<Expr>
        decreases fuel, 0int,
    {
        let by_name = match e {
            Expr::Var(name) => if fuel == 0 {
                None
            } else {
                let less = (fuel - 1) as nat;
                let by_alias = match self.ssa_of(name) {
                    Some(ssa) => if ssa != name {
                        self.literal_of_definition(self.literal_definition(ssa), e, less)
                    } else {
                        None
                    },
                    None => None,
                };
                first(
                    self.literal_of_list(self.aliased(name), 0, less),
                    first(
                        by_alias,
                        self.literal_of_definition(self.literal_definition(name), e, less),
                    ),
                )
            },
            _ => None,
        };
        let by_number = match self.number(e, 0, Seq::empty()) {
            Some(addr) => self.object_at(addr),
            None => None,
        };
        let by_digits = match self.number_by_hex_digits(e, 0) {
            Some(addr) => self.object_at(addr),
            None => None,
        };
        first(by_name, first(by_number, by_digits))
    }

    /// The function, string or symbol that an expression stands for.
    pub open spec fn literal_for(&self, e: Expr) -> Option<Expr> {
        self.literal_object(e, self.name_bound())
    }

    /// Of two arguments of an imported function, the one to pass, where the
    /// shape of the two decides at once.
    pub open spec fn arg_by_shape(&self, a: Expr, b: Expr) -> Option<Expr> {
        let a_known = a matches Expr::Var(name) && self.ssa_of(name) is Some;
        let b_known = b matches Expr::Var(name) && self.ssa_of(name) is Some;
        let a_forced = a matches Expr::Var(name) && self.forced(name) && !is_name(b, name);
        let b_forced = b matches Expr::Var(name) && self.forced(name) && !is_name(a, name);
        if a_known && int_literal(b) {
            Some(a)
        } else if b_known && int_literal(a) {
            Some(b)
        } else if self.named_slot(a) && constish(b, 0) {
            Some(a)
        } else if self.named_slot(b) && constish(a, 0) {
            Some(b)
        } else if a_forced {
            Some(b)
        } else if b_forced {
            Some(a)
        } else if arg_has_placeholder(a, 0) != arg_has_placeholder(b, 0) {
            Some(
                if arg_has_placeholder(a, 0) {
                    b
                } else {
                    a
                },
            )
        } else if arg_has_low_quality(a, 0) != arg_has_low_quality(b, 0) {
            Some(
                if arg_has_low_quality(a, 0) {
                    b
                } else {
                    a
                },
            )
        } else if arg_has_call(a, 0) != arg_has_call(b, 0) {
            Some(
                if arg_has_call(a, 0) {
                    b
                } else {
                    a
                },
            )
        } else if a is StringLit != b is StringLit {
            Some(
                if a is StringLit {
                    a
                } else {
                    b
                },
            )
        } else {
            None
        }
    }

    /// The argument to pass. For an imported function the shape of the two
    /// decides first, then the objects that they stand for.
    pub open spec fn arg_chosen(
        &self,
        current: Option<Expr>,
        candidate: Option<Expr>,
        imported: bool,
        keep_input: bool,
    ) -> Option<Expr> {
        let g = VisibleExprContext::Generic;
        match (current, candidate) {
            (None, other) => other,
            (Some(a), None) => Some(a),
            (Some(a), Some(b)) => if !imported {
                self.chosen(current, candidate, g)
            } else if keep_input && self.kept_input(a) && b is Call {
                Some(a)
            } else if self.arg_by_shape(a, b) is Some {
                self.arg_by_shape(a, b)
            } else if self.literal_for(a) is Some || self.literal_for(b) is Some {
                self.chosen(self.literal_for(a), self.literal_for(b), g)
            } else {
                self.chosen(current, candidate, g)
            },
        }
    }

    /// The definition that an argument's name is expanded to.
    pub open spec fn expansion_source(&self, name: Seq<char>, depth: int, seen: Seq<Seq<char>>) -> Found {
        let written = self.chosen(
            self.raw_of(name),
            self.defined_as(name),
            VisibleExprContext::Generic,
        );
        let merged = self.asked_merged(name, depth, seen);
        if written is Some {
            Found { expr: written, followed: self.followed }
        } else if merged.expr is Some {
            merged
        } else {
            Found {
                expr: self.having(merged.followed).best_known(name),
                followed: merged.followed,
            }
        }
    }

    /// An argument with its names expanded to what they stand for. `seen` holds
    /// the keys of the expansions under way.
    pub open spec fn expanded(&self, e: Expr, depth: int, seen: Seq<Seq<char>>) -> Settled
        decreases MAX_SEMANTIC_RENDER_DEPTH + 1 - depth, 1int, 0int,
    {
        if depth > MAX_SEMANTIC_RENDER_DEPTH {
            Settled { expr: e, followed: self.followed }
        } else {
            match e {
                Expr::Var(name) => self.expanded_name(name, depth, seen),
                _ => {
                    let parts = self.expanded_upto(kids(e), kids(e).len() as int, depth + 1, seen);
                    Settled { expr: with_kids(e, parts.exprs), followed: parts.followed }
                },
            }
        }
    }

    /// The first `n` arguments of a list, expanded one after the other.
    pub open spec fn expanded_upto(&self, list: Seq<Expr>, n: int, depth: int, seen: Seq<Seq<char>>) -> SettledList
        decreases MAX_SEMANTIC_RENDER_DEPTH + 1 - depth, 2int, n,
    {
        if n <= 0 {
            SettledList { exprs: Seq::empty(), followed: self.followed }
        } else {
            let before = self.expanded_upto(list, n - 1, depth, seen);
            let s = self.having(before.followed).expanded(list[n - 1], depth, seen);
            SettledList { exprs: before.exprs.push(s.expr), followed: s.followed }
        }
    }

    /// A name, expanded: a constant to its number, another name to its meaning
    /// where that reads better, else to its definition.
    pub open spec fn expanded_name(&self, name: Seq<char>, depth: int, seen: Seq<Seq<char>>) -> Settled
        decreases MAX_SEMANTIC_RENDER_DEPTH + 1 - depth, 0int, 0int,
    {
        let e = Expr::Var(name);
        let meaning = self.name_meaning(name, depth + 1, Seq::empty());
        let meaning_key = "call-sem:"@ + name;
        let definition_key = "call-def:"@ + name;
        if const_value(name) is Some {
            Settled { expr: number_literal(const_value(name)->0), followed: self.followed }
        } else if depth > MAX_SEMANTIC_RENDER_DEPTH {
            Settled { expr: e, followed: self.followed }
        } else if meaning is Some && self.prefers(e, meaning->0, VisibleExprContext::Generic) {
            if seen.contains(meaning_key) {
                Settled { expr: meaning->0, followed: self.followed }
            } else {
                self.expanded(meaning->0, depth + 1, seen.push(meaning_key))
            }
        } else {
            let source = self.expansion_source(name, depth + 1, seen);
            match source.expr {
                Some(def) => if def != e && !seen.contains(definition_key) {
                    self.having(source.followed).expanded(
                        def,
                        depth + 1,
                        seen.push(definition_key),
                    )
                } else {
                    Settled { expr: e, followed: source.followed }
                },
                None => Settled { expr: e, followed: source.followed },
            }
        }
    }
}

impl<'a> Folder<'a> {
    fn longest_name_chain(&self) -> (r: u128)
        ensures
            r == self@.name_bound(),
    {
        self.longest_chain() + self.ctx.facts.var_aliases.len() as u128
            + self.ctx.facts.formatted_defs.len() as u128
    }

    fn find_literal_definition(&self, name: &str) -> (r: Option<CExpr>)
        ensures
            view_opt(r) == self@.literal_definition(name@),
        decreases self.left, 15int,
    {
        match self.lookup_definition_raw(name) {
            Some(e) => Some(e),
            None => self.best_visible_definition(name),
        }
    }

    fn resolve_list(&self, list: &Vec<String>, fuel: u128) -> (r: Option<CExpr>)
        ensures
            view_opt(r) == self@.literal_of_list(texts(list@), 0, fuel as nat),
        decreases self.left, 18int, fuel, 1int,
    {
        let mut i: usize = 0;
        while i < list.len()
            invariant
                i <= list@.len(),
                self@.literal_of_list(texts(list@), 0, fuel as nat) == self@.literal_of_list(
                    texts(list@),
                    i as int,
                    fuel as nat,
                ),
            decreases list@.len() - i,
        {
            assert(texts(list@)[i as int] == list@[i as int]@);
            if let Some(def) = self.find_literal_definition(&list[i]) {
                if let Some(found) = self.resolve_literalish(&def, fuel) {
                    return Some(found);
                }
            }
            i = i + 1;
        }
        None
    }

    fn resolve_definition(&self, def: Option<CExpr>, e: &CExpr, fuel: u128) -> (r: Option<CExpr>)
        ensures
            view_opt(r) == self@.literal_of_definition(view_opt(def), e@, fuel as nat),
        decreases self.left, 18int, fuel, 1int,
    {
        match def {
            Some(def) => if !def.same(e) {
                self.resolve_literalish(&def, fuel)
            } else {
                None
            },
            None => None,
        }
    }

    fn resolve_literalish(&self, e: &CExpr, fuel: u128) -> (r: Option<CExpr>)
        ensures
            view_opt(r) == self@.literal_object(e@, fuel as nat),
        decreases self.left, 18int, fuel, 0int,
    {
        if let CExpr::Var(name) = e {
            if fuel > 0 {
                let list = self.ssa_names_for_alias(name);
                if let Some(found) = self.resolve_list(&list, fuel - 1) {
                    return Some(found);
                }
                if let Some(ssa) = self.find_ssa_name_for_rendered_alias(name) {
                    if !same(&ssa, name) {
                        if let Some(found) = self.resolve_definition(
                            self.find_literal_definition(&ssa),
                            e,
                            fuel - 1,
                        ) {
                            return Some(found);
                        }
                    }
                }
                if let Some(found) = self.resolve_definition(
                    self.find_literal_definition(name),
                    e,
                    fuel - 1,
                ) {
                    return Some(found);
                }
            }
        }
        if let Some(addr) = self.evaluate_constish_call_arg_expr(e, 0) {
            if let Some(found) = self.literalish_call_arg_expr_for_addr(addr) {
                return Some(found);
            }
        }
        match self.evaluate_hex_digit_offset_call_arg_expr(e, 0) {
            Some(addr) => self.literalish_call_arg_expr_for_addr(addr),
            None => None,
        }
    }

    /// The function, string or symbol that an expression stands for. A name
    /// whose definition leads back to itself stands for none.
    pub fn resolve_literalish_call_arg_expr(&self, e: &CExpr) -> (r: Option<CExpr>)
        ensures
            view_opt(r) == self@.literal_for(e@),
        decreases self.left, 19int,
    {
        self.resolve_literalish(e, self.longest_name_chain())
    }

    /// The object that the variables listed under a shown name stand for.
    pub fn resolve_literalish_rendered_alias_expr(&self, name: &str) -> (r: Option<CExpr>)
        ensures
            view_opt(r) == self@.literal_of_list(self@.aliased(name@), 0, self@.name_bound()),
    {
        let list = self.ssa_names_for_alias(name);
        self.resolve_list(&list, self.longest_name_chain())
    }

    fn is_known_name(&self, e: &CExpr) -> (r: bool)
        ensures
            r == (e@ matches Expr::Var(name) && self@.ssa_of(name) is Some),
        decreases self.left, 1int,
    {
        match e {
            CExpr::Var(name) => self.find_ssa_name_for_rendered_alias(name).is_some(),
            _ => false,
        }
    }

    fn is_forced_against(&self, e: &CExpr, other: &CExpr) -> (r: bool)
        ensures
            r == (e@ matches Expr::Var(name) && self@.forced(name) && !is_name(other@, name)),
    {
        match e {
            CExpr::Var(name) => self.should_force_imported_call_resolution_name(name) && !is_named(
                other,
                name,
            ),
            _ => false,
        }
    }

    /// Whether the first of two arguments is to be passed, where their shape decides.
    fn first_by_shape(&self, a: &CExpr, b: &CExpr) -> (r: Option<bool>)
        ensures
            match r {
                Some(take_first) => self@.arg_by_shape(a@, b@) == Some(
                    if take_first {
                        a@
                    } else {
                        b@
                    },
                ),
                None => self@.arg_by_shape(a@, b@) is None,
            },
        decreases self.left, 2int,
    {
        if self.is_known_name(a) && is_int_literal(b) {
            return Some(true);
        }
        if self.is_known_name(b) && is_int_literal(a) {
            return Some(false);
        }
        if self.is_preservable_named_stack_slot_expr(a) && is_direct_constish_visible_expr(b, 0) {
            return Some(true);
        }
        if self.is_preservable_named_stack_slot_expr(b) && is_direct_constish_visible_expr(a, 0) {
            return Some(false);
        }
        if self.is_forced_against(a, b) {
            return Some(false);
        }
        if self.is_forced_against(b, a) {
            return Some(true);
        }
        let a_stacky = call_arg_contains_stack_placeholder(a, 0);
        if a_stacky != call_arg_contains_stack_placeholder(b, 0) {
            return Some(!a_stacky);
        }
        let a_low = call_arg_contains_low_quality_name(a, 0);
        if a_low != call_arg_contains_low_quality_name(b, 0) {
            return Some(!a_low);
        }
        let a_call = call_arg_contains_call(a, 0);
        if a_call != call_arg_contains_call(b, 0) {
            return Some(!a_call);
        }
        let a_text = matches!(a, CExpr::StringLit(_));
        if a_text != matches!(b, CExpr::StringLit(_)) {
            return Some(a_text);
        }
        None
    }

    /// The argument to pass, keeping a stable input where asked.
    pub fn choose_preferred_call_arg_expr_with_slot_policy(
        &self,
        current: Option<CExpr>,
        candidate: Option<CExpr>,
        imported: bool,
        preserve_stable_input_slot: bool,
    ) -> (r: Option<CExpr>)
        ensures
            view_opt(r) == self@.arg_chosen(
                view_opt(current),
                view_opt(candidate),
                imported,
                preserve_stable_input_slot,
            ),
        decreases self.left, 20int,
    {
        match (current, candidate) {
            (None, other) => other,
            (Some(a), None) => Some(a),
            (Some(a), Some(b)) => {
                if imported {
                    if preserve_stable_input_slot && self.is_preserved_imported_input_expr(&a)
                        && matches!(b, CExpr::Call { .. }) {
                        return Some(a);
                    }
                    if let Some(take_first) = self.first_by_shape(&a, &b) {
                        return if take_first {
                            Some(a)
                        } else {
                            Some(b)
                        };
                    }
                    let x = self.resolve_literalish_call_arg_expr(&a);
                    let y = self.resolve_literalish_call_arg_expr(&b);
                    if x.is_some() || y.is_some() {
                        return self.choose_preferred_visible_expr(x, y);
                    }
                }
                self.choose_preferred_visible_expr(Some(a), Some(b))
            },
        }
    }

    /// The argument to pass.
    pub fn choose_preferred_call_arg_expr(
        &self,
        current: Option<CExpr>,
        candidate: Option<CExpr>,
        imported: bool,
    ) -> (r: Option<CExpr>)
        ensures
            view_opt(r) == self@.arg_chosen(view_opt(current), view_opt(candidate), imported, false),
        decreases self.left, 21int,
    {
        self.choose_preferred_call_arg_expr_with_slot_policy(current, candidate, imported, false)
    }

    fn find_expansion_source(
        &self,
        name: &str,
        depth: u32,
        visited: &Vec<String>,
        followed: &mut Vec<String>,
    ) -> (r: Option<CExpr>)
        ensures
            (Found { expr: view_opt(r), followed: texts(final(followed)@) }) == self@.having(
                texts(old(followed)@),
            ).expansion_source(name@, depth as int, texts(visited@)),
        decreases self.left, 15int,
    {
        let at_first = copy_texts(followed);
        let here = self.now_having(&at_first);
        let written = here.choose_preferred_visible_expr(
            here.lookup_definition_raw(name),
            here.lookup_definition(name),
        );
        if written.is_some() {
            return written;
        }
        match self.rendered_merged(name, depth, visited, followed) {
            Some(e) => Some(e),
            None => {
                let now = copy_texts(followed);
                self.now_having(&now).best_visible_definition(name)
            },
        }
    }

    fn expand_name(&self, name: &str, depth: u32, visited: &Vec<String>, followed: &mut Vec<String>) -> (r:
        CExpr)
        requires
            depth <= MAX_SEMANTIC_RENDER_DEPTH,
        ensures
            (Settled { expr: r@, followed: texts(final(followed)@) }) == self@.having(
                texts(old(followed)@),
            ).expanded_name(name@, depth as int, texts(visited@)),
        decreases self.left, 26int, MAX_SEMANTIC_RENDER_DEPTH + 1 - depth, 0int,
    {
        if let Some(value) = parse_const_value(name) {
            return write_number(value);
        }
        let e = CExpr::var(name);
        let none: Vec<String> = Vec::new();
        assert(texts(none@) =~= Seq::<Seq<char>>::empty());
        let at_first = copy_texts(followed);
        let here = self.now_having(&at_first);
        if let Some(meaning) = here.render_semantic_value_by_name(name, depth + 1, &none) {
            if here.prefers_visible_expr(&e, &meaning) {
                let key = join("call-sem:", name);
                if has_name(visited, &key) {
                    return meaning;
                }
                let within = with_name(visited, &key);
                return self.expand_call_arg_expr(&meaning, depth + 1, &within, followed);
            }
        }
        if let Some(def) = self.find_expansion_source(name, depth + 1, visited, followed) {
            if !def.is_var(name) {
                let key = join("call-def:", name);
                if !has_name(visited, &key) {
                    let within = with_name(visited, &key);
                    return self.expand_call_arg_expr(&def, depth + 1, &within, followed);
                }
            }
        }
        e
    }

    /// An argument with its names expanded to what they stand for, and the names that
    /// merged versions were followed through.
    pub fn expand_call_arg_expr(
        &self,
        e: &CExpr,
        depth: u32,
        visited: &Vec<String>,
        followed: &mut Vec<String>,
    ) -> (r: CExpr)
        ensures
            (Settled { expr: r@, followed: texts(final(followed)@) }) == self@.having(
                texts(old(followed)@),
            ).expanded(e@, depth as int, texts(visited@)),
        decreases self.left, 26int, MAX_SEMANTIC_RENDER_DEPTH + 1 - depth, 1int,
    {
        if depth > MAX_SEMANTIC_RENDER_DEPTH {
            return e.dup();
        }
        if let CExpr::Var(name) = e {
            return self.expand_name(name, depth, visited, followed);
        }
        let ghost start = texts(followed@);
        let n = e.arity();
        let mut parts: Vec<CExpr> = Vec::new();
        let mut i: u128 = 0;
        assert(views(parts@) =~= Seq::<Expr>::empty());
        while i < n
            invariant
                i <= n == kids(e@).len(),
                depth <= MAX_SEMANTIC_RENDER_DEPTH,
                parts@.len() == i,
                (SettledList { exprs: views(parts@), followed: texts(followed@) }) == self@.having(
                    start,
                ).expanded_upto(kids(e@), i as int, depth + 1, texts(visited@)),
            decreases n - i,
        {
            let ghost before = views(parts@);
            let part = self.expand_call_arg_expr(e.kid(i), depth + 1, visited, followed);
            let ghost added = part@;
            parts.push(part);
            assert(views(parts@) =~= before.push(added));
            i = i + 1;
        }
        e.rebuild(parts)
    }
}

/// An argument is passed whenever there is one, and for a function that is not
/// imported the choice is the plain one between readings.
pub proof fn some_argument_is_passed(
    ctx: &Reading,
    current: Option<Expr>,
    candidate: Option<Expr>,
    imported: bool,
    keep_input: bool,
)
    ensures
        ctx.arg_chosen(current, candidate, imported, keep_input) is Some <==> current is Some
            || candidate is Some,
        !imported ==> ctx.arg_chosen(current, candidate, imported, keep_input) == ctx.chosen(
            current,
            candidate,
            VisibleExprContext::Generic,
        ),
{
}

/// A chosen argument is one of the two on offer, or the object that one of the
/// two stands for.
pub proof fn passed_argument_is_on_offer(
    ctx: &Reading,
    a: Expr,
    b: Expr,
    imported: bool,
    keep_input: bool,
)
    ensures
        ({
            let chosen = ctx.arg_chosen(Some(a), Some(b), imported, keep_input)->0;
            chosen == a || chosen == b || ctx.literal_for(a) == Some(chosen) || ctx.literal_for(b)
                == Some(chosen)
        }),
{
}

} // verus!
