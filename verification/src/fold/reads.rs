//! Reading variables: which are inlined, which are dead, and how each is shown.

use crate::ast::expr::{kid_is_smaller, kids, view_opt, with_kids, CExpr, Expr};
use crate::ast::types::{CType, Type};
use crate::fold::address::first;
use crate::fold::context::{FoldingContext, LoadRendering, PredicateRhs, StoreRendering};
use crate::fold::levels::{reading, Folder, Reading};
use crate::fold::literal::{signed_type, type_from_size};
use crate::fold::names::{
    call_address, extract_call_address, is_generic_stack_placeholder_alias,
    is_low_signal_visible_name, low_signal, stack_placeholder,
};
use crate::fold::quality::VisibleExprContext;
use crate::fold::tables::{
    entry, expr_entry, expr_in_list, expr_listed, find, find_expr, find_named_expr,
    find_offset_name, named_expr, offset_name, rewritten, view_opt_text,
};
use crate::ssa::{SSAVar, Var};
use crate::text::{
    chars_of, copy_of, has_prefix, in_list, listed, rsplit_once, split_last, starts_with, trim,
    trimmed, unicode_lower,
};
use vstd::prelude::*;

verus! {

broadcast use kid_is_smaller;

/// Does a name spell a vector register: a `q` and a digit?
pub open spec fn vector_name(name: Seq<char>) -> bool {
    name.len() >= 2 && name[0] == 'q' && '0' <= name[1] <= '9'
}

fn is_vector_name(name: &str) -> (r: bool)
    ensures
        r == vector_name(name@),
{
    let cs = chars_of(name);
    cs.len() >= 2 && cs[0] == 'q' && '0' <= cs[1] && cs[1] <= '9'
}

/// How a load is written, from entry `i` on.
pub open spec fn load_from(t: Seq<LoadRendering>, dst: Var, addr: Var, ty: Type, i: int) -> Option<
    Expr,
>
    decreases t.len() - i,
{
    if i < 0 || i >= t.len() {
        None
    } else if t[i].dst@ == dst && t[i].addr@ == addr && t[i].ty@ == ty {
        Some(t[i].expr@)
    } else {
        load_from(t, dst, addr, ty, i + 1)
    }
}

fn find_load(t: &Vec<LoadRendering>, dst: &SSAVar, addr: &SSAVar, ty: &CType) -> (r: Option<CExpr>)
    ensures
        view_opt(r) == load_from(t@, dst@, addr@, ty@, 0),
{
    let mut i: usize = 0;
    while i < t.len()
        invariant
            i <= t@.len(),
            load_from(t@, dst@, addr@, ty@, 0) == load_from(t@, dst@, addr@, ty@, i as int),
        decreases t@.len() - i,
    {
        if t[i].dst.same(dst) && t[i].addr.same(addr) && t[i].ty.same(ty) {
            return Some(t[i].expr.dup());
        }
        i = i + 1;
    }
    None
}

/// How the target of a store is written, from entry `i` on.
pub open spec fn target_from(t: Seq<StoreRendering>, addr: Var, size: u32, ty: Type, i: int) -> Option<
    Expr,
>
    decreases t.len() - i,
{
    if i < 0 || i >= t.len() {
        None
    } else if t[i].addr@ == addr && t[i].size == size && t[i].ty@ == ty {
        Some(t[i].expr@)
    } else {
        target_from(t, addr, size, ty, i + 1)
    }
}

fn find_target(t: &Vec<StoreRendering>, addr: &SSAVar, size: u32, ty: &CType) -> (r: Option<CExpr>)
    ensures
        view_opt(r) == target_from(t@, addr@, size, ty@, 0),
{
    let mut i: usize = 0;
    while i < t.len()
        invariant
            i <= t@.len(),
            target_from(t@, addr@, size, ty@, 0) == target_from(t@, addr@, size, ty@, i as int),
        decreases t@.len() - i,
    {
        if t[i].addr.same(addr) && t[i].size == size && t[i].ty.same(ty) {
            return Some(t[i].expr.dup());
        }
        i = i + 1;
    }
    None
}

/// How the definition of a condition variable is written, from entry `i` on.
pub open spec fn predicate_from(t: Seq<PredicateRhs>, var: Seq<char>, rhs: Expr, i: int) -> Option<
    Expr,
>
    decreases t.len() - i,
{
    if i < 0 || i >= t.len() {
        None
    } else if t[i].var@ == var && t[i].rhs@ == rhs {
        Some(t[i].resolved@)
    } else {
        predicate_from(t, var, rhs, i + 1)
    }
}

impl Reading {
    /// How often a name is used.
    pub open spec fn uses(&self, name: Seq<char>) -> usize {
        match entry(self.ctx.facts.use_counts@, name) {
            Some(n) => n,
            None => 0,
        }
    }

    /// Is a name defined as a small expression?
    pub open spec fn small(&self, name: Seq<char>) -> bool {
        match named_expr(self.ctx.facts.definitions@, name) {
            Some(e) => self.simple(e, 0),
            None => false,
        }
    }

    /// May a condition variable be inlined?
    pub open spec fn inlinable_condition(&self, name: Seq<char>) -> bool {
        listed(self.ctx.facts.flag_only_values@, name) || listed(
            self.ctx.arch.cpu_flags@,
            unicode_lower(name),
        ) || self.small(name)
    }

    /// Does a name hold the result of a call that another name owns?
    pub open spec fn owned_elsewhere(&self, name: Seq<char>) -> bool {
        listed(self.ctx.facts.direct_call_results@, name) && match self.source_of(name) {
            Some(site) => self.owner_name(site) is Some,
            None => false,
        }
    }

    /// Is a register version inlined? The return register stays in blocks that
    /// return, stack registers always stay, caller-saved ones always go; others
    /// go where they are used once or are small.
    pub open spec fn inlines_register(&self, name: Seq<char>) -> bool {
        match split_last(name, '_') {
            Some(parts) => {
                let base = unicode_lower(parts.0);
                if listed(self.ctx.arch.return_regs@, base) && self.in_return_block() {
                    false
                } else if listed(self.ctx.arch.stack_bases@, base) {
                    false
                } else {
                    listed(self.ctx.arch.caller_saved_regs@, base) || self.uses(name) == 1
                        || self.small(name)
                }
            },
            None => false,
        }
    }

    /// Is the definition of a name inlined where it is used?
    pub open spec fn inlines(&self, name: Seq<char>) -> bool {
        let n = self.uses(name);
        if n == 0 || n > 3 {
            false
        } else if self.owned_elsewhere(name) || listed(self.ctx.facts.pinned@, name) {
            false
        } else if listed(self.ctx.facts.condition_vars@, name) && !self.inlinable_condition(name) {
            false
        } else if listed(self.ctx.facts.flag_only_values@, name) {
            true
        } else if n > 1 && !self.small(name) {
            false
        } else {
            has_prefix(name, "tmp:"@) || has_prefix(name, "const:"@) || self.inlines_register(name)
        }
    }

    /// Is a name defined as an idiom that zeroes it?
    pub open spec fn zeroed(&self, name: Seq<char>) -> bool {
        match named_expr(self.ctx.facts.definitions@, name) {
            Some(e) => expr_listed(self.ctx.answers.zeroing@, e),
            None => false,
        }
    }

    /// Is a variable dead? Flags and what feeds only them always are; other
    /// variables are where nothing uses them and they would mean nothing to a
    /// reader.
    pub open spec fn dead(&self, var: Var) -> bool {
        let key = var.display();
        let low = unicode_lower(var.name);
        ||| listed(self.ctx.arch.cpu_flags@, low)
        ||| listed(self.ctx.facts.flag_only_values@, key)
        ||| self.uses(key) == 0 && {
            ||| has_prefix(var.name, "tmp:"@)
            ||| has_prefix(var.name, "const:"@)
            ||| has_prefix(var.name, "reg:"@)
            ||| listed(self.ctx.arch.caller_saved_regs@, low)
            ||| vector_name(low)
            ||| listed(self.ctx.facts.consumed_by_call@, key)
            ||| listed(self.ctx.arch.stack_bases@, low)
            ||| self.zeroed(key)
        }
    }

    /// The load that produces a variable narrower than the address it is read
    /// from, where it is shown as memory.
    pub open spec fn narrow_load(&self, name: Seq<char>) -> Option<Expr> {
        match entry(self.ctx.facts.load_producers@, name) {
            Some(load) => {
                let (dst, addr) = load;
                if dst.size < addr.size {
                    match load_from(
                        self.ctx.answers.load_exprs@,
                        dst@,
                        addr@,
                        signed_type(dst.size),
                        0,
                    ) {
                        Some(e) => if self.memory_shaped(e) {
                            Some(e)
                        } else {
                            None
                        },
                        None => None,
                    }
                } else {
                    None
                }
            },
            None => None,
        }
    }

    /// The written definition of a name, where it means a memory access.
    pub open spec fn memory_definition(&self, name: Seq<char>) -> Option<Expr> {
        match self.raw_of(name) {
            Some(raw) => {
                let e = self.semantic(raw, 0, Seq::empty());
                if self.memory_shaped(e) {
                    Some(e)
                } else {
                    None
                }
            },
            None => None,
        }
    }

    /// The stack argument or named local that a name stands for.
    pub open spec fn slot_name(&self, name: Seq<char>) -> Option<Seq<char>> {
        let by_origin = match self.origin_slot(name) {
            Some(offset) => match offset_name(self.ctx.facts.stack_arg_aliases@, offset) {
                Some(alias) => if trimmed(alias).len() != 0 {
                    Some(alias)
                } else {
                    None
                },
                None => None,
            },
            None => None,
        };
        let by_slot = match self.slot_of(name) {
            Some(slot) => if slot.offset < 0 {
                match offset_name(self.ctx.answers.stack_names@, slot.offset) {
                    Some(local) => if !stack_placeholder(local) && !self.transient(local)
                        && !low_signal(local) {
                        Some(local)
                    } else {
                        None
                    },
                    None => None,
                }
            } else {
                None
            },
            None => None,
        };
        first(by_origin, by_slot)
    }

    /// The definition that is shown in place of a name that tells nothing.
    pub open spec fn definition_instead(&self, var: Var) -> Option<Expr> {
        let shown = self.shown(var);
        if low_signal(shown) || self.transient(shown) {
            match self.definition(var.display(), 0, Seq::empty()) {
                Some(e) => {
                    let e = rewritten(self.ctx.answers.stack_rewrites@, e);
                    if self.prefers(Expr::Var(shown), e, VisibleExprContext::Generic) {
                        Some(e)
                    } else {
                        None
                    }
                },
                None => None,
            }
        } else {
            None
        }
    }

    /// The meaning or the written memory access that is shown in place of a name.
    pub open spec fn meaning_instead(&self, var: Var) -> Option<Expr> {
        let memory = self.memory_definition(var.display());
        match self.name_meaning(var.display(), 0, Seq::empty()) {
            Some(e) => if memory is Some && !self.memory_shaped(e) {
                memory
            } else if self.prefers(Expr::Var(self.shown(var)), e, VisibleExprContext::Generic) {
                Some(e)
            } else {
                memory
            },
            None => memory,
        }
    }

    /// The object at the address that a variable names.
    pub open spec fn addressed_object(&self, var: Var) -> Option<Expr> {
        if has_prefix(var.name, "ram:"@) {
            match call_address(var.name) {
                Some(addr) => self.object_at(addr),
                None => None,
            }
        } else {
            None
        }
    }

    /// How a variable is shown where it is read.
    #[verifier::opaque]
    pub open spec fn expr_of(&self, var: Var) -> Expr {
        let key = var.display();
        let owned = self.owner_for(key, true);
        if var.constant() {
            self.constant(var)
        } else if self.addressed_object(var) is Some {
            self.addressed_object(var)->0
        } else if self.narrow_load(key) is Some {
            self.narrow_load(key)->0
        } else if self.slot_name(key) is Some {
            Expr::Var(self.slot_name(key)->0)
        } else if owned is Some {
            owned->0
        } else if self.definition_instead(var) is Some {
            self.definition_instead(var)->0
        } else if self.meaning_instead(var) is Some {
            self.meaning_instead(var)->0
        } else if self.inlines(key) && named_expr(self.ctx.facts.definitions@, key) is Some {
            named_expr(self.ctx.facts.definitions@, key)->0
        } else {
            Expr::Var(self.shown(var))
        }
    }

    /// How a load is written: as the memory pass writes it, or as a typed
    /// dereference.
    pub open spec fn load_of(&self, dst: Var, addr: Var, ty: Type) -> Expr {
        match load_from(self.ctx.answers.load_exprs@, dst, addr, ty, 0) {
            Some(e) => e,
            None => self.typed_load(addr, self.expr_of(addr), ty),
        }
    }

    /// How the target of a store is written: as the memory pass writes it, or
    /// as a typed dereference.
    pub open spec fn target_of(&self, addr: Var, size: u32, ty: Type) -> Expr {
        match target_from(self.ctx.answers.store_targets@, addr, size, ty, 0) {
            Some(e) => e,
            None => self.typed_load(addr, self.expr_of(addr), ty),
        }
    }

    /// How the definition of a condition variable is written.
    pub open spec fn predicate_rhs(&self, var: Var, rhs: Expr) -> Expr {
        match predicate_from(self.ctx.answers.predicate_rhs@, var.display(), rhs, 0) {
            Some(e) => e,
            None => rhs,
        }
    }

    /// What a call's target is called.
    pub open spec fn call_target(&self, target: Var) -> Expr {
        match named_expr(self.ctx.answers.call_targets@, target.display()) {
            Some(e) => e,
            None => self.expr_of(target),
        }
    }

    /// How a variable is shown where it is returned.
    pub open spec fn return_of(&self, var: Var) -> Expr {
        match named_expr(self.ctx.answers.return_exprs@, var.display()) {
            Some(e) => e,
            None => self.expr_of(var),
        }
    }

    /// How a variable is shown where it is a condition.
    pub open spec fn condition_of(&self, var: Var) -> Expr {
        match named_expr(self.ctx.answers.condition_exprs@, var.display()) {
            Some(e) => e,
            None => self.expr_of(var),
        }
    }

    /// An expression with addresses of named stack locals replaced by the locals.
    pub open spec fn collapsed(&self, e: Expr) -> Expr
        decreases e, 1int,
    {
        if e is AddrOf && self.addressed_local(e) is Some {
            Expr::Var(self.addressed_local(e)->0)
        } else {
            with_kids(e, self.collapsed_kids(e))
        }
    }

    /// The children of an expression, collapsed.
    pub open spec fn collapsed_kids(&self, e: Expr) -> Seq<Expr>
        decreases e, 0int,
    {
        Seq::new(
            kids(e).len(),
            |i: int|
                if 0 <= i < kids(e).len() {
                    self.collapsed(kids(e)[i])
                } else {
                    arbitrary()
                },
        )
    }

    /// The named local whose address an expression takes.
    pub open spec fn addressed_local(&self, e: Expr) -> Option<Seq<char>> {
        match expr_entry(self.ctx.answers.addr_aliases@, e) {
            Some(alias) => if !stack_placeholder(alias@) {
                Some(alias@)
            } else {
                None
            },
            None => None,
        }
    }
}

impl<'a> Folder<'a> {
    /// How often a name is used.
    pub fn use_count(&self, name: &str) -> (r: usize)
        ensures
            r == self@.uses(name@),
    {
        match find(&self.ctx.facts.use_counts, name) {
            Some(n) => *n,
            None => 0,
        }
    }

    /// Is a name defined as a small expression?
    pub fn is_simple_inline_candidate(&self, name: &str) -> (r: bool)
        ensures
            r == self@.small(name@),
    {
        match self.direct_definition_expr(name) {
            Some(e) => self.is_simple_expr(&e, 0),
            None => false,
        }
    }

    /// May a condition variable be inlined?
    pub fn is_condition_inline_candidate(&self, name: &str) -> (r: bool)
        ensures
            r == self@.inlinable_condition(name@),
    {
        in_list(&self.ctx.facts.flag_only_values, name) || self.ctx.arch.is_cpu_flag(&name.to_lowercase())
            || self.is_simple_inline_candidate(name)
    }

    fn is_owned_elsewhere(&self, name: &str) -> (r: bool)
        ensures
            r == self@.owned_elsewhere(name@),
        decreases self.left, 11int,
    {
        in_list(&self.ctx.facts.direct_call_results, name) && match self.call_result_source_for_ssa_name(
            name,
        ) {
            Some(site) => self.stable_owned_call_result_name_for_source(site).is_some(),
            None => false,
        }
    }

    fn is_inlined_register(&self, name: &str) -> (r: bool)
        ensures
            r == self@.inlines_register(name@),
    {
        match rsplit_once(name, '_') {
            Some(parts) => {
                let base = parts.0.to_lowercase();
                if self.ctx.arch.is_return_register_name(&base) && self.is_current_return_block() {
                    return false;
                }
                if self.ctx.arch.is_stack_base_name(&base) {
                    return false;
                }
                self.ctx.arch.is_caller_saved_name(&base) || self.use_count(name) == 1
                    || self.is_simple_inline_candidate(name)
            },
            None => false,
        }
    }

    /// Is the definition of a name inlined where it is used?
    pub fn should_inline(&self, name: &str) -> (r: bool)
        ensures
            r == self@.inlines(name@),
        decreases self.left, 12int,
    {
        let n: usize = self.use_count(name);
        if n == 0 || n > 3 {
            return false;
        }
        if self.is_owned_elsewhere(name) || in_list(&self.ctx.facts.pinned, name) {
            return false;
        }
        if in_list(&self.ctx.facts.condition_vars, name) && !self.is_condition_inline_candidate(name) {
            return false;
        }
        if in_list(&self.ctx.facts.flag_only_values, name) {
            return true;
        }
        if n > 1 && !self.is_simple_inline_candidate(name) {
            return false;
        }
        starts_with(name, "tmp:") || starts_with(name, "const:") || self.is_inlined_register(name)
    }

    fn is_zeroed(&self, name: &str) -> (r: bool)
        ensures
            r == self@.zeroed(name@),
    {
        match self.direct_definition_expr(name) {
            Some(e) => expr_in_list(&self.ctx.answers.zeroing, &e),
            None => false,
        }
    }

    /// Is a variable dead?
    pub fn is_dead(&self, var: &SSAVar) -> (r: bool)
        ensures
            r == self@.dead(var@),
    {
        let key = var.display_name();
        let low = var.name.to_lowercase();
        if self.ctx.arch.is_cpu_flag(&low) || in_list(&self.ctx.facts.flag_only_values, &key) {
            return true;
        }
        if self.use_count(&key) > 0 {
            return false;
        }
        starts_with(&var.name, "tmp:") || starts_with(&var.name, "const:") || starts_with(
            &var.name,
            "reg:",
        ) || self.ctx.arch.is_caller_saved_name(&low) || is_vector_name(&low) || in_list(
            &self.ctx.facts.consumed_by_call,
            &key,
        ) || self.ctx.arch.is_stack_base_name(&low) || self.is_zeroed(&key)
    }

    fn find_narrow_load(&self, name: &str) -> (r: Option<CExpr>)
        ensures
            view_opt(r) == self@.narrow_load(name@),
    {
        match find(&self.ctx.facts.load_producers, name) {
            Some(load) => {
                if load.0.size < load.1.size {
                    let ty = type_from_size(load.0.size);
                    match find_load(&self.ctx.answers.load_exprs, &load.0, &load.1, &ty) {
                        Some(e) => if self.is_memory_shaped(&e) {
                            Some(e)
                        } else {
                            None
                        },
                        None => None,
                    }
                } else {
                    None
                }
            },
            None => None,
        }
    }

    fn find_memory_definition(&self, name: &str) -> (r: Option<CExpr>)
        ensures
            view_opt(r) == self@.memory_definition(name@),
        decreases self.left, 15int,
    {
        match self.lookup_definition_raw(name) {
            Some(raw) => {
                let e = self.semanticized(&raw);
                if self.is_memory_shaped(&e) {
                    Some(e)
                } else {
                    None
                }
            },
            None => None,
        }
    }

    /// What an expression means, from the start.
    pub fn semanticized(&self, e: &CExpr) -> (r: CExpr)
        ensures
            r@ == self@.semantic(e@, 0, Seq::empty()),
        decreases self.left, 11int,
    {
        let none: Vec<String> = Vec::new();
        assert(crate::text::texts(none@) =~= Seq::empty());
        self.semanticize_visible_expr(e, 0, &none)
    }

    /// What a name means, from the start.
    pub fn meaning_by_name(&self, name: &str) -> (r: Option<CExpr>)
        ensures
            view_opt(r) == self@.name_meaning(name@, 0, Seq::empty()),
        decreases self.left, 26int,
    {
        let none: Vec<String> = Vec::new();
        assert(crate::text::texts(none@) =~= Seq::empty());
        self.render_semantic_value_by_name(name, 0, &none)
    }

    /// What a name is defined as, from the start.
    pub fn definition_by_name(&self, name: &str) -> (r: Option<CExpr>)
        ensures
            view_opt(r) == self@.definition(name@, 0, Seq::empty()),
        decreases self.left, 13int,
    {
        let none: Vec<String> = Vec::new();
        assert(crate::text::texts(none@) =~= Seq::empty());
        self.lookup_definition_with_depth(name, 0, &none)
    }

    fn find_slot_name(&self, name: &str) -> (r: Option<String>)
        ensures
            view_opt_text(r) == self@.slot_name(name@),
        decreases self.left, 2int,
    {
        if let Some(offset) = self.forwarded_slot(name) {
            if let Some(alias) = find_offset_name(&self.ctx.facts.stack_arg_aliases, offset) {
                if trim(&alias).as_str().unicode_len() != 0 {
                    return Some(alias);
                }
            }
        }
        if let Some(slot) = self.stack_slot_provenance_for_name(name) {
            if slot.offset < 0 {
                if let Some(local) = self.resolve_stack_var(slot.offset) {
                    if !is_generic_stack_placeholder_alias(&local)
                        && !self.is_transient_visible_name(&local) && !is_low_signal_visible_name(
                        &local,
                    ) {
                        return Some(local);
                    }
                }
            }
        }
        None
    }

    fn find_definition_instead(&self, var: &SSAVar) -> (r: Option<CExpr>)
        ensures
            view_opt(r) == self@.definition_instead(var@),
        decreases self.left, 14int,
    {
        let shown = self.var_name(var);
        if !is_low_signal_visible_name(&shown) && !self.is_transient_visible_name(&shown) {
            return None;
        }
        match self.definition_by_name(&var.display_name()) {
            Some(e) => {
                let e = self.rewrite_stack_expr(&e);
                if self.prefers_visible_expr(&CExpr::Var(shown), &e) {
                    Some(e)
                } else {
                    None
                }
            },
            None => None,
        }
    }

    fn find_meaning_instead(&self, var: &SSAVar) -> (r: Option<CExpr>)
        ensures
            view_opt(r) == self@.meaning_instead(var@),
        decreases self.left, 27int,
    {
        let key = var.display_name();
        let memory = self.find_memory_definition(&key);
        match self.meaning_by_name(&key) {
            Some(e) => {
                if memory.is_some() && !self.is_memory_shaped(&e) {
                    return memory;
                }
                if self.prefers_visible_expr(&CExpr::Var(self.var_name(var)), &e) {
                    return Some(e);
                }
                memory
            },
            None => memory,
        }
    }

    fn find_addressed_object(&self, var: &SSAVar) -> (r: Option<CExpr>)
        ensures
            view_opt(r) == self@.addressed_object(var@),
    {
        if !starts_with(&var.name, "ram:") {
            return None;
        }
        match extract_call_address(&var.name) {
            Some(addr) => self.literalish_call_arg_expr_for_addr(addr),
            None => None,
        }
    }

    /// How a variable is shown where it is read.
    pub fn get_expr(&self, var: &SSAVar) -> (r: CExpr)
        ensures
            r@ == self@.expr_of(var@),
        decreases self.left, 28int,
    {
        proof {
            reveal(Reading::expr_of);
        }
        let key = var.display_name();
        if var.is_const() {
            return self.const_to_expr(var);
        }
        if let Some(e) = self.find_addressed_object(var) {
            return e;
        }
        if let Some(e) = self.find_narrow_load(&key) {
            return e;
        }
        if let Some(name) = self.find_slot_name(&key) {
            return CExpr::Var(name);
        }
        if let Some(e) = self.stable_owned_call_result_expr_for_name(&key, true) {
            return e;
        }
        if let Some(e) = self.find_definition_instead(var) {
            return e;
        }
        if let Some(e) = self.find_meaning_instead(var) {
            return e;
        }
        if self.should_inline(&key) {
            if let Some(e) = self.direct_definition_expr(&key) {
                return e;
            }
        }
        CExpr::Var(self.var_name(var))
    }

    /// How a load is written.
    pub fn render_canonical_load_expr(&self, dst: &SSAVar, addr: &SSAVar, ty: CType) -> (r: CExpr)
        ensures
            r@ == self@.load_of(dst@, addr@, ty@),
    {
        match find_load(&self.ctx.answers.load_exprs, dst, addr, &ty) {
            Some(e) => e,
            None => self.typed_deref_expr(addr, self.get_expr(addr), ty),
        }
    }

    /// How the target of a store is written.
    pub fn render_canonical_store_target_expr(&self, addr: &SSAVar, size: u32, ty: CType) -> (r: CExpr)
        ensures
            r@ == self@.target_of(addr@, size, ty@),
    {
        match find_target(&self.ctx.answers.store_targets, addr, size, &ty) {
            Some(e) => e,
            None => self.typed_deref_expr(addr, self.get_expr(addr), ty),
        }
    }

    /// How the definition of a condition variable is written.
    pub fn resolve_predicate_rhs_for_var(&self, var: &SSAVar, rhs: CExpr) -> (r: CExpr)
        ensures
            r@ == self@.predicate_rhs(var@, rhs@),
    {
        let t = &self.ctx.answers.predicate_rhs;
        let key = var.display_name();
        let mut i: usize = 0;
        while i < t.len()
            invariant
                i <= t@.len(),
                t@ == self.ctx.answers.predicate_rhs@,
                key@ == var@.display(),
                predicate_from(t@, key@, rhs@, 0) == predicate_from(t@, key@, rhs@, i as int),
            decreases t@.len() - i,
        {
            if crate::text::same(&t[i].var, &key) && t[i].rhs.same(&rhs) {
                return t[i].resolved.dup();
            }
            i = i + 1;
        }
        rhs
    }

    /// What a call's target is called.
    pub fn resolve_call_target(&self, target: &SSAVar) -> (r: CExpr)
        ensures
            r@ == self@.call_target(target@),
    {
        match find_named_expr(&self.ctx.answers.call_targets, &target.display_name()) {
            Some(e) => e,
            None => self.get_expr(target),
        }
    }

    /// How a variable is shown where it is returned.
    pub fn get_return_expr(&self, var: &SSAVar) -> (r: CExpr)
        ensures
            r@ == self@.return_of(var@),
    {
        match find_named_expr(&self.ctx.answers.return_exprs, &var.display_name()) {
            Some(e) => e,
            None => self.get_expr(var),
        }
    }

    /// How a variable is shown where it is a condition.
    pub fn get_condition_expr(&self, var: &SSAVar) -> (r: CExpr)
        ensures
            r@ == self@.condition_of(var@),
    {
        match find_named_expr(&self.ctx.answers.condition_exprs, &var.display_name()) {
            Some(e) => e,
            None => self.get_expr(var),
        }
    }

    fn find_addressed_local(&self, e: &CExpr) -> (r: Option<String>)
        ensures
            view_opt_text(r) == self@.addressed_local(e@),
    {
        match find_expr(&self.ctx.answers.addr_aliases, e) {
            Some(alias) => if !is_generic_stack_placeholder_alias(alias) {
                Some(copy_of(alias))
            } else {
                None
            },
            None => None,
        }
    }

    /// An expression with addresses of named stack locals replaced by the locals.
    pub fn collapse_scalar_stack_addr_artifact(&self, e: &CExpr) -> (r: CExpr)
        ensures
            r@ == self@.collapsed(e@),
        decreases e@,
    {
        if matches!(e, CExpr::AddrOf(_)) {
            if let Some(alias) = self.find_addressed_local(e) {
                return CExpr::Var(alias);
            }
        }
        let n: u128 = e.arity();
        let mut ks: Vec<CExpr> = Vec::new();
        let mut i: u128 = 0;
        while i < n
            invariant
                i <= n,
                n == kids(e@).len(),
                ks@.len() == i,
                forall|j: int|
                    0 <= j < i ==> (#[trigger] ks@[j])@ == self@.collapsed(kids(e@)[j]),
            decreases n - i,
        {
            ks.push(self.collapse_scalar_stack_addr_artifact(e.kid(i)));
            i = i + 1;
        }
        assert(crate::ast::expr::views(ks@) =~= self@.collapsed_kids(e@));
        e.rebuild(ks)
    }
}

impl FoldingContext {
    /// Is a variable dead?
    pub fn is_dead(&self, var: &SSAVar) -> (r: bool)
        ensures
            r == reading(*self).dead(var@),
    {
        let none: Vec<String> = Vec::new();
        self.folder(&none).is_dead(var)
    }

    /// How a variable is shown where it is read.
    pub fn get_expr(&self, var: &SSAVar) -> (r: CExpr)
        ensures
            r@ == reading(*self).expr_of(var@),
    {
        let none: Vec<String> = Vec::new();
        self.folder(&none).get_expr(var)
    }
}

} // verus!
