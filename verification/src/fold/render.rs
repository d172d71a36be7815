//! Rendering values, addresses and accesses as C expressions.
//!
//! The rules call one another; `depth` counts how far down a call is and ends
//! the recursion. `seen` holds the keys of what is being rendered already.

use crate::ast::eval::eval;
use crate::ast::expr::{
    addr_of, binary, cast, deref, subscript, unary, view_opt, BinaryOp, CExpr, Expr, UnaryOp,
};
use crate::ast::types::{CType, Type};
use crate::fold::address::first;
use crate::fold::casts::{
    can_render_constant_offset_as_subscript, cast_expr_if_needed, cast_to, field_of, indexable, member_access_expr,
};
use crate::fold::context::MAX_SEMANTIC_RENDER_DEPTH;
use crate::fold::definitions::{has_name, with_name};
use crate::fold::facts::{
    slot_addr, val_of, view_meaning, view_opt_addr, Addr, Base, BaseRef, Meaning, NormalizedAddr, ScalarValue,
    SemanticValue, Val, ValueRef,
};
use crate::fold::levels::{Folder, Reading};
use crate::fold::literal::{
    checked_sum, fit, identity_simplify_binary, is_literal_zero_expr, simplified, zero_literal,
};
use crate::fold::ownership::copy_texts;
use crate::fold::quality::VisibleExprContext;
use crate::fold::shape::{
    addressable, expr_contains_synthetic_stack_placeholder, expr_supports_addr_of, has_synthetic_stack,
};
use crate::fold::tables::{
    entry, expr_entry, expr_in_list, expr_listed, find, find_expr, find_named_expr, find_number,
    find_offset, named_expr, named_name, number_entry, offset_entry, offset_name, view_opt_text,
};
use crate::fold::visible::{bits_to_bytes, bytes_for};
use crate::ssa::{var_views, view_opt_var, SSAVar, Var};
use crate::text::{
    join, lower, push_text, rsplit_once, same, split_last, texts, to_lower, unicode_lower,
    unicode_upper,
};
use vstd::prelude::*;

verus! {

/// The distance of a number from zero, in two's complement.
pub open spec fn distance(x: i64) -> i64 {
    if x < 0 {
        crate::fold::visible::negated(x)
    } else {
        x
    }
}

fn distance_of(x: i64) -> (r: i64)
    ensures
        r == distance(x),
{
    if x < 0 {
        crate::fold::visible::negate(x)
    } else {
        x
    }
}

/// An expression plus or minus an amount, by the sign of `amount`.
pub open spec fn stepped(e: Expr, amount: i64, by: Expr) -> Expr {
    binary(
        if amount < 0 {
            BinaryOp::Sub
        } else {
            BinaryOp::Add
        },
        e,
        by,
    )
}

/// A base plus a scaled index and an offset, as one expression.
pub open spec fn address_text(base: Expr, index: Option<Expr>, scale: i64, offset: i64) -> Expr {
    let with_index = match index {
        Some(index) => stepped(
            base,
            scale,
            if -1 <= scale <= 1 {
                index
            } else {
                binary(BinaryOp::Mul, index, Expr::IntLit(distance(scale)))
            },
        ),
        None => base,
    };
    if offset != 0 {
        stepped(with_index, offset, Expr::IntLit(distance(offset)))
    } else {
        with_index
    }
}

fn step(e: CExpr, amount: i64, by: CExpr) -> (r: CExpr)
    ensures
        r@ == stepped(e@, amount, by@),
{
    let op = if amount < 0 {
        BinaryOp::Sub
    } else {
        BinaryOp::Add
    };
    CExpr::binary(op, e, by)
}

fn write_address(base: CExpr, index: Option<CExpr>, scale: i64, offset: i64) -> (r: CExpr)
    ensures
        r@ == address_text(base@, view_opt(index), scale, offset),
{
    let with_index = match index {
        Some(index) => {
            let scaled = if -1 <= scale && scale <= 1 {
                index
            } else {
                CExpr::binary(BinaryOp::Mul, index, CExpr::IntLit(distance_of(scale)))
            };
            step(base, scale, scaled)
        },
        None => base,
    };
    if offset != 0 {
        step(with_index, offset, CExpr::IntLit(distance_of(offset)))
    } else {
        with_index
    }
}

/// A literal index, written with a sign in front where it is negative.
pub open spec fn index_literal(offset: i64, size: u32) -> Expr {
    let q = crate::conc::word::abs(offset as int) / (size as int);
    if offset < 0 {
        unary(
            UnaryOp::Neg,
            Expr::IntLit(
                if q > i64::MAX {
                    i64::MIN
                } else {
                    q as i64
                },
            ),
        )
    } else {
        Expr::IntLit(q as i64)
    }
}

/// A literal index, written with a sign in front where it is negative.
pub fn write_index(offset: i64, size: u32) -> (r: CExpr)
    requires
        size > 0,
    ensures
        r@ == index_literal(offset, size),
{
    let magnitude = crate::conc::word::magnitude(offset);
    proof {
        assert(0 <= magnitude as int / (size as int) <= magnitude) by (nonlinear_arith)
            requires
                size > 0,
        ;
    }
    let q: u64 = magnitude / size as u64;
    if offset < 0 {
        let lit: i64 = if q > 0x7fff_ffff_ffff_ffff {
            i64::MIN
        } else {
            q as i64
        };
        CExpr::unary(UnaryOp::Neg, CExpr::IntLit(lit))
    } else {
        CExpr::IntLit(q as i64)
    }
}

/// Is an offset a whole number of elements?
pub open spec fn whole_elements(offset: i64, size: u32) -> bool {
    crate::conc::word::abs(offset as int) % (size as int) == 0
}

/// Is an offset a whole number of elements?
pub fn is_whole(offset: i64, size: u32) -> (r: bool)
    requires
        size > 0,
    ensures
        r == whole_elements(offset, size),
{
    crate::conc::word::magnitude(offset) % size as u64 == 0
}

/// The larger of two sizes.
pub open spec fn larger(a: u32, b: u32) -> u32 {
    if a < b {
        b
    } else {
        a
    }
}

fn max_of(a: u32, b: u32) -> (r: u32)
    ensures
        r == larger(a, b),
{
    if a < b {
        b
    } else {
        a
    }
}

/// An address moved by a number of bytes that fits.
pub open spec fn advanced(a: Option<Addr>, delta: i64) -> Option<Addr> {
    match a {
        Some(a) => match fit(a.offset + delta) {
            Some(offset) => Some(Addr { offset, ..a }),
            None => None,
        },
        None => None,
    }
}

fn advance(a: Option<NormalizedAddr>, delta: i64) -> (r: Option<NormalizedAddr>)
    ensures
        view_opt_addr(r) == advanced(view_opt_addr(a), delta),
{
    match a {
        Some(mut addr) => match checked_sum(addr.offset_bytes, delta) {
            Some(offset) => {
                addr.offset_bytes = offset;
                Some(addr)
            },
            None => None,
        },
        None => None,
    }
}

/// The offset that an address in a stack slot adds up to.
pub open spec fn slot_sum(addr: Addr) -> Option<i64> {
    match addr.base {
        Base::StackSlot(base) => if addr.index is None {
            fit(base + addr.offset)
        } else {
            None
        },
        _ => None,
    }
}

fn sum_of_slot(addr: &NormalizedAddr) -> (r: Option<i64>)
    ensures
        r == slot_sum(addr@),
{
    match &addr.base {
        BaseRef::StackSlot(base) => if addr.index.is_none() {
            checked_sum(*base, addr.offset_bytes)
        } else {
            None
        },
        _ => None,
    }
}

/// A negative offset: one below the frame base.
pub open spec fn below(offset: Option<i64>) -> Option<i64> {
    match offset {
        Some(offset) => if offset < 0 {
            Some(offset)
        } else {
            None
        },
        None => None,
    }
}

/// The depth that stands for all those at which values and addresses are given
/// up.
pub open spec fn shallow(depth: int) -> int {
    if depth > MAX_SEMANTIC_RENDER_DEPTH {
        MAX_SEMANTIC_RENDER_DEPTH + 1
    } else {
        depth
    }
}

fn shallow_depth(depth: u32) -> (r: u32)
    ensures
        r == shallow(depth as int),
{
    if depth > MAX_SEMANTIC_RENDER_DEPTH {
        MAX_SEMANTIC_RENDER_DEPTH + 1
    } else {
        depth
    }
}

fn keep_below(offset: Option<i64>) -> (r: Option<i64>)
    ensures
        r == below(offset),
{
    match offset {
        Some(offset) => if offset < 0 {
            Some(offset)
        } else {
            None
        },
        None => None,
    }
}

impl Reading {
    /// How deep rendering can go. Beyond the depth at which values and addresses
    /// are given up only stable slots lead on, so that a way with more steps than
    /// there are such slots leads round in a circle.
    pub open spec fn render_bound(&self) -> int {
        let n = self.ctx.facts.stable_stack_values@.len() as int;
        16 + if n > 0xf000_0000 {
            0xf000_0000
        } else {
            n
        }
    }

    /// An expression with operands left out that change nothing, to a depth.
    pub open spec fn tidy(&self, e: Expr, depth: int) -> Expr
        decreases e,
    {
        if depth > MAX_SEMANTIC_RENDER_DEPTH {
            e
        } else {
            match e {
                Expr::Paren(inner) => Expr::Paren(Box::new(self.tidy(*inner, depth + 1))),
                Expr::Cast { ty, expr } => cast(ty, self.tidy(*expr, depth + 1)),
                Expr::Unary { op, operand } => unary(op, self.tidy(*operand, depth + 1)),
                Expr::Binary { op, left, right } => simplified(
                    op,
                    self.tidy(*left, depth + 1),
                    self.tidy(*right, depth + 1),
                    None,
                ),
                _ => e,
            }
        }
    }

    /// What a value without a better rendering is shown as: a constant, or a name.
    pub open spec fn value_fallback(&self, var: Var) -> Expr {
        if var.constant() {
            self.constant(var)
        } else {
            let shown = self.shown(var);
            match named_name(self.ctx.answers.arg_aliases@, shown) {
                Some(alias) => Expr::Var(alias),
                None => Expr::Var(shown),
            }
        }
    }

    /// A scalar rendering of a variable, unless it says less than the
    /// variable's name: a zero, a made-up stack name, an untouched register.
    pub open spec fn scalar_value(&self, var: Var, e: Expr) -> Expr {
        if !var.constant() && (zero_literal(e) || has_synthetic_stack(e)
            || self.untouched_return_register(e)) {
            self.value_fallback(var)
        } else {
            e
        }
    }

    /// The meaning of a value: by name, or by number.
    pub open spec fn value_meaning(&self, v: Val) -> Option<Meaning> {
        match self.meaning_of(v.var.display()) {
            Some(m) => Some(m),
            None => match v.id {
                Some(id) => view_meaning(number_entry(self.ctx.facts.value_meanings@, id)),
                None => None,
            },
        }
    }

    /// The variable that a numbered value comes from.
    pub open spec fn numbered_origin(&self, v: Val) -> Option<Var> {
        match v.id {
            Some(id) => match number_entry(self.ctx.facts.value_origins@, id) {
                Some(p) => view_opt_var(p.source_var),
                None => None,
            },
            None => None,
        }
    }

    /// The definition of a numbered value.
    pub open spec fn numbered_definition(&self, v: Val) -> Option<Expr> {
        match v.id {
            Some(id) => match number_entry(self.ctx.facts.value_definitions@, id) {
                Some(e) => Some(e@),
                None => None,
            },
            None => None,
        }
    }

    /// The merged versions of a name, whatever the case it is written in.
    pub open spec fn merged(&self, name: Seq<char>) -> Seq<Var> {
        let t = self.ctx.facts.phi_sources@;
        let by_case = match split_last(name, '_') {
            Some((base, version)) => first(
                entry(t, unicode_lower(base) + "_"@ + version),
                entry(t, unicode_upper(base) + "_"@ + version),
            ),
            None => None,
        };
        match first(entry(t, name), first(entry(t, lower(name)), by_case)) {
            Some(list) => var_views(list@),
            None => Seq::empty(),
        }
    }

    /// The name of a stack slot, where a reader can make sense of it.
    pub open spec fn slot_alias(&self, offset: Option<i64>) -> Option<Expr> {
        match offset {
            Some(offset) => match offset_name(self.ctx.answers.stack_names@, offset) {
                Some(name) => if self.telling(name) {
                    Some(Expr::Var(name))
                } else {
                    None
                },
                None => None,
            },
            None => None,
        }
    }

    /// The meaning of a stable stack slot.
    pub open spec fn stable_meaning(&self, offset: Option<i64>) -> Option<Meaning> {
        match offset {
            Some(offset) => view_meaning(offset_entry(self.ctx.facts.stable_stack_values@, offset)),
            None => None,
        }
    }

    /// The definition of a name from a depth, or its prepared form, whichever
    /// reads better.
    pub open spec fn best_definition_from(&self, name: Seq<char>, depth: int, seen: Seq<Seq<char>>) -> Option<Expr> {
        self.chosen(
            self.definition(name, depth, seen),
            named_expr(self.ctx.facts.formatted_defs@, name),
            VisibleExprContext::Generic,
        )
    }

    /// What a meaning is written as, from a depth within the bound.
    pub open spec fn meaning_within(&self, m: Meaning, depth: int, seen: Seq<Seq<char>>) -> Option<Expr>
        decreases self.render_bound() + 2 - depth, 9int, 0int,
    {
        if depth > self.render_bound() {
            None
        } else {
            match m {
                Meaning::Expr(e) => Some(e),
                Meaning::Root(v) => self.value_expr(v, depth, seen),
                Meaning::Address(a) => self.address_expr(a, depth, seen),
                Meaning::Load { addr, size } => self.load_within(addr, size, depth, seen),
                Meaning::Unknown => None,
            }
        }
    }

    /// What one merged version contributes.
    pub open spec fn merged_candidate(&self, src: Var, depth: int, seen: Seq<Seq<char>>) -> Option<Expr>
        decreases self.render_bound() + 2 - depth, 2int, 0int,
    {
        let name = src.display();
        let by_raw = match self.raw_definition(name, depth + 1, seen) {
            Some(e) => Some(self.semantic(e, depth + 1, seen)),
            None => None,
        };
        let by_value = if depth > self.render_bound() {
            None
        } else {
            self.value_expr(val_of(src), depth + 1, seen)
        };
        first(
            self.asked_meaning(name, depth + 1, seen),
            first(
                by_raw,
                first(
                    by_value,
                    first(
                        self.definition(name, depth + 1, seen),
                        self.best_definition_from(name, depth + 1, seen),
                    ),
                ),
            ),
        )
    }

    /// The best of the first `n` merged versions.
    pub open spec fn merged_best(&self, list: Seq<Var>, n: int, depth: int, seen: Seq<Seq<char>>) -> Option<
        Expr,
    >
        decreases self.render_bound() + 2 - depth, 3int, n,
    {
        if n <= 0 {
            None
        } else {
            self.chosen(
                self.merged_best(list, n - 1, depth, seen),
                self.merged_candidate(list[n - 1], depth, seen),
                VisibleExprContext::Generic,
            )
        }
    }

    /// What the merged versions of a name are written as.
    pub open spec fn merged_expr(&self, name: Seq<char>, depth: int, seen: Seq<Seq<char>>) -> Option<Expr>
        decreases self.render_bound() + 2 - depth, 4int, 0int,
    {
        let key = self.visit_key("phi-expr"@, name);
        if depth > MAX_SEMANTIC_RENDER_DEPTH || seen.contains(key) {
            None
        } else {
            self.merged_best(
                self.merged(name),
                self.merged(name).len() as int,
                depth,
                seen.push(key),
            )
        }
    }

    /// What the load that a definition holds is written as.
    pub open spec fn defined_load(&self, e: Expr, depth: int, seen: Seq<Seq<char>>) -> Option<Expr>
        decreases self.render_bound() + 2 - depth, 1int, 0int,
    {
        if depth > MAX_SEMANTIC_RENDER_DEPTH {
            None
        } else {
            match e {
                Expr::Deref(inner) => match self.address(*inner, depth + 1) {
                    Some(addr) => self.load_within(addr, 0, depth + 1, seen),
                    None => None,
                },
                Expr::Cast { ty, expr } => self.defined_load(*expr, depth + 1, seen),
                Expr::Paren(inner) => self.defined_load(*inner, depth + 1, seen),
                _ => None,
            }
        }
    }

    /// What a value without a meaning is written as: by its merged versions,
    /// its written definition, or the load that its definition holds.
    pub open spec fn unexplained_value(&self, v: Val, depth: int, seen: Seq<Seq<char>>) -> Option<Expr>
        decreases self.render_bound() + 2 - depth, 0int, 0int,
    {
        if depth > MAX_SEMANTIC_RENDER_DEPTH {
            None
        } else {
            let name = v.var.display();
            let raw = first(
                self.raw_definition(name, depth + 1, seen),
                self.numbered_definition(v),
            );
            let by_raw = match raw {
                Some(e) => Some(
                    self.scalar_value(
                        v.var,
                        self.best_of_definition(e, self.semantic(e, depth + 1, seen)),
                    ),
                ),
                None => None,
            };
            let by_load = match self.definition(name, depth + 1, seen) {
                Some(e) => self.defined_load(e, depth + 1, seen),
                None => None,
            };
            let by_direct_load = match named_expr(self.ctx.facts.definitions@, name) {
                Some(e) => self.defined_load(e, depth + 1, seen),
                None => None,
            };
            first(
                self.merged_expr(name, depth + 1, seen),
                first(by_raw, first(by_load, by_direct_load)),
            )
        }
    }

    /// What the origin of a value is written as.
    pub open spec fn origin_expr(&self, v: Val, depth: int, seen: Seq<Seq<char>>) -> Option<Expr>
        decreases self.render_bound() + 2 - depth, 0int, 0int,
    {
        if depth > MAX_SEMANTIC_RENDER_DEPTH {
            None
        } else {
            let by_number = match self.numbered_origin(v) {
                Some(var) => self.value_expr(val_of(var), depth + 1, seen),
                None => None,
            };
            let by_name = match self.forwarded_var(v.var.display()) {
                Some(var) => self.value_expr(val_of(var), depth + 1, seen),
                None => None,
            };
            first(by_number, by_name)
        }
    }

    /// What a value means, written out.
    pub open spec fn explained_value(&self, v: Val, depth: int, seen: Seq<Seq<char>>) -> Option<Expr>
        decreases self.render_bound() + 2 - depth, 1int, 0int,
    {
        if depth > MAX_SEMANTIC_RENDER_DEPTH {
            None
        } else {
            match self.value_meaning(v) {
                Some(Meaning::Expr(e)) => Some(self.scalar_value(v.var, e)),
                Some(Meaning::Root(root)) => self.value_expr(root, depth + 1, seen),
                Some(Meaning::Address(a)) => self.address_expr(a, depth + 1, seen),
                Some(Meaning::Load { addr, size }) => self.load_within(addr, size, depth + 1, seen),
                _ => self.unexplained_value(v, depth, seen),
            }
        }
    }

    /// What a value is written as: the owner of the call result it holds, or
    /// its meaning or its origin, whichever reads better. A value that leads back to
    /// itself is not written.
    pub open spec fn value_expr(&self, v: Val, depth: int, seen: Seq<Seq<char>>) -> Option<Expr>
        decreases self.render_bound() + 2 - depth, 5int, 0int,
    {
        let name = v.var.display();
        let key = "val:"@ + name;
        let within = self.resolving("value:"@, name);
        if depth > MAX_SEMANTIC_RENDER_DEPTH || seen.contains(key) || self.marked("value:"@, name) {
            None
        } else if within.owner_for(name, true) is Some {
            within.owner_for(name, true)
        } else {
            within.chosen(
                first(
                    within.explained_value(v, depth, seen.push(key)),
                    Some(within.value_fallback(v.var)),
                ),
                within.origin_expr(v, depth, seen.push(key)),
                VisibleExprContext::Generic,
            )
        }
    }

    /// What the base of an address is written as.
    pub open spec fn base_expr(&self, base: Base, as_address: bool, depth: int, seen: Seq<Seq<char>>) -> Option<
        Expr,
    >
        decreases self.render_bound() + 2 - depth, 4int, 0int,
    {
        match base {
            Base::Value(v) => if depth > self.render_bound() {
                None
            } else {
                self.value_expr(v, depth + 1, seen)
            },
            Base::StackSlot(offset) => match self.slot_expr(offset) {
                Some(e) => Some(
                    if as_address {
                        addr_of(e)
                    } else {
                        e
                    },
                ),
                None => None,
            },
            Base::Raw(e) => Some(self.asked_final(e).expr),
        }
    }

    /// What the index of an address is written as.
    pub open spec fn index_expr(&self, index: Option<Val>, depth: int, seen: Seq<Seq<char>>) -> Option<Expr>
        decreases self.render_bound() + 2 - depth, 4int, 0int,
    {
        match index {
            Some(v) => if depth > self.render_bound() {
                None
            } else {
                self.value_expr(v, depth + 1, seen)
            },
            None => None,
        }
    }

    /// The stack offset that an address comes out as.
    pub open spec fn stack_offset(&self, addr: Addr, depth: int, seen: Seq<Seq<char>>) -> Option<i64>
        decreases self.render_bound() + 2 - depth, 5int, 0int,
    {
        if depth > MAX_SEMANTIC_RENDER_DEPTH {
            None
        } else if addr.base is StackSlot && addr.index is None {
            slot_sum(addr)
        } else {
            match self.base_expr(addr.base, false, depth + 1, seen) {
                None => None,
                Some(base) => {
                    let index = self.index_expr(addr.index, depth, seen);
                    let known = expr_entry(self.ctx.answers.stack_offsets@, base);
                    if addr.index is None && known is Some {
                        fit(known->0 + addr.offset)
                    } else if addr.index is Some && index is None {
                        None
                    } else if addr.index is Some && addr.scale == 1 && expr_listed(
                        self.ctx.answers.stack_bases@,
                        index->0,
                    ) {
                        match expr_entry(self.ctx.answers.plain_offsets@, base) {
                            Some(offset) => fit(offset + addr.offset),
                            None => None,
                        }
                    } else {
                        let whole = address_text(base, index, addr.scale, addr.offset);
                        first(
                            expr_entry(self.ctx.answers.stack_offsets@, whole),
                            expr_entry(self.ctx.answers.stack_offsets@, self.tidy(whole, depth + 1)),
                        )
                    }
                },
            }
        }
    }

    /// The address that a rendering works with: a stack slot, where the address
    /// comes out as one.
    pub open spec fn effective(&self, addr: Addr, base: Expr, depth: int, seen: Seq<Seq<char>>) -> Addr
        decreases self.render_bound() + 2 - depth, 6int, 0int,
    {
        let offset = self.stack_offset(addr, depth, seen);
        if addr.index is Some && offset is Some && expr_entry(
            self.ctx.answers.plain_offsets@,
            base,
        ) is Some {
            slot_addr(offset->0)
        } else if addr.base is StackSlot || addr.index is Some {
            addr
        } else {
            match advanced(self.address(base, depth), addr.offset) {
                Some(found) => if found.base is StackSlot {
                    found
                } else {
                    addr
                },
                None => addr,
            }
        }
    }

    /// The reference to a stack slot: to its name, or to what it holds for good.
    pub open spec fn slot_reference(&self, offset: Option<i64>, depth: int, seen: Seq<Seq<char>>) -> Option<
        Expr,
    >
        decreases self.render_bound() + 2 - depth, 10int, 0int,
    {
        match self.slot_alias(offset) {
            Some(alias) => Some(addr_of(alias)),
            None => match self.stable_meaning(offset) {
                Some(m) => match self.meaning_within(m, depth, seen) {
                    Some(e) => if addressable(e) {
                        Some(addr_of(e))
                    } else {
                        None
                    },
                    None => None,
                },
                None => None,
            },
        }
    }

    /// What an address is written as.
    pub open spec fn address_expr(&self, addr: Addr, depth: int, seen: Seq<Seq<char>>) -> Option<Expr>
        decreases self.render_bound() + 2 - depth, 6int, 0int,
    {
        if depth > MAX_SEMANTIC_RENDER_DEPTH {
            None
        } else {
            let own = self.slot_reference(
                below(self.stack_offset(addr, depth + 1, seen)),
                depth + 1,
                seen,
            );
            match (own, self.base_expr(addr.base, false, depth + 1, seen)) {
                (Some(e), _) => Some(e),
                (None, None) => None,
                (None, Some(base)) => self.address_expr_from(
                    self.effective(addr, base, depth + 1, seen),
                    depth,
                    seen,
                ),
            }
        }
    }

    /// What an address is written as, once it is known whether it is a slot.
    pub open spec fn address_expr_from(&self, addr: Addr, depth: int, seen: Seq<Seq<char>>) -> Option<Expr>
        decreases self.render_bound() + 2 - depth, 5int, 0int,
    {
        if depth > MAX_SEMANTIC_RENDER_DEPTH {
            None
        } else {
            let found = self.slot_reference(
                below(self.stack_offset(addr, depth + 1, seen)),
                depth + 1,
                seen,
            );
            let summed = self.slot_reference(below(slot_sum(addr)), depth + 1, seen);
            if found is Some {
                found
            } else if summed is Some {
                summed
            } else {
                match self.base_expr(addr.base, true, depth + 1, seen) {
                    None => None,
                    Some(base) => {
                        let index = self.index_expr(addr.index, depth, seen);
                        if addr.index is Some && index is None {
                            None
                        } else {
                            Some(address_text(base, index, addr.scale, addr.offset))
                        }
                    },
                }
            }
        }
    }

    /// What a stack slot holds: by its name, or for good.
    pub open spec fn slot_value(
        &self,
        named: Option<i64>,
        held: Option<i64>,
        depth: int,
        seen: Seq<Seq<char>>,
    ) -> Option<Expr>
        decreases self.render_bound() + 2 - depth, 10int, 0int,
    {
        match self.slot_alias(named) {
            Some(alias) => Some(alias),
            None => match self.stable_meaning(held) {
                Some(m) => self.meaning_within(m, depth, seen),
                None => None,
            },
        }
    }

    /// What a slot that an address comes out as, or adds up to, holds.
    pub open spec fn addressed_slot(&self, addr: Addr, depth: int, seen: Seq<Seq<char>>) -> Option<Expr>
        decreases self.render_bound() + 2 - depth, 11int, 0int,
    {
        let offset = self.stack_offset(addr, depth, seen);
        let sum = slot_sum(addr);
        first(
            self.slot_value(below(offset), offset, depth, seen),
            self.slot_value(below(sum), sum, depth, seen),
        )
    }

    /// The address that an access works with: a stack slot, an indexed
    /// address, or a field, where the base comes out as one.
    pub open spec fn accessed(&self, addr: Addr, base: Expr, depth: int, seen: Seq<Seq<char>>) -> Addr
        decreases self.render_bound() + 2 - depth, 6int, 0int,
    {
        let offset = self.stack_offset(addr, depth, seen);
        if addr.index is Some && offset is Some && expr_entry(
            self.ctx.answers.plain_offsets@,
            base,
        ) is Some {
            slot_addr(offset->0)
        } else if addr.base is StackSlot || addr.index is Some {
            addr
        } else {
            match advanced(self.address(base, depth), addr.offset) {
                Some(found) => if found.base is StackSlot || found.index is Some || self.field_at(
                    found,
                ) is Some {
                    found
                } else {
                    addr
                },
                None => addr,
            }
        }
    }

    /// The name of the field that an access reaches.
    pub open spec fn accessed_field(&self, addr: Addr, base: Expr, depth: int) -> Option<Seq<char>> {
        if addr.base is StackSlot {
            None
        } else {
            let by_base = match advanced(self.address(base, depth), addr.offset) {
                Some(found) => self.field_at(found),
                None => None,
            };
            first(
                self.field_at(addr),
                first(by_base, self.member_name(None, base, addr.offset)),
            )
        }
    }

    /// A base, as a pointer to elements of a type.
    pub open spec fn element_base(&self, base: Expr, ty: Type) -> Expr {
        cast_to(base, Type::Pointer(Box::new(ty)), self.expr_hint(base))
    }

    /// An element of an array, base and index put the right way round.
    pub open spec fn element(&self, base: Expr, index: Expr, scale: i64, ty: Type) -> Expr {
        let raw = match self.index_of(index, 0) {
            Some(e) => e,
            None => index,
        };
        let pointer = self.pointer_base(base, 0);
        let swap = scale >= 0 && !self.pointer_like(pointer) && self.pointer_like(raw);
        let (b, i) = if swap {
            (raw, pointer)
        } else {
            (pointer, raw)
        };
        let held = match self.expr_hint(b) {
            Some(hint) => hint.target(),
            None => None,
        };
        let elem = if swap && held is Some {
            held->0
        } else {
            ty
        };
        subscript(
            self.element_base(b, elem),
            if scale < 0 {
                unary(UnaryOp::Neg, i)
            } else {
                i
            },
        )
    }

    /// The size of an element, in bytes: of its type, or as the access says.
    pub open spec fn element_bytes(&self, ty: Type, size: u32) -> u32 {
        match ty.width() {
            Some(bits) => larger(bytes_for(bits), 1),
            None => larger(size, 1),
        }
    }

    /// What an access at a fixed distance from a base is written as.
    pub open spec fn fixed_element(&self, addr: Addr, base: Expr, size: u32) -> Option<Expr> {
        let ty = self.element_type(addr.base, size);
        let bytes = self.element_bytes(ty, size);
        if indexable(ty) && whole_elements(addr.offset, bytes) {
            Some(
                subscript(
                    self.element_base(self.pointer_base(base, 0), ty),
                    index_literal(addr.offset, bytes),
                ),
            )
        } else {
            None
        }
    }

    /// What an access is written as, its address known: an element, a field,
    /// an element at a fixed distance, or the slot itself.
    pub open spec fn access_expr_from(
        &self,
        addr: Addr,
        base: Expr,
        size: u32,
        depth: int,
        seen: Seq<Seq<char>>,
    ) -> Option<Expr>
        decreases self.render_bound() + 2 - depth, 5int, 0int,
    {
        let field = self.accessed_field(addr, base, depth + 1);
        let index = self.index_expr(addr.index, depth, seen);
        if addr.index is Some && index is None {
            None
        } else {
            let element = self.element(
                base,
                index->0,
                addr.scale,
                self.element_type(addr.base, larger(scale_size(addr.scale), size)),
            );
            if addr.index is Some && field is Some {
                Some(field_of(element, field->0))
            } else if addr.index is Some && addr.offset == 0 {
                Some(element)
            } else if addr.index is None && addr.offset != 0 && field is None && !(addr.base
                is StackSlot) && self.fixed_element(addr, base, size) is Some {
                self.fixed_element(addr, base, size)
            } else if field is Some {
                Some(field_of(base, field->0))
            } else if addr.base is StackSlot && addr.index is None && addr.offset == 0 {
                Some(base)
            } else {
                None
            }
        }
    }

    /// What an access is written as, from a depth within the bound.
    pub open spec fn access_within(&self, addr: Addr, size: u32, depth: int, seen: Seq<Seq<char>>) -> Option<Expr>
        decreases self.render_bound() + 2 - depth, 7int, 0int,
    {
        if depth > self.render_bound() {
            None
        } else if self.exact_object(addr) is Some {
            self.exact_object(addr)
        } else {
            let held = self.addressed_slot(addr, depth + 1, seen);
            match (held, self.base_expr(addr.base, false, depth + 1, seen)) {
                (Some(e), _) => Some(e),
                (None, None) => None,
                (None, Some(raw)) => {
                    let eff = self.accessed(addr, raw, depth + 1, seen);
                    let through = self.addressed_slot(eff, depth + 1, seen);
                    let base = if eff != addr {
                        first(self.base_expr(eff.base, false, depth + 1, seen), Some(raw))->0
                    } else {
                        raw
                    };
                    first(through, self.access_expr_from(eff, base, size, depth, seen))
                },
            }
        }
    }

    /// What a load of the first element behind a base is written as.
    pub open spec fn first_load(&self, addr: Addr, size: u32, depth: int, seen: Seq<Seq<char>>) -> Option<Expr>
        decreases self.render_bound() + 2 - depth, 6int, 0int,
    {
        if addr.index is Some || addr.offset != 0 || addr.base is StackSlot || depth
            > self.render_bound() {
            None
        } else {
            match self.base_expr(addr.base, false, depth + 1, seen) {
                Some(base) => {
                    let pointer = self.pointer_base(base, 0);
                    let ty = self.element_type(addr.base, larger(size, 1));
                    if self.first_element(pointer, ty) {
                        Some(subscript(self.element_base(pointer, ty), Expr::IntLit(0)))
                    } else {
                        None
                    }
                },
                None => None,
            }
        }
    }

    /// What a load is written as, from a depth within the bound: an access, the
    /// first element, or a plain load.
    pub open spec fn load_within(&self, addr: Addr, size: u32, depth: int, seen: Seq<Seq<char>>) -> Option<Expr>
        decreases self.render_bound() + 2 - depth, 8int, 0int,
    {
        if depth > self.render_bound() {
            None
        } else {
            let exact = self.exact_object(addr);
            let direct = if !self.load_shows_object(addr) && exact is Some && self.base_expr(
                addr.base,
                false,
                depth + 1,
                seen,
            ) == exact {
                None
            } else {
                self.access_within(addr, size, depth, seen)
            };
            let plain = match self.address_expr(addr, depth + 1, seen) {
                Some(e) => Some(deref(e)),
                None => None,
            };
            first(direct, first(self.first_load(addr, size, depth, seen), plain))
        }
    }

    /// What a meaning is written as. All depths at which values and addresses are
    /// given up are alike.
    pub open spec fn meaning_expr(&self, m: Meaning, depth: int, seen: Seq<Seq<char>>) -> Option<Expr> {
        self.meaning_within(m, shallow(depth), seen)
    }

    /// What an access is written as.
    pub open spec fn access_expr(&self, addr: Addr, size: u32, depth: int, seen: Seq<Seq<char>>) -> Option<
        Expr,
    > {
        self.access_within(addr, size, shallow(depth), seen)
    }

    /// What a load is written as.
    pub open spec fn load_expr(&self, addr: Addr, size: u32, depth: int, seen: Seq<Seq<char>>) -> Option<Expr> {
        self.load_within(addr, size, shallow(depth), seen)
    }

    /// A meaning that is an expression is written as that expression, however
    /// deep the question stands.
    pub proof fn a_written_meaning_stands(&self, e: Expr, depth: int, seen: Seq<Seq<char>>)
        ensures
            self.meaning_expr(Meaning::Expr(e), depth, seen) == Some(e),
    {
    }

    /// What a name means, written out: its own meaning, that of the variable
    /// behind it, or its merged versions.
    /// A name that leads back to itself is answered by what stands there in writing.
    pub open spec fn name_meaning(&self, name: Seq<char>, depth: int, seen: Seq<Seq<char>>) -> Option<Expr> {
        let key = self.visit_key("sem"@, name);
        let within = self.resolving("meaning:"@, name);
        let progress = self.visit_key("sem-progress"@, name);
        if self.marked("meaning:"@, name) {
            Some(self.cycle_fallback(name))
        } else if depth > MAX_SEMANTIC_RENDER_DEPTH || seen.contains(key)
            || within.marks.contains(progress) {
            None
        } else {
            within.marking(progress).own_meaning(name, depth, seen.push(key))
        }
    }

    /// The meaning of a name, of the variable behind it, or of its merged versions.
    pub open spec fn own_meaning(&self, name: Seq<char>, depth: int, seen: Seq<Seq<char>>) -> Option<Expr> {
        let own = match self.meaning_of(name) {
            Some(m) => self.meaning_expr(m, depth + 1, seen),
            None => None,
        };
        let by_alias = match self.ssa_of(name) {
            Some(ssa) => if ssa != name {
                match self.meaning_of(ssa) {
                    Some(m) => self.meaning_expr(m, depth + 1, seen),
                    None => None,
                }
            } else {
                None
            },
            None => None,
        };
        first(own, first(by_alias, self.merged_expr(name, depth + 1, seen)))
    }

    /// The memory access that a name stands for.
    pub open spec fn named_access(&self, name: Seq<char>, size: u32, depth: int, seen: Seq<Seq<char>>) -> Option<
        Expr,
    > {
        match self.meaning_of(name) {
            Some(Meaning::Address(addr)) => self.load_expr(addr, size, depth, seen),
            Some(m) => self.meaning_expr(m, depth, seen),
            None => None,
        }
    }

    /// A load of a type through an address: the access that the address stands
    /// for, or a load through a pointer of that type.
    pub open spec fn typed_load(&self, addr: Var, e: Expr, ty: Type) -> Expr {
        let size = match ty.width() {
            Some(bits) => bytes_for(bits),
            None => 0,
        };
        let access = match self.address(e, 0) {
            Some(shape) => self.access_expr(shape, size, 0, Seq::empty()),
            None => None,
        };
        match access {
            Some(access) => access,
            None => deref(self.as_pointer(addr, e, Type::Pointer(Box::new(ty)))),
        }
    }
}

impl<'a> Folder<'a> {
    fn max_render_depth(&self) -> (r: u32)
        ensures
            r == self@.render_bound(),
    {
        let n: usize = self.ctx.facts.stable_stack_values.len();
        if n as u64 > 0xf000_0000 {
            16 + 0xf000_0000
        } else {
            16 + n as u32
        }
    }

    /// An expression with operands left out that change nothing, to a depth.
    pub fn canonicalize_visible_address_expr(&self, e: &CExpr, depth: u32) -> (r: CExpr)
        ensures
            r@ == self@.tidy(e@, depth as int),
        decreases e,
    {
        if depth > MAX_SEMANTIC_RENDER_DEPTH {
            return e.dup();
        }
        match e {
            CExpr::Paren(inner) => CExpr::Paren(
                Box::new(self.canonicalize_visible_address_expr(inner, depth + 1)),
            ),
            CExpr::Cast { ty, expr } => CExpr::cast(
                ty.dup(),
                self.canonicalize_visible_address_expr(expr, depth + 1),
            ),
            CExpr::Unary { op, operand } => CExpr::unary(
                *op,
                self.canonicalize_visible_address_expr(operand, depth + 1),
            ),
            CExpr::Binary { op, left, right } => {
                let l = self.canonicalize_visible_address_expr(left, depth + 1);
                let r = self.canonicalize_visible_address_expr(right, depth + 1);
                identity_simplify_binary(*op, l, r, None)
            },
            _ => e.dup(),
        }
    }

    fn fallback_for_value(&self, var: &SSAVar) -> (r: CExpr)
        ensures
            r@ == self@.value_fallback(var@),
    {
        if var.is_const() {
            return self.const_to_expr(var);
        }
        let shown = self.var_name(var);
        match self.arg_alias_for_rendered_name(&shown) {
            Some(alias) => CExpr::Var(alias),
            None => CExpr::Var(shown),
        }
    }

    /// A scalar rendering of a variable, unless it says less than the
    /// variable's name.
    pub fn render_scalar_value_ref(&self, var: &SSAVar, e: CExpr) -> (r: CExpr)
        ensures
            r@ == self@.scalar_value(var@, e@),
    {
        if !var.is_const() && (is_literal_zero_expr(&e)
            || expr_contains_synthetic_stack_placeholder(&e) || self.is_uninitialized_return_reg(
            &e,
        )) {
            self.fallback_for_value(var)
        } else {
            e
        }
    }

    fn find_value_meaning(&self, v: &ValueRef) -> (r: Option<&SemanticValue>)
        ensures
            match r {
                Some(m) => self@.value_meaning(v@) == Some(m@),
                None => self@.value_meaning(v@) is None,
            },
    {
        if let Some(m) = self.lookup_semantic_value(&v.var.display_name()) {
            return Some(m);
        }
        match v.id {
            Some(id) => find_number(&self.ctx.facts.value_meanings, id),
            None => None,
        }
    }

    fn find_numbered_origin(&self, v: &ValueRef) -> (r: Option<SSAVar>)
        ensures
            view_opt_var(r) == self@.numbered_origin(v@),
    {
        match v.id {
            Some(id) => match find_number(&self.ctx.facts.value_origins, id) {
                Some(p) => match &p.source_var {
                    Some(var) => Some(var.dup()),
                    None => None,
                },
                None => None,
            },
            None => None,
        }
    }

    fn find_numbered_definition(&self, v: &ValueRef) -> (r: Option<CExpr>)
        ensures
            view_opt(r) == self@.numbered_definition(v@),
    {
        match v.id {
            Some(id) => match find_number(&self.ctx.facts.value_definitions, id) {
                Some(e) => Some(e.dup()),
                None => None,
            },
            None => None,
        }
    }

    /// The merged versions of a name, whatever the case it is written in.
    pub fn phi_sources_for_name(&self, name: &str) -> (r: Vec<SSAVar>)
        ensures
            var_views(r@) == self@.merged(name@),
    {
        let t = &self.ctx.facts.phi_sources;
        if let Some(list) = find(t, name) {
            return crate::ssa::dup_vars(list);
        }
        if let Some(list) = find(t, &to_lower(name)) {
            return crate::ssa::dup_vars(list);
        }
        if let Some((base, version)) = rsplit_once(name, '_') {
            let mut low = base.as_str().to_lowercase();
            push_text(&mut low, "_");
            push_text(&mut low, &version);
            if let Some(list) = find(t, &low) {
                return crate::ssa::dup_vars(list);
            }
            let mut up = base.as_str().to_uppercase();
            push_text(&mut up, "_");
            push_text(&mut up, &version);
            if let Some(list) = find(t, &up) {
                return crate::ssa::dup_vars(list);
            }
        }
        let none: Vec<SSAVar> = Vec::new();
        assert(var_views(none@) =~= Seq::<Var>::empty());
        none
    }

    fn find_slot_alias(&self, offset: Option<i64>) -> (r: Option<CExpr>)
        ensures
            view_opt(r) == self@.slot_alias(offset),
    {
        match offset {
            Some(offset) => match self.resolve_stack_var(offset) {
                Some(name) => if self.is_telling_name(&name) {
                    Some(CExpr::Var(name))
                } else {
                    None
                },
                None => None,
            },
            None => None,
        }
    }

    /// The meaning of a stable stack slot.
    pub fn find_stable_meaning(&self, offset: Option<i64>) -> (r: Option<&SemanticValue>)
        ensures
            match r {
                Some(m) => self@.stable_meaning(offset) == Some(m@),
                None => self@.stable_meaning(offset) is None,
            },
    {
        match offset {
            Some(offset) => find_offset(&self.ctx.facts.stable_stack_values, offset),
            None => None,
        }
    }

    /// The definition of a name from a depth, or its prepared form.
    pub fn best_visible_definition_with_depth(&self, name: &str, depth: u32, visited: &Vec<String>) -> (r:
        Option<CExpr>)
        ensures
            view_opt(r) == self@.best_definition_from(name@, depth as int, texts(visited@)),
        decreases self.left, 13int,
    {
        self.choose_preferred_visible_expr(
            self.lookup_definition_with_depth(name, depth, visited),
            find_named_expr(&self.ctx.facts.formatted_defs, name),
        )
    }

    /// A base, as a pointer to elements of a type.
    pub fn cast_element_base(&self, base: CExpr, ty: CType) -> (r: CExpr)
        ensures
            r@ == self@.element_base(base@, ty@),
    {
        let source = self.expr_type_hint(&base);
        cast_expr_if_needed(base, CType::ptr(ty), source.as_ref())
    }

    fn write_element(&self, base: &CExpr, index: CExpr, scale: i64, ty: CType) -> (r: CExpr)
        ensures
            r@ == self@.element(base@, index@, scale, ty@),
        decreases self.left, 19int,
    {
        let raw = match self.normalize_index_expr(&index, 0) {
            Some(e) => e,
            None => index,
        };
        let pointer = self.normalize_pointer_base_expr(base, 0);
        if scale >= 0 && self.should_swap_indexed_access_base(&pointer, &raw) {
            let held = match self.expr_type_hint(&raw) {
                Some(hint) => hint.pointee(),
                None => None,
            };
            let elem = match held {
                Some(inner) => inner,
                None => ty,
            };
            return CExpr::subscript(self.cast_element_base(raw, elem), pointer);
        }
        let b = self.cast_element_base(pointer, ty);
        if scale < 0 {
            CExpr::subscript(b, CExpr::unary(UnaryOp::Neg, raw))
        } else {
            CExpr::subscript(b, raw)
        }
    }

    fn write_fixed_element(&self, addr: &NormalizedAddr, base: &CExpr, size: u32) -> (r: Option<CExpr>)
        ensures
            view_opt(r) == self@.fixed_element(addr@, base@, size),
        decreases self.left, 16int,
    {
        let ty = self.infer_elem_type_from_base_ref(&addr.base, size);
        let bytes: u32 = match ty.bits() {
            Some(bits) => max_of(bits_to_bytes(bits), 1),
            None => max_of(size, 1),
        };
        if can_render_constant_offset_as_subscript(&ty) && is_whole(addr.offset_bytes, bytes) {
            let pointer = self.normalize_pointer_base_expr(base, 0);
            let b = self.cast_element_base(pointer, ty);
            Some(CExpr::subscript(b, write_index(addr.offset_bytes, bytes)))
        } else {
            None
        }
    }

    fn render_meaning_within(&self, m: &SemanticValue, depth: u32, visited: &Vec<String>) -> (r: Option<
        CExpr,
    >)
        ensures
            view_opt(r) == self@.meaning_within(m@, depth as int, texts(visited@)),
        decreases self.left, 22int, self@.render_bound() + 2 - depth, 9int, 0int,
    {
        if depth > self.max_render_depth() {
            return None;
        }
        match m {
            SemanticValue::Scalar(ScalarValue::Expr(e)) => Some(e.dup()),
            SemanticValue::Scalar(ScalarValue::Root(v)) => self.render_value_ref(v, depth, visited),
            SemanticValue::Address(a) => self.render_address_expr_from_addr(a, depth, visited),
            SemanticValue::Load { addr, size } => self.render_load_within(
                addr,
                *size,
                depth,
                visited,
            ),
            SemanticValue::Unknown => None,
        }
    }

    /// What one merged version contributes.
    pub fn render_merged_candidate(&self, src: &SSAVar, depth: u32, visited: &Vec<String>) -> (r: Option<
        CExpr,
    >)
        requires
            depth < u32::MAX,
        ensures
            view_opt(r) == self@.merged_candidate(src@, depth as int, texts(visited@)),
        decreases self.left, 22int, self@.render_bound() + 2 - depth, 2int, 0int,
    {
        let name = src.display_name();
        if let Some(e) = self.rendered_meaning(&name, depth + 1, visited) {
            return Some(e);
        }
        if let Some(e) = self.lookup_definition_raw_with_depth(&name, depth + 1, visited) {
            return Some(self.semanticize_visible_expr(&e, depth + 1, visited));
        }
        let v = ValueRef::from_var(src.dup());
        if depth <= MAX_SEMANTIC_RENDER_DEPTH {
            if let Some(e) = self.render_value_ref(&v, depth + 1, visited) {
                return Some(e);
            }
        }
        if let Some(e) = self.lookup_definition_with_depth(&name, depth + 1, visited) {
            return Some(e);
        }
        self.best_visible_definition_with_depth(&name, depth + 1, visited)
    }

    /// What the merged versions of a name are written as.
    pub fn resolve_expr_from_phi_sources(&self, name: &str, depth: u32, visited: &Vec<String>) -> (r: Option<
        CExpr,
    >)
        ensures
            view_opt(r) == self@.merged_expr(name@, depth as int, texts(visited@)),
        decreases self.left, 22int, self@.render_bound() + 2 - depth, 4int, 0int,
    {
        let key = self.resolution_name_key("phi-expr", name);
        if depth > MAX_SEMANTIC_RENDER_DEPTH || has_name(visited, &key) {
            return None;
        }
        let within = with_name(visited, &key);
        let list = self.phi_sources_for_name(name);
        let mut best: Option<CExpr> = None;
        let mut i: usize = 0;
        while i < list.len()
            invariant
                i <= list@.len(),
                depth <= MAX_SEMANTIC_RENDER_DEPTH,
                view_opt(best) == self@.merged_best(
                    var_views(list@),
                    i as int,
                    depth as int,
                    texts(within@),
                ),
            decreases list@.len() - i,
        {
            assert(var_views(list@)[i as int] == list@[i as int]@);
            let candidate = self.render_merged_candidate(&list[i], depth, &within);
            best = self.choose_preferred_visible_expr(best, candidate);
            i = i + 1;
        }
        assert(var_views(list@).len() == list@.len());
        best
    }

    /// What the load that a definition holds is written as.
    pub fn render_semantic_load_from_definition_expr(
        &self,
        e: &CExpr,
        depth: u32,
        visited: &Vec<String>,
    ) -> (r: Option<CExpr>)
        ensures
            view_opt(r) == self@.defined_load(e@, depth as int, texts(visited@)),
        decreases self.left, 22int, self@.render_bound() + 2 - depth, 1int, 0int,
    {
        if depth > MAX_SEMANTIC_RENDER_DEPTH {
            return None;
        }
        match e {
            CExpr::Deref(inner) => match self.normalized_addr_from_visible_expr(inner, depth + 1) {
                Some(addr) => self.render_load_within(&addr, 0, depth + 1, visited),
                None => None,
            },
            CExpr::Cast { ty, expr } => self.render_semantic_load_from_definition_expr(
                expr,
                depth + 1,
                visited,
            ),
            CExpr::Paren(inner) => self.render_semantic_load_from_definition_expr(
                inner,
                depth + 1,
                visited,
            ),
            _ => None,
        }
    }

    fn render_unexplained_value(&self, v: &ValueRef, depth: u32, visited: &Vec<String>) -> (r: Option<
        CExpr,
    >)
        ensures
            view_opt(r) == self@.unexplained_value(v@, depth as int, texts(visited@)),
        decreases self.left, 22int, self@.render_bound() + 2 - depth, 0int, 0int,
    {
        if depth > MAX_SEMANTIC_RENDER_DEPTH {
            return None;
        }
        let name = v.var.display_name();
        if let Some(e) = self.resolve_expr_from_phi_sources(&name, depth + 1, visited) {
            return Some(e);
        }
        let raw = match self.lookup_definition_raw_with_depth(&name, depth + 1, visited) {
            Some(e) => Some(e),
            None => self.find_numbered_definition(v),
        };
        if let Some(e) = raw {
            let meaning = self.semanticize_visible_expr(&e, depth + 1, visited);
            let best = if self.prefers_visible_expr(&e, &meaning) {
                meaning
            } else {
                e
            };
            return Some(self.render_scalar_value_ref(&v.var, best));
        }
        if let Some(e) = self.lookup_definition_with_depth(&name, depth + 1, visited) {
            if let Some(load) = self.render_semantic_load_from_definition_expr(
                &e,
                depth + 1,
                visited,
            ) {
                return Some(load);
            }
        }
        match self.direct_definition_expr(&name) {
            Some(e) => self.render_semantic_load_from_definition_expr(&e, depth + 1, visited),
            None => None,
        }
    }

    fn render_origin_of_value(&self, v: &ValueRef, depth: u32, visited: &Vec<String>) -> (r: Option<
        CExpr,
    >)
        ensures
            view_opt(r) == self@.origin_expr(v@, depth as int, texts(visited@)),
        decreases self.left, 22int, self@.render_bound() + 2 - depth, 0int, 0int,
    {
        if depth > MAX_SEMANTIC_RENDER_DEPTH {
            return None;
        }
        if let Some(var) = self.find_numbered_origin(v) {
            let source = ValueRef::from_var(var);
            if let Some(e) = self.render_value_ref(&source, depth + 1, visited) {
                return Some(e);
            }
        }
        match self.forwarded_source_var(&v.var.display_name()) {
            Some(var) => {
                let source = ValueRef::from_var(var);
                self.render_value_ref(&source, depth + 1, visited)
            },
            None => None,
        }
    }

    fn render_explained_value(&self, v: &ValueRef, depth: u32, visited: &Vec<String>) -> (r: Option<
        CExpr,
    >)
        ensures
            view_opt(r) == self@.explained_value(v@, depth as int, texts(visited@)),
        decreases self.left, 22int, self@.render_bound() + 2 - depth, 1int, 0int,
    {
        if depth > MAX_SEMANTIC_RENDER_DEPTH {
            return None;
        }
        match self.find_value_meaning(v) {
            Some(SemanticValue::Scalar(ScalarValue::Expr(e))) => Some(
                self.render_scalar_value_ref(&v.var, e.dup()),
            ),
            Some(SemanticValue::Scalar(ScalarValue::Root(root))) => self.render_value_ref(
                root,
                depth + 1,
                visited,
            ),
            Some(SemanticValue::Address(a)) => self.render_address_expr_from_addr(
                a,
                depth + 1,
                visited,
            ),
            Some(SemanticValue::Load { addr, size }) => self.render_load_within(
                addr,
                *size,
                depth + 1,
                visited,
            ),
            Some(SemanticValue::Unknown) => self.render_unexplained_value(v, depth, visited),
            None => self.render_unexplained_value(v, depth, visited),
        }
    }

    /// What a value is written as.
    pub fn render_value_ref(&self, v: &ValueRef, depth: u32, visited: &Vec<String>) -> (r: Option<CExpr>)
        ensures
            view_opt(r) == self@.value_expr(v@, depth as int, texts(visited@)),
        decreases self.left, 22int, self@.render_bound() + 2 - depth, 5int, 0int,
    {
        let name = v.var.display_name();
        let key = join("val:", &name);
        if depth > MAX_SEMANTIC_RENDER_DEPTH || has_name(visited, &key) || self.is_marked("value:", &name) {
            return None;
        }
        let more = self.with_mark("value:", &name);
        let within = with_name(visited, &key);
        let f = self.now_marking(&more);
        if let Some(owner) = f.stable_owned_call_result_expr_for_name(&name, true) {
            return Some(owner);
        }
        let forwarded = f.render_origin_of_value(v, depth, &within);
        let rendered = match f.render_explained_value(v, depth, &within) {
            Some(e) => e,
            None => f.fallback_for_value(&v.var),
        };
        f.choose_preferred_visible_expr(Some(rendered), forwarded)
    }

    /// What the base of an address is written as.
    pub fn render_base_ref_expr(
        &self,
        base: &BaseRef,
        as_address: bool,
        depth: u32,
        visited: &Vec<String>,
    ) -> (r: Option<CExpr>)
        ensures
            view_opt(r) == self@.base_expr(base@, as_address, depth as int, texts(visited@)),
        decreases self.left, 22int, self@.render_bound() + 2 - depth, 4int, 0int,
    {
        match base {
            BaseRef::Value(v) => if depth > self.max_render_depth() {
                None
            } else {
                self.render_value_ref(v, depth + 1, visited)
            },
            BaseRef::StackSlot(offset) => match self.slot_name_expr(*offset) {
                Some(e) => if as_address {
                    Some(CExpr::addr_of(e))
                } else {
                    Some(e)
                },
                None => None,
            },
            BaseRef::Raw(e) => {
                let mut followed = copy_texts(self.followed);
                Some(self.rewrite_calls(e, &mut followed))
            },
        }
    }

    fn render_index(&self, index: &Option<ValueRef>, depth: u32, visited: &Vec<String>) -> (r: Option<
        CExpr,
    >)
        ensures
            view_opt(r) == self@.index_expr(
                crate::fold::facts::view_opt_val(*index),
                depth as int,
                texts(visited@),
            ),
        decreases self.left, 22int, self@.render_bound() + 2 - depth, 4int, 0int,
    {
        match index {
            Some(v) => if depth > self.max_render_depth() {
                None
            } else {
                self.render_value_ref(v, depth + 1, visited)
            },
            None => None,
        }
    }

    /// The stack offset that an address comes out as.
    pub fn stack_offset_for_normalized_addr(
        &self,
        addr: &NormalizedAddr,
        depth: u32,
        visited: &Vec<String>,
    ) -> (r: Option<i64>)
        ensures
            r == self@.stack_offset(addr@, depth as int, texts(visited@)),
        decreases self.left, 22int, self@.render_bound() + 2 - depth, 5int, 0int,
    {
        if depth > MAX_SEMANTIC_RENDER_DEPTH {
            return None;
        }
        if addr.base.is_slot() && addr.index.is_none() {
            return sum_of_slot(addr);
        }
        let base = match self.render_base_ref_expr(&addr.base, false, depth + 1, visited) {
            Some(base) => base,
            None => {
                return None;
            },
        };
        if addr.index.is_none() {
            if let Some(known) = find_expr(&self.ctx.answers.stack_offsets, &base) {
                return checked_sum(*known, addr.offset_bytes);
            }
        }
        let index = self.render_index(&addr.index, depth, visited);
        if addr.index.is_some() && index.is_none() {
            return None;
        }
        if let Some(e) = &index {
            if addr.scale_bytes == 1 && expr_in_list(&self.ctx.answers.stack_bases, e) {
                return match find_expr(&self.ctx.answers.plain_offsets, &base) {
                    Some(offset) => checked_sum(*offset, addr.offset_bytes),
                    None => None,
                };
            }
        }
        let whole = write_address(base, index, addr.scale_bytes, addr.offset_bytes);
        if let Some(offset) = find_expr(&self.ctx.answers.stack_offsets, &whole) {
            return Some(*offset);
        }
        let tidied = self.canonicalize_visible_address_expr(&whole, depth + 1);
        match find_expr(&self.ctx.answers.stack_offsets, &tidied) {
            Some(offset) => Some(*offset),
            None => None,
        }
    }

    fn effective_addr(
        &self,
        addr: &NormalizedAddr,
        base: &CExpr,
        depth: u32,
        visited: &Vec<String>,
    ) -> (r: NormalizedAddr)
        ensures
            r@ == self@.effective(addr@, base@, depth as int, texts(visited@)),
        decreases self.left, 22int, self@.render_bound() + 2 - depth, 6int, 0int,
    {
        if addr.index.is_some() {
            let offset = self.stack_offset_for_normalized_addr(addr, depth, visited);
            if let Some(offset) = offset {
                if find_expr(&self.ctx.answers.plain_offsets, base).is_some() {
                    return NormalizedAddr::slot(offset);
                }
            }
            return addr.dup();
        }
        if addr.base.is_slot() {
            return addr.dup();
        }
        let found = advance(self.normalized_addr_from_visible_expr(base, depth), addr.offset_bytes);
        match found {
            Some(found) => if found.base.is_slot() {
                found
            } else {
                addr.dup()
            },
            None => addr.dup(),
        }
    }

    fn render_slot_reference(&self, offset: Option<i64>, depth: u32, visited: &Vec<String>) -> (r: Option<
        CExpr,
    >)
        ensures
            view_opt(r) == self@.slot_reference(offset, depth as int, texts(visited@)),
        decreases self.left, 22int, self@.render_bound() + 2 - depth, 10int, 0int,
    {
        if let Some(alias) = self.find_slot_alias(offset) {
            return Some(CExpr::addr_of(alias));
        }
        match self.find_stable_meaning(offset) {
            Some(m) => match self.render_meaning_within(m, depth, visited) {
                Some(e) => if expr_supports_addr_of(&e) {
                    Some(CExpr::addr_of(e))
                } else {
                    None
                },
                None => None,
            },
            None => None,
        }
    }

    fn render_effective_address(&self, addr: &NormalizedAddr, depth: u32, visited: &Vec<String>) -> (r: Option<
        CExpr,
    >)
        ensures
            view_opt(r) == self@.address_expr_from(addr@, depth as int, texts(visited@)),
        decreases self.left, 22int, self@.render_bound() + 2 - depth, 5int, 0int,
    {
        if depth > MAX_SEMANTIC_RENDER_DEPTH {
            return None;
        }
        let offset = keep_below(self.stack_offset_for_normalized_addr(addr, depth + 1, visited));
        let found = self.render_slot_reference(offset, depth + 1, visited);
        if found.is_some() {
            return found;
        }
        let summed = self.render_slot_reference(keep_below(sum_of_slot(addr)), depth + 1, visited);
        if summed.is_some() {
            return summed;
        }
        match self.render_base_ref_expr(&addr.base, true, depth + 1, visited) {
            None => None,
            Some(base) => {
                let index = self.render_index(&addr.index, depth, visited);
                if addr.index.is_some() && index.is_none() {
                    return None;
                }
                Some(write_address(base, index, addr.scale_bytes, addr.offset_bytes))
            },
        }
    }

    /// What an address is written as.
    pub fn render_address_expr_from_addr(
        &self,
        addr: &NormalizedAddr,
        depth: u32,
        visited: &Vec<String>,
    ) -> (r: Option<CExpr>)
        ensures
            view_opt(r) == self@.address_expr(addr@, depth as int, texts(visited@)),
        decreases self.left, 22int, self@.render_bound() + 2 - depth, 6int, 0int,
    {
        if depth > MAX_SEMANTIC_RENDER_DEPTH {
            return None;
        }
        let offset = keep_below(self.stack_offset_for_normalized_addr(addr, depth + 1, visited));
        let own = self.render_slot_reference(offset, depth + 1, visited);
        if own.is_some() {
            return own;
        }
        match self.render_base_ref_expr(&addr.base, false, depth + 1, visited) {
            None => None,
            Some(base) => {
                let eff = self.effective_addr(addr, &base, depth + 1, visited);
                self.render_effective_address(&eff, depth, visited)
            },
        }
    }

    fn render_slot_value(
        &self,
        named: Option<i64>,
        held: Option<i64>,
        depth: u32,
        visited: &Vec<String>,
    ) -> (r: Option<CExpr>)
        ensures
            view_opt(r) == self@.slot_value(named, held, depth as int, texts(visited@)),
        decreases self.left, 22int, self@.render_bound() + 2 - depth, 10int, 0int,
    {
        if let Some(alias) = self.find_slot_alias(named) {
            return Some(alias);
        }
        match self.find_stable_meaning(held) {
            Some(m) => self.render_meaning_within(m, depth, visited),
            None => None,
        }
    }

    fn render_addressed_slot(&self, addr: &NormalizedAddr, depth: u32, visited: &Vec<String>) -> (r: Option<
        CExpr,
    >)
        ensures
            view_opt(r) == self@.addressed_slot(addr@, depth as int, texts(visited@)),
        decreases self.left, 22int, self@.render_bound() + 2 - depth, 11int, 0int,
    {
        let offset = self.stack_offset_for_normalized_addr(addr, depth, visited);
        let found = self.render_slot_value(keep_below(offset), offset, depth, visited);
        if found.is_some() {
            return found;
        }
        let sum = sum_of_slot(addr);
        self.render_slot_value(keep_below(sum), sum, depth, visited)
    }

    fn accessed_addr(
        &self,
        addr: &NormalizedAddr,
        base: &CExpr,
        depth: u32,
        visited: &Vec<String>,
    ) -> (r: NormalizedAddr)
        ensures
            r@ == self@.accessed(addr@, base@, depth as int, texts(visited@)),
        decreases self.left, 22int, self@.render_bound() + 2 - depth, 6int, 0int,
    {
        if addr.index.is_some() {
            let offset = self.stack_offset_for_normalized_addr(addr, depth, visited);
            if let Some(offset) = offset {
                if find_expr(&self.ctx.answers.plain_offsets, base).is_some() {
                    return NormalizedAddr::slot(offset);
                }
            }
            return addr.dup();
        }
        if addr.base.is_slot() {
            return addr.dup();
        }
        let found = advance(self.normalized_addr_from_visible_expr(base, depth), addr.offset_bytes);
        match found {
            Some(found) => if found.base.is_slot() || found.index.is_some()
                || self.oracle_field_name_for_addr(&found).is_some() {
                found
            } else {
                addr.dup()
            },
            None => addr.dup(),
        }
    }

    fn find_accessed_field(&self, addr: &NormalizedAddr, base: &CExpr, depth: u32) -> (r: Option<String>)
        ensures
            view_opt_text(r) == self@.accessed_field(addr@, base@, depth as int),
        decreases self.left, 19int,
    {
        if addr.base.is_slot() {
            return None;
        }
        if let Some(name) = self.oracle_field_name_for_addr(addr) {
            return Some(name);
        }
        let found = advance(self.normalized_addr_from_visible_expr(base, depth), addr.offset_bytes);
        if let Some(found) = found {
            if let Some(name) = self.oracle_field_name_for_addr(&found) {
                return Some(name);
            }
        }
        self.oracle_member_name(None, base, addr.offset_bytes)
    }

    fn render_accessed(
        &self,
        addr: &NormalizedAddr,
        base: CExpr,
        size: u32,
        depth: u32,
        visited: &Vec<String>,
    ) -> (r: Option<CExpr>)
        requires
            depth <= self@.render_bound(),
        ensures
            view_opt(r) == self@.access_expr_from(
                addr@,
                base@,
                size,
                depth as int,
                texts(visited@),
            ),
        decreases self.left, 22int, self@.render_bound() + 2 - depth, 5int, 0int,
    {
        let top = self.max_render_depth();
        let field = self.find_accessed_field(addr, &base, depth + 1);
        if addr.index.is_some() {
            let index = match self.render_index(&addr.index, depth, visited) {
                Some(index) => index,
                None => {
                    return None;
                },
            };
            let ty = self.infer_elem_type_from_base_ref(
                &addr.base,
                max_of(size_of_scale(addr.scale_bytes), size),
            );
            let element = self.write_element(&base, index, addr.scale_bytes, ty);
            if let Some(field) = field {
                return Some(member_access_expr(element, field));
            }
            if addr.offset_bytes == 0 {
                return Some(element);
            }
            return None;
        }
        if addr.offset_bytes != 0 && field.is_none() && !addr.base.is_slot() {
            if let Some(e) = self.write_fixed_element(addr, &base, size) {
                return Some(e);
            }
        }
        if let Some(field) = field {
            return Some(member_access_expr(base, field));
        }
        if addr.base.is_slot() && addr.offset_bytes == 0 {
            return Some(base);
        }
        None
    }

    fn render_access_within(
        &self,
        addr: &NormalizedAddr,
        elem_size: u32,
        depth: u32,
        visited: &Vec<String>,
    ) -> (r: Option<CExpr>)
        ensures
            view_opt(r) == self@.access_within(addr@, elem_size, depth as int, texts(visited@)),
        decreases self.left, 22int, self@.render_bound() + 2 - depth, 7int, 0int,
    {
        if depth > self.max_render_depth() {
            return None;
        }
        if let Some(exact) = self.exact_named_object_expr_for_addr(addr) {
            return Some(exact);
        }
        let held = self.render_addressed_slot(addr, depth + 1, visited);
        if held.is_some() {
            return held;
        }
        let raw = match self.render_base_ref_expr(&addr.base, false, depth + 1, visited) {
            Some(raw) => raw,
            None => {
                return None;
            },
        };
        let eff = self.accessed_addr(addr, &raw, depth + 1, visited);
        let through = self.render_addressed_slot(&eff, depth + 1, visited);
        if through.is_some() {
            return through;
        }
        let base = if !eff.same(addr) {
            match self.render_base_ref_expr(&eff.base, false, depth + 1, visited) {
                Some(base) => base,
                None => raw,
            }
        } else {
            raw
        };
        self.render_accessed(&eff, base, elem_size, depth, visited)
    }

    fn render_first_load(
        &self,
        addr: &NormalizedAddr,
        size: u32,
        depth: u32,
        visited: &Vec<String>,
    ) -> (r: Option<CExpr>)
        ensures
            view_opt(r) == self@.first_load(addr@, size, depth as int, texts(visited@)),
        decreases self.left, 22int, self@.render_bound() + 2 - depth, 6int, 0int,
    {
        if addr.index.is_some() || addr.offset_bytes != 0 || addr.base.is_slot() || depth
            > self.max_render_depth() {
            return None;
        }
        match self.render_base_ref_expr(&addr.base, false, depth + 1, visited) {
            Some(base) => {
                let pointer = self.normalize_pointer_base_expr(&base, 0);
                let ty = self.infer_elem_type_from_base_ref(&addr.base, max_of(size, 1));
                if self.should_render_zero_offset_load_as_subscript(&pointer, &ty) {
                    let b = self.cast_element_base(pointer, ty);
                    Some(CExpr::subscript(b, CExpr::IntLit(0)))
                } else {
                    None
                }
            },
            None => None,
        }
    }

    fn render_load_within(
        &self,
        addr: &NormalizedAddr,
        elem_size: u32,
        depth: u32,
        visited: &Vec<String>,
    ) -> (r: Option<CExpr>)
        ensures
            view_opt(r) == self@.load_within(addr@, elem_size, depth as int, texts(visited@)),
        decreases self.left, 22int, self@.render_bound() + 2 - depth, 8int, 0int,
    {
        if depth > self.max_render_depth() {
            return None;
        }
        let mut show = true;
        if !self.allow_exact_named_object_expr_for_load_addr(addr) {
            if let Some(probe) = self.exact_named_object_expr_for_addr(addr) {
                if let Some(base) = self.render_base_ref_expr(
                    &addr.base,
                    false,
                    depth + 1,
                    visited,
                ) {
                    show = !base.same(&probe);
                }
            }
        }
        if show {
            let direct = self.render_access_within(addr, elem_size, depth, visited);
            if direct.is_some() {
                return direct;
            }
        }
        let head = self.render_first_load(addr, elem_size, depth, visited);
        if head.is_some() {
            return head;
        }
        match self.render_address_expr_from_addr(addr, depth + 1, visited) {
            Some(e) => Some(CExpr::deref(e)),
            None => None,
        }
    }

    /// What a meaning is written as.
    pub fn render_semantic_value(&self, m: &SemanticValue, depth: u32, visited: &Vec<String>) -> (r: Option<
        CExpr,
    >)
        ensures
            view_opt(r) == self@.meaning_expr(m@, depth as int, texts(visited@)),
        decreases self.left, 23int,
    {
        self.render_meaning_within(m, shallow_depth(depth), visited)
    }

    /// What an access is written as.
    pub fn render_access_expr_from_addr(
        &self,
        addr: &NormalizedAddr,
        elem_size: u32,
        depth: u32,
        visited: &Vec<String>,
    ) -> (r: Option<CExpr>)
        ensures
            view_opt(r) == self@.access_expr(addr@, elem_size, depth as int, texts(visited@)),
        decreases self.left, 23int,
    {
        self.render_access_within(addr, elem_size, shallow_depth(depth), visited)
    }

    /// What a load is written as.
    pub fn render_load_from_addr(
        &self,
        addr: &NormalizedAddr,
        elem_size: u32,
        depth: u32,
        visited: &Vec<String>,
    ) -> (r: Option<CExpr>)
        ensures
            view_opt(r) == self@.load_expr(addr@, elem_size, depth as int, texts(visited@)),
    {
        self.render_load_within(addr, elem_size, shallow_depth(depth), visited)
    }

    /// What a name means, written out.
    pub fn render_semantic_value_by_name(&self, name: &str, depth: u32, visited: &Vec<String>) -> (r: Option<
        CExpr,
    >)
        ensures
            view_opt(r) == self@.name_meaning(name@, depth as int, texts(visited@)),
        decreases self.left, 25int,
    {
        if self.is_marked("meaning:", name) {
            return Some(self.resolution_cycle_fallback(name));
        }
        let key = self.resolution_name_key("sem", name);
        if depth > MAX_SEMANTIC_RENDER_DEPTH || has_name(visited, &key) {
            return None;
        }
        let more = self.with_mark("meaning:", name);
        let progress = self.resolution_name_key("sem-progress", name);
        if has_name(&more, &progress) {
            return None;
        }
        let within = with_name(visited, &key);
        let marks = with_name(&more, &progress);
        self.now_marking(&marks).render_own_meaning(
            name,
            depth,
            &within,
        )
    }

    fn render_own_meaning(&self, name: &str, depth: u32, visited: &Vec<String>) -> (r: Option<CExpr>)
        requires
            depth <= MAX_SEMANTIC_RENDER_DEPTH,
        ensures
            view_opt(r) == self@.own_meaning(name@, depth as int, texts(visited@)),
        decreases self.left, 24int,
    {
        if let Some(m) = self.lookup_semantic_value(name) {
            if let Some(e) = self.render_semantic_value(m, depth + 1, visited) {
                return Some(e);
            }
        }
        if let Some(ssa) = self.find_ssa_name_for_rendered_alias(name) {
            if !same(&ssa, name) {
                if let Some(m) = self.lookup_semantic_value(&ssa) {
                    if let Some(e) = self.render_semantic_value(m, depth + 1, visited) {
                        return Some(e);
                    }
                }
            }
        }
        self.resolve_expr_from_phi_sources(name, depth + 1, visited)
    }

    /// The memory access that a name stands for.
    pub fn render_memory_access_by_name(
        &self,
        name: &str,
        elem_size: u32,
        depth: u32,
        visited: &Vec<String>,
    ) -> (r: Option<CExpr>)
        ensures
            view_opt(r) == self@.named_access(name@, elem_size, depth as int, texts(visited@)),
    {
        match self.lookup_semantic_value(name) {
            Some(SemanticValue::Address(addr)) => self.render_load_from_addr(
                addr,
                elem_size,
                depth,
                visited,
            ),
            Some(m) => self.render_semantic_value(m, depth, visited),
            None => None,
        }
    }

    /// A load of a type through an address.
    pub fn typed_deref_expr(&self, addr: &SSAVar, e: CExpr, ty: CType) -> (r: CExpr)
        ensures
            r@ == self@.typed_load(addr@, e@, ty@),
    {
        let size: u32 = match ty.bits() {
            Some(bits) => bits_to_bytes(bits),
            None => 0,
        };
        if let Some(shape) = self.normalized_addr_from_visible_expr(&e, 0) {
            let none: Vec<String> = Vec::new();
            assert(texts(none@) =~= Seq::<Seq<char>>::empty());
            if let Some(access) = self.render_access_expr_from_addr(&shape, size, 0, &none) {
                return access;
            }
        }
        let target = CType::ptr(ty);
        CExpr::deref(self.cast_addr_expr_to_ptr_if_needed(addr, e, &target))
    }
}

/// The low 32 bits of the distance of a scale from zero.
pub open spec fn scale_size(scale: i64) -> u32 {
    (crate::conc::word::abs(scale as int) % 0x1_0000_0000) as u32
}

fn size_of_scale(scale: i64) -> (r: u32)
    ensures
        r == scale_size(scale),
{
    (crate::conc::word::magnitude(scale) % 0x1_0000_0000) as u32
}

/// A literal index counts elements: its number, with its sign, times the size of an
/// element is the offset in bytes.
pub proof fn an_index_counts_elements(offset: i64, size: u32, env: spec_fn(Expr) -> int)
    requires
        size > 0,
        whole_elements(offset, size),
        offset > i64::MIN,
    ensures
        eval(index_literal(offset, size), env) * size == offset,
{
    let m = crate::conc::word::abs(offset as int);
    let q = m / size as int;
    vstd::arithmetic::div_mod::lemma_fundamental_div_mod(m, size as int);
    assert(0 <= q <= m) by (nonlinear_arith)
        requires
            m == size * q,
            m >= 0,
            size > 0,
    ;
    assert(q * size == m && (-q) * size == -m) by (nonlinear_arith)
        requires
            m == size * q,
    ;
    assert(eval(Expr::IntLit(q as i64), env) == q);
    if offset < 0 {
        assert(eval(index_literal(offset, size), env) == -q);
    }
}

/// An offset is a whole number of elements exactly where it is a multiple of their size.
pub proof fn whole_elements_are_multiples(offset: i64, size: u32)
    requires
        size > 0,
    ensures
        whole_elements(offset, size) <==> exists|n: int| #[trigger] (n * size) == offset,
{
    let m = crate::conc::word::abs(offset as int);
    if whole_elements(offset, size) {
        vstd::arithmetic::div_mod::lemma_fundamental_div_mod(m, size as int);
        let q = m / size as int;
        let n: int = if offset < 0 {
            -q
        } else {
            q
        };
        assert(n * size == offset) by (nonlinear_arith)
            requires
                m == size * q,
                n == (if offset < 0 {
                    -q
                } else {
                    q
                }),
                m == (if offset < 0 {
                    -(offset as int)
                } else {
                    offset as int
                }),
        ;
    }
    if exists|n: int| #[trigger] (n * size) == offset {
        let n = choose|n: int| #[trigger] (n * size) == offset;
        let k: int = if offset < 0 {
            -n
        } else {
            n
        };
        assert(m == k * size) by (nonlinear_arith)
            requires
                n * size == offset,
                k == (if offset < 0 {
                    -n
                } else {
                    n
                }),
                m == (if offset < 0 {
                    -(offset as int)
                } else {
                    offset as int
                }),
        ;
        vstd::arithmetic::div_mod::lemma_mod_multiples_basic(k, size as int);
    }
}

/// The text of an address comes out as the base, plus the index times its scale, plus the
/// offset, in words of eight bytes.
pub proof fn an_address_adds_up(
    base: Expr,
    index: Option<Expr>,
    scale: i64,
    offset: i64,
    env: spec_fn(Expr) -> int,
)
    requires
        scale > i64::MIN,
        offset > i64::MIN,
        scale != 0,
    ensures
        eval(address_text(base, index, scale, offset), env) == eval(base, env) + (match index {
            Some(i) => eval(i, env) * scale,
            None => 0,
        }) + offset,
{
    let far = distance(offset);
    assert(eval(Expr::IntLit(far), env) == far);
    let step = distance(scale);
    assert(eval(Expr::IntLit(step), env) == step);
    if let Some(i) = index {
        let x = eval(i, env);
        assert(x * 1 == x && x * (-1) == -x && x * (-scale) == -(x * scale)) by (nonlinear_arith);
        let scaled = if -1 <= scale <= 1 {
            i
        } else {
            binary(BinaryOp::Mul, i, Expr::IntLit(step))
        };
        assert(eval(scaled, env) == x * step);
        let moved = stepped(base, scale, scaled);
        assert(eval(moved, env) == eval(base, env) + x * scale);
        assert(eval(stepped(moved, offset, Expr::IntLit(far)), env) == eval(moved, env) + offset);
    } else {
        assert(eval(stepped(base, offset, Expr::IntLit(far)), env) == eval(base, env) + offset);
    }
}

impl Reading {
    /// An access at a fixed distance that is written as an element is the element that
    /// lies there: the index times the size of an element is the distance in bytes, and
    /// the element is one of the base's own elements.
    pub proof fn a_fixed_element_lies_at_its_distance(
        &self,
        addr: Addr,
        base: Expr,
        size: u32,
        env: spec_fn(Expr) -> int,
    )
        requires
            addr.offset > i64::MIN,
            self.fixed_element(addr, base, size) is Some,
        ensures
            ({
                let bytes = self.element_bytes(self.element_type(addr.base, size), size);
                self.fixed_element(addr, base, size) matches Some(Expr::Subscript { base: b, index }) && eval(
                    *index,
                    env,
                ) * bytes == addr.offset && *b == self.element_base(
                    self.pointer_base(base, 0),
                    self.element_type(addr.base, size),
                )
            }),
    {
        let bytes = self.element_bytes(self.element_type(addr.base, size), size);
        assert(bytes > 0);
        an_index_counts_elements(addr.offset, bytes, env);
    }

    /// Elements have the size of their type in whole bytes, or the size of the access where
    /// the type has none; never none at all.
    pub proof fn elements_have_the_size_of_their_type(&self, ty: Type, size: u32)
        ensures
            ty.width() matches Some(bits) ==> 8 * (self.element_bytes(ty, size) - 1) < larger(bits, 1) <= 8
                * self.element_bytes(ty, size),
            ty.width() is None ==> self.element_bytes(ty, size) == if size == 0 {
                1
            } else {
                size
            },
    {
    }

    /// An access without an index, away from its base, with no field known, is written as
    /// the element at that distance where there is one.
    pub proof fn an_access_away_from_its_base_is_an_element(
        &self,
        addr: Addr,
        base: Expr,
        size: u32,
        depth: int,
        seen: Seq<Seq<char>>,
        env: spec_fn(Expr) -> int,
    )
        requires
            addr.index is None,
            addr.offset != 0,
            addr.offset > i64::MIN,
            !(addr.base is StackSlot),
            self.accessed_field(addr, base, depth + 1) is None,
        ensures
            ({
                let bytes = self.element_bytes(self.element_type(addr.base, size), size);
                match self.access_expr_from(addr, base, size, depth, seen) {
                    Some(Expr::Subscript { base: b, index }) => eval(*index, env) * bytes
                        == addr.offset,
                    Some(_) => false,
                    None => !indexable(self.element_type(addr.base, size)) || !exists|n: int| #[trigger]
                        (n * bytes) == addr.offset,
                }
            }),
    {
        let ty = self.element_type(addr.base, size);
        let bytes = self.element_bytes(ty, size);
        assert(bytes > 0);
        whole_elements_are_multiples(addr.offset, bytes);
        if self.fixed_element(addr, base, size) is Some {
            self.a_fixed_element_lies_at_its_distance(addr, base, size, env);
        }
    }
}

impl Reading {
    /// A named stack slot below the frame is shown by its name: an access to it is the name, a
    /// load from it is the name, and its address is the address of the name.
    pub proof fn a_named_slot_is_shown_by_its_name(
        &self,
        addr: Addr,
        slot: i64,
        name: Seq<char>,
        size: u32,
        depth: int,
        seen: Seq<Seq<char>>,
    )
        requires
            addr.base matches Base::StackSlot(b) && addr.index is None && b + addr.offset == slot,
            slot < 0,
            offset_name(self.ctx.answers.stack_names@, slot) == Some(name),
            self.telling(name),
            self.exact_object(addr) is None,
        ensures
            self.access_expr(addr, size, depth, seen) == Some(Expr::Var(name)),
            self.load_expr(addr, size, depth, seen) == Some(Expr::Var(name)),
            depth < MAX_SEMANTIC_RENDER_DEPTH ==> (self.address_expr(addr, depth, seen) matches Some(
                Expr::AddrOf(inner),
            ) && *inner == Expr::Var(name)),
    {
        let d = shallow(depth);
        assert(slot_sum(addr) == Some(slot));
        assert(self.slot_alias(Some(slot)) == Some(Expr::Var(name)));
        assert(below(slot_sum(addr)) == Some(slot));
        let offset = self.stack_offset(addr, d + 1, seen);
        assert(offset is None || offset == Some(slot));
        assert(self.addressed_slot(addr, d + 1, seen) == Some(Expr::Var(name)));
        assert(d <= self.render_bound());
        assert(self.access_within(addr, size, d, seen) == Some(Expr::Var(name)));
        assert(self.load_within(addr, size, d, seen) == Some(Expr::Var(name)));
        if depth < MAX_SEMANTIC_RENDER_DEPTH {
            assert(self.stack_offset(addr, depth + 1, seen) == Some(slot));
            assert(self.slot_reference(Some(slot), depth + 1, seen) == Some(addr_of(Expr::Var(name))));
        }
    }

    /// The bytes of a slot are those of its base and its offset together: slots that add up to
    /// one place are shown alike.
    pub proof fn slots_at_one_place_add_up_alike(&self, a: Addr, b: Addr)
        requires
            a.base matches Base::StackSlot(x) && b.base matches Base::StackSlot(y) && x + a.offset == y
                + b.offset,
            a.index is None,
            b.index is None,
        ensures
            slot_sum(a) == slot_sum(b),
    {
    }

    /// An access with a known field is the field: of the element where there is an index, of
    /// the base where there is none.
    pub proof fn a_known_field_is_shown(
        &self,
        addr: Addr,
        base: Expr,
        size: u32,
        depth: int,
        seen: Seq<Seq<char>>,
        field: Seq<char>,
    )
        requires
            self.accessed_field(addr, base, depth + 1) == Some(field),
            addr.index is None,
        ensures
            self.access_expr_from(addr, base, size, depth, seen) == Some(field_of(base, field)),
    {
    }

    /// An element is reached by its base and its index, the right way round: without a reason
    /// to swap them, the base stays the base, and the index keeps its number, or is negated
    /// where the scale is negative.
    pub proof fn an_element_keeps_its_index(
        &self,
        base: Expr,
        index: Expr,
        scale: i64,
        ty: Type,
        env: spec_fn(Expr) -> int,
    )
        requires
            self.index_of(index, 0) is None,
            self.pointer_like(self.pointer_base(base, 0)),
        ensures
            self.element(base, index, scale, ty) matches Expr::Subscript { base: b, index: i } && *b
                == self.element_base(self.pointer_base(base, 0), ty) && eval(*i, env) == if scale < 0 {
                -eval(index, env)
            } else {
                eval(index, env)
            },
    {
    }
}

impl Reading {
    /// A load that is neither an access nor a first element is the dereference of its address.
    pub proof fn other_loads_are_dereferences(
        &self,
        addr: Addr,
        size: u32,
        depth: int,
        seen: Seq<Seq<char>>,
        at: Expr,
    )
        requires
            self.access_expr(addr, size, depth, seen) is None,
            self.first_load(addr, size, shallow(depth), seen) is None,
            self.address_expr(addr, shallow(depth) + 1, seen) == Some(at),
        ensures
            self.load_expr(addr, size, depth, seen) matches Some(Expr::Deref(inner)) && *inner == at,
    {
        assert(shallow(depth) <= self.render_bound());
    }

    /// What is written as a first element is the element at the base itself.
    pub proof fn a_first_element_lies_at_its_base(
        &self,
        addr: Addr,
        size: u32,
        depth: int,
        seen: Seq<Seq<char>>,
        env: spec_fn(Expr) -> int,
    )
        requires
            self.first_load(addr, size, depth, seen) is Some,
        ensures
            addr.index is None,
            addr.offset == 0,
            self.first_load(addr, size, depth, seen) matches Some(Expr::Subscript { base, index }) && eval(
                *index,
                env,
            ) == 0,
    {
    }
}

} // verus!
