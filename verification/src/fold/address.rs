//! Addresses: from the expression that writes one to its base, index and offset.

use crate::ast::expr::{view_opt, BinaryOp, CExpr, Expr};
use crate::ast::types::CType;
use crate::fold::context::MAX_SEMANTIC_RENDER_DEPTH;
use crate::fold::facts::{
    slot_addr, val_of, var_addr, view_opt_addr, view_opt_val, Addr, NormalizedAddr, Val, ValueRef,
};
use crate::fold::levels::{Folder, Reading};
use crate::fold::literal::{
    checked_difference, checked_product, checked_sum, clamp, clamped_difference, clamped_sum, fit,
    literal, literal_to_i64, power_of_two,
};
use crate::fold::names::{generic_arg, is_generic_arg_name, name_parts, ssa_name_parts};
use crate::fold::tables::{entry, find, find_named_name, named_expr, named_name, view_opt_text};
use crate::ssa::Var;
use crate::text::{
    comes_before, copy_of, in_list, listed, lower, rsplit_once, same, same_ignoring_case, same_lower, split_last,
    text_before, texts, to_lower,
};
use vstd::arithmetic::power2::pow2;
use vstd::prelude::*;

verus! {

/// The first of two answers that is there.
pub open spec fn first<T>(a: Option<T>, b: Option<T>) -> Option<T> {
    match a {
        Some(_) => a,
        None => b,
    }
}

/// A value with a scale, as a mathematical value.
pub open spec fn view_scaled(v: Option<(ValueRef, i64)>) -> Option<(Val, i64)> {
    match v {
        Some((v, s)) => Some((v@, s)),
        None => None,
    }
}

/// A value with a scale and an offset, as a mathematical value.
pub open spec fn view_scaled_offset(v: Option<(ValueRef, i64, i64)>) -> Option<(Val, i64, i64)> {
    match v {
        Some((v, s, o)) => Some((v@, s, o)),
        None => None,
    }
}

/// A scaled value with its scale multiplied.
pub open spec fn times(v: Option<(Val, i64)>, factor: int) -> Option<(Val, i64)> {
    match v {
        Some((index, scale)) => match fit(scale * factor) {
            Some(s) => Some((index, s)),
            None => None,
        },
        None => None,
    }
}

fn scaled_by(v: Option<(ValueRef, i64)>, factor: i64) -> (r: Option<(ValueRef, i64)>)
    ensures
        view_scaled(r) == times(view_scaled(v), factor as int),
{
    match v {
        Some((index, scale)) => match checked_product(scale, factor) {
            Some(s) => Some((index, s)),
            None => None,
        },
        None => None,
    }
}

/// The sum or difference of two multiples of the same value.
pub open spec fn combined(a: Option<(Val, i64)>, b: Option<(Val, i64)>, sign: int) -> Option<(Val, i64)> {
    match (a, b) {
        (Some((x, s)), Some((y, t))) => if x == y {
            match fit(s + sign * t) {
                Some(scale) => Some((x, scale)),
                None => None,
            }
        } else {
            None
        },
        _ => None,
    }
}

/// An address moved by a number of bytes, held within 64 bits.
pub open spec fn moved(a: Option<Addr>, delta: int) -> Option<Addr> {
    match a {
        Some(a) => Some(Addr { offset: clamp(a.offset + delta), ..a }),
        None => None,
    }
}

/// An address without an index, given one.
pub open spec fn indexed(a: Option<Addr>, index: Val, scale: i64, delta: int) -> Option<Addr> {
    match a {
        Some(a) => if a.index is None {
            Some(Addr { index: Some(index), scale, offset: clamp(a.offset + delta), ..a })
        } else {
            None
        },
        None => None,
    }
}

fn move_addr(a: Option<NormalizedAddr>, delta: i64) -> (r: Option<NormalizedAddr>)
    ensures
        view_opt_addr(r) == moved(view_opt_addr(a), delta as int),
{
    match a {
        Some(mut addr) => {
            addr.offset_bytes = clamped_sum(addr.offset_bytes, delta);
            Some(addr)
        },
        None => None,
    }
}

fn move_addr_back(a: Option<NormalizedAddr>, delta: i64) -> (r: Option<NormalizedAddr>)
    ensures
        view_opt_addr(r) == moved(view_opt_addr(a), -(delta as int)),
{
    match a {
        Some(mut addr) => {
            addr.offset_bytes = clamped_difference(addr.offset_bytes, delta);
            Some(addr)
        },
        None => None,
    }
}

fn index_addr(a: Option<NormalizedAddr>, index: ValueRef, scale: i64, delta: i64) -> (r: Option<
    NormalizedAddr,
>)
    ensures
        view_opt_addr(r) == indexed(view_opt_addr(a), index@, scale, delta as int),
{
    match a {
        Some(mut addr) => {
            if addr.index.is_some() {
                return None;
            }
            addr.index = Some(index);
            addr.scale_bytes = scale;
            addr.offset_bytes = clamped_sum(addr.offset_bytes, delta);
            Some(addr)
        },
        None => None,
    }
}

fn index_addr_back(a: Option<NormalizedAddr>, index: ValueRef, scale: i64, delta: i64) -> (r: Option<
    NormalizedAddr,
>)
    ensures
        view_opt_addr(r) == indexed(view_opt_addr(a), index@, scale, -(delta as int)),
{
    match a {
        Some(mut addr) => {
            if addr.index.is_some() {
                return None;
            }
            addr.index = Some(index);
            addr.scale_bytes = scale;
            addr.offset_bytes = clamped_difference(addr.offset_bytes, delta);
            Some(addr)
        },
        None => None,
    }
}

/// The earlier of two names in character order.
pub open spec fn earlier(a: Option<Seq<char>>, b: Seq<char>) -> Option<Seq<char>> {
    match a {
        Some(a) => if text_before(b, a, 0) {
            Some(b)
        } else {
            Some(a)
        },
        None => Some(b),
    }
}

/// Of the first `n` aliased variables at version zero, the earliest that is
/// wanted: by alias, or by base.
pub open spec fn entry_arg_upto(
    aliases: Seq<(String, String)>,
    by_alias: bool,
    wanted: Seq<char>,
    n: int,
) -> Option<Seq<char>>
    decreases n,
{
    if n <= 0 {
        None
    } else {
        let before = entry_arg_upto(aliases, by_alias, wanted, n - 1);
        let (ssa, alias) = (aliases[n - 1].0@, aliases[n - 1].1@);
        let (base, version) = name_parts(ssa);
        if version == 0 && same_ignoring_case(
            if by_alias {
                alias
            } else {
                base
            },
            wanted,
        ) {
            earlier(before, ssa)
        } else {
            before
        }
    }
}

fn find_entry_arg(aliases: &Vec<(String, String)>, by_alias: bool, wanted: &str) -> (r: Option<
    String,
>)
    ensures
        view_opt_text(r) == entry_arg_upto(aliases@, by_alias, wanted@, aliases@.len() as int),
{
    let mut best: Option<String> = None;
    let mut i: usize = 0;
    while i < aliases.len()
        invariant
            i <= aliases@.len(),
            view_opt_text(best) == entry_arg_upto(aliases@, by_alias, wanted@, i as int),
        decreases aliases@.len() - i,
    {
        let (base, version) = ssa_name_parts(&aliases[i].0);
        let matches_wanted = if by_alias {
            same_lower(&aliases[i].1, wanted)
        } else {
            same_lower(&base, wanted)
        };
        if version == 0 && matches_wanted {
            let take = match &best {
                Some(current) => comes_before(&aliases[i].0, current),
                None => true,
            };
            if take {
                best = Some(copy_of(&aliases[i].0));
            }
        }
        i = i + 1;
    }
    best
}

/// A checked sum of optional numbers.
pub open spec fn add_opt(a: Option<u64>, b: Option<u64>) -> Option<u64> {
    match (a, b) {
        (Some(x), Some(y)) => if x + y <= u64::MAX {
            Some((x + y) as u64)
        } else {
            None
        },
        _ => None,
    }
}

/// A checked difference of optional numbers.
pub open spec fn sub_opt(a: Option<u64>, b: Option<u64>) -> Option<u64> {
    match (a, b) {
        (Some(x), Some(y)) => if x >= y {
            Some((x - y) as u64)
        } else {
            None
        },
        _ => None,
    }
}

/// A checked sum of optional numbers.
pub fn checked_add_opt(a: Option<u64>, b: Option<u64>) -> (r: Option<u64>)
    ensures
        r == add_opt(a, b),
{
    match (a, b) {
        (Some(x), Some(y)) => x.checked_add(y),
        _ => None,
    }
}

/// A checked difference of optional numbers.
pub fn checked_sub_opt(a: Option<u64>, b: Option<u64>) -> (r: Option<u64>)
    ensures
        r == sub_opt(a, b),
{
    match (a, b) {
        (Some(x), Some(y)) => x.checked_sub(y),
        _ => None,
    }
}

impl Reading {
    /// The variable of a parameter as it arrives, behind a shown name: the one found
    /// before, or the one that the aliases list.
    pub open spec fn entry_arg(&self, name: Seq<char>) -> Option<Seq<char>> {
        match entry(self.ctx.kept.entry_args@, name) {
            Some(kept) => view_opt_text(kept),
            None => self.listed_entry_arg(name),
        }
    }

    /// The variable of a parameter as it arrives, as the aliases list it.
    pub open spec fn listed_entry_arg(&self, name: Seq<char>) -> Option<Seq<char>> {
        let n = self.ctx.facts.var_aliases@.len() as int;
        if generic_arg(name) {
            entry_arg_upto(self.ctx.facts.var_aliases@, true, name, n)
        } else {
            let base = lower(
                match split_last(name, '_') {
                    Some((root, _)) => root,
                    None => name,
                },
            );
            if named_name(self.ctx.answers.register_args@, base) is None {
                None
            } else {
                entry_arg_upto(self.ctx.facts.var_aliases@, false, base, n)
            }
        }
    }

    /// The value that an expression names.
    pub open spec fn named_value(&self, e: Expr) -> Option<Val>
        decreases e,
    {
        match e {
            Expr::Var(name) => match self.visible_var(name) {
                Some(var) => Some(val_of(var)),
                None => None,
            },
            Expr::Paren(inner) => self.named_value(*inner),
            Expr::Cast { ty, expr } => self.named_value(*expr),
            _ => None,
        }
    }

    /// An expression as a multiple of one value: `x`, `x * 4`, `x << 2`, `x + x`.
    pub open spec fn multiple(&self, e: Expr, depth: int) -> Option<(Val, i64)>
        decreases e,
    {
        if depth > MAX_SEMANTIC_RENDER_DEPTH {
            None
        } else {
            match e {
                Expr::Binary { op, left, right } => match op {
                    BinaryOp::Add => combined(
                        self.multiple(*left, depth + 1),
                        self.multiple(*right, depth + 1),
                        1,
                    ),
                    BinaryOp::Sub => if self.zero_valued(*left, depth + 1) {
                        times(self.multiple(*right, depth + 1), -1)
                    } else {
                        combined(
                            self.multiple(*left, depth + 1),
                            self.multiple(*right, depth + 1),
                            -1,
                        )
                    },
                    BinaryOp::Mul => match (literal(*right), literal(*left)) {
                        (Some(scale), _) => times(self.multiple(*left, depth + 1), scale as int),
                        (None, Some(scale)) => times(
                            self.multiple(*right, depth + 1),
                            scale as int,
                        ),
                        _ => None,
                    },
                    BinaryOp::Shl => match literal(*right) {
                        Some(shift) => if 0 <= shift <= 62 {
                            times(self.multiple(*left, depth + 1), pow2(shift as nat) as int)
                        } else {
                            None
                        },
                        None => None,
                    },
                    _ => None,
                },
                Expr::Paren(inner) => self.multiple(*inner, depth + 1),
                Expr::Cast { ty, expr } => self.multiple(*expr, depth + 1),
                _ => match self.named_value(e) {
                    Some(v) => Some((v, 1i64)),
                    None => None,
                },
            }
        }
    }

    /// An expression as a multiple of one value and an offset.
    pub open spec fn multiple_and_offset(&self, e: Expr, depth: int) -> Option<(Val, i64, i64)>
        decreases e,
    {
        if depth > MAX_SEMANTIC_RENDER_DEPTH {
            None
        } else {
            let whole = match self.multiple(e, depth + 1) {
                Some((index, scale)) => Some((index, scale, 0i64)),
                None => None,
            };
            match e {
                Expr::Binary { op, left, right } => {
                    let from_left = if (op == BinaryOp::Add || op == BinaryOp::Sub) && literal(
                        *right,
                    ) is Some {
                        self.multiple_and_offset(*left, depth + 1)
                    } else {
                        None
                    };
                    let from_right = if op == BinaryOp::Add && literal(*left) is Some {
                        self.multiple_and_offset(*right, depth + 1)
                    } else {
                        None
                    };
                    match (from_left, from_right) {
                        (Some((index, scale, offset)), _) => shifted(
                            index,
                            scale,
                            if op == BinaryOp::Add {
                                offset + literal(*right)->0
                            } else {
                                offset - literal(*right)->0
                            },
                        ),
                        (None, Some((index, scale, offset))) => shifted(
                            index,
                            scale,
                            offset + literal(*left)->0,
                        ),
                        _ => whole,
                    }
                },
                Expr::Paren(inner) => self.multiple_and_offset(*inner, depth + 1),
                Expr::Cast { ty, expr } => self.multiple_and_offset(*expr, depth + 1),
                _ => whole,
            }
        }
    }

    /// Is a name shown for what it points to?
    pub open spec fn direct_pointer(&self, name: Seq<char>) -> bool {
        listed(self.ctx.answers.semantic_bindings@, name) || named_name(
            self.ctx.answers.arg_aliases@,
            name,
        ) is Some || (self.hint(name) matches Some(ty) && (ty is Pointer || ty is Array || ty
            is Struct || ty is Union))
    }

    /// The definition through which a name's address is read.
    pub open spec fn address_definition(&self, name: Seq<char>) -> Option<Expr> {
        first(self.defined_as(name), named_expr(self.ctx.facts.definitions@, name))
    }

    /// The address that a name stands for by itself: a stack slot, or the
    /// variable's value. A named local stands for a value, not for an address.
    pub open spec fn own_address(&self, name: Seq<char>) -> Option<Addr> {
        let offset = self.storage_offset(name);
        if self.named_local(name) || (self.telling(name) && offset is Some) {
            None
        } else if offset is Some {
            Some(slot_addr(offset->0))
        } else {
            match self.visible_var(name) {
                Some(var) => Some(var_addr(var)),
                None => None,
            }
        }
    }

    /// The address that an expression writes, `e` being what a name stands for:
    /// none where it is the name itself.
    pub open spec fn address_behind(&self, name: Seq<char>, e: Option<Expr>, depth: int) -> Option<Addr>
        decreases MAX_SEMANTIC_RENDER_DEPTH + 2 - depth, 1int,
    {
        match e {
            Some(e) => if e == Expr::Var(name) || depth > MAX_SEMANTIC_RENDER_DEPTH {
                None
            } else {
                self.address(e, depth)
            },
            None => None,
        }
    }

    /// The address of a sum.
    pub open spec fn address_sum(&self, left: Expr, right: Expr, depth: int) -> Option<Addr>
        decreases MAX_SEMANTIC_RENDER_DEPTH + 2 - depth, 1int,
    {
        if depth > MAX_SEMANTIC_RENDER_DEPTH {
            None
        } else {
            let l = self.address(left, depth);
            let r = self.address(right, depth);
            let plus_right = match literal(right) {
                Some(delta) => moved(l, delta as int),
                None => None,
            };
            let plus_left = match literal(left) {
                Some(delta) => moved(r, delta as int),
                None => None,
            };
            first(
                plus_right,
                first(
                    plus_left,
                    first(
                        self.index_onto(l, right, depth),
                        self.index_onto(r, left, depth),
                    ),
                ),
            )
        }
    }

    /// An address with an expression as its index.
    pub open spec fn index_onto(&self, base: Option<Addr>, index: Expr, depth: int) -> Option<Addr> {
        let plain = match self.multiple(index, depth) {
            Some((v, scale)) => indexed(base, v, scale, 0),
            None => None,
        };
        let with_offset = match self.multiple_and_offset(index, depth) {
            Some((v, scale, offset)) => indexed(base, v, scale, offset as int),
            None => None,
        };
        first(plain, with_offset)
    }

    /// The address of a difference.
    pub open spec fn address_difference(&self, left: Expr, right: Expr, depth: int) -> Option<Addr>
        decreases MAX_SEMANTIC_RENDER_DEPTH + 2 - depth, 1int,
    {
        if depth > MAX_SEMANTIC_RENDER_DEPTH {
            None
        } else {
            let l = self.address(left, depth);
            let minus_right = match literal(right) {
                Some(delta) => moved(l, -(delta as int)),
                None => None,
            };
            let plain = match self.multiple(right, depth) {
                Some((v, scale)) => indexed(l, v, clamp(-(scale as int)), 0),
                None => None,
            };
            let with_offset = match self.multiple_and_offset(right, depth) {
                Some((v, scale, offset)) => indexed(
                    l,
                    v,
                    clamp(-(scale as int)),
                    -(offset as int),
                ),
                None => None,
            };
            first(minus_right, first(plain, with_offset))
        }
    }

    /// The address that a load's result stands for: through the access it is
    /// written as, or through its meaning.
    pub open spec fn address_of_load(&self, e: Expr, inner: Expr, depth: int) -> Option<Addr>
        decreases MAX_SEMANTIC_RENDER_DEPTH + 2 - depth, 1int,
    {
        if depth > MAX_SEMANTIC_RENDER_DEPTH {
            None
        } else {
            let size: u32 = if self.ctx.arch.ptr_size < 1 {
                1
            } else {
                self.ctx.arch.ptr_size
            };
            let by_access = match self.access_through(inner, size) {
                Some(access) => if access != e {
                    self.address(access, depth)
                } else {
                    None
                },
                None => None,
            };
            let meaning = self.semantic(e, depth, Seq::empty());
            let by_meaning = if meaning != e {
                self.address(meaning, depth)
            } else {
                None
            };
            first(by_access, by_meaning)
        }
    }

    /// The address that an expression writes.
    pub open spec fn address(&self, e: Expr, depth: int) -> Option<Addr>
        decreases MAX_SEMANTIC_RENDER_DEPTH + 2 - depth, 0int,
    {
        if depth > MAX_SEMANTIC_RENDER_DEPTH {
            None
        } else {
            match e {
                Expr::Paren(inner) => self.address(*inner, depth + 1),
                Expr::Cast { ty, expr } => self.address(*expr, depth + 1),
                Expr::Deref(inner) => self.address_of_load(e, *inner, depth + 1),
                Expr::Var(name) => {
                    let direct = if self.direct_pointer(name) {
                        match self.visible_var(name) {
                            Some(var) => Some(var_addr(var)),
                            None => None,
                        }
                    } else {
                        None
                    };
                    let by_meaning = self.address_behind(
                        name,
                        self.asked_meaning(name, depth + 1, Seq::empty()),
                        depth + 1,
                    );
                    let by_definition = self.address_behind(
                        name,
                        self.address_definition(name),
                        depth + 1,
                    );
                    first(
                        direct,
                        first(by_meaning, first(by_definition, self.own_address(name))),
                    )
                },
                Expr::Binary { op, left, right } => if op == BinaryOp::Add {
                    self.address_sum(*left, *right, depth + 1)
                } else if op == BinaryOp::Sub {
                    self.address_difference(*left, *right, depth + 1)
                } else {
                    None
                },
                _ => None,
            }
        }
    }
}

impl<'a> Folder<'a> {
    /// The variable of a parameter as it arrives, behind a shown name.
    pub fn preferred_entry_arg_ssa_name(&self, name: &str) -> (r: Option<String>)
        ensures
            view_opt_text(r) == self@.entry_arg(name@),
    {
        if let Some(kept) = find(&self.ctx.kept.entry_args, name) {
            return match kept {
                Some(arg) => Some(copy_of(arg)),
                None => None,
            };
        }
        if is_generic_arg_name(name) {
            return find_entry_arg(&self.ctx.facts.var_aliases, true, name);
        }
        let base = match rsplit_once(name, '_') {
            Some((root, _)) => to_lower(&root),
            None => to_lower(name),
        };
        if find_named_name(&self.ctx.answers.register_args, &base).is_none() {
            None
        } else {
            find_entry_arg(&self.ctx.facts.var_aliases, false, &base)
        }
    }

    /// The value that an expression names.
    pub fn value_ref_from_visible_expr(&self, e: &CExpr) -> (r: Option<ValueRef>)
        ensures
            view_opt_val(r) == self@.named_value(e@),
        decreases self.left, 2int, 0int, 0int, 0int, e,
    {
        match e {
            CExpr::Var(name) => match self.ssa_var_for_visible_name(name) {
                Some(var) => Some(ValueRef::from_var(var)),
                None => None,
            },
            CExpr::Paren(inner) => self.value_ref_from_visible_expr(inner),
            CExpr::Cast { ty, expr } => self.value_ref_from_visible_expr(expr),
            _ => None,
        }
    }

    /// An expression as a multiple of one value.
    pub fn extract_visible_scaled_index(&self, e: &CExpr, depth: u32) -> (r: Option<(ValueRef, i64)>)
        ensures
            view_scaled(r) == self@.multiple(e@, depth as int),
        decreases self.left, 16int, 0int, 0int, 0int, e,
    {
        if depth > MAX_SEMANTIC_RENDER_DEPTH {
            return None;
        }
        match e {
            CExpr::Binary { op, left, right } => match op {
                BinaryOp::Add => {
                    let (a, s) = match self.extract_visible_scaled_index(left, depth + 1) {
                        Some(found) => found,
                        None => {
                            return None;
                        },
                    };
                    match self.extract_visible_scaled_index(right, depth + 1) {
                        Some((b, t)) => if a.same(&b) {
                            match checked_sum(s, t) {
                                Some(scale) => Some((a, scale)),
                                None => None,
                            }
                        } else {
                            None
                        },
                        None => None,
                    }
                },
                BinaryOp::Sub => {
                    if self.expr_resolves_to_visible_zero(left, depth + 1) {
                        return scaled_by(self.extract_visible_scaled_index(right, depth + 1), -1);
                    }
                    let (a, s) = match self.extract_visible_scaled_index(left, depth + 1) {
                        Some(found) => found,
                        None => {
                            return None;
                        },
                    };
                    match self.extract_visible_scaled_index(right, depth + 1) {
                        Some((b, t)) => if a.same(&b) {
                            match checked_difference(s, t) {
                                Some(scale) => Some((a, scale)),
                                None => None,
                            }
                        } else {
                            None
                        },
                        None => None,
                    }
                },
                BinaryOp::Mul => {
                    if let Some(scale) = literal_to_i64(right) {
                        return scaled_by(self.extract_visible_scaled_index(left, depth + 1), scale);
                    }
                    match literal_to_i64(left) {
                        Some(scale) => scaled_by(
                            self.extract_visible_scaled_index(right, depth + 1),
                            scale,
                        ),
                        None => None,
                    }
                },
                BinaryOp::Shl => match literal_to_i64(right) {
                    Some(shift) => if 0 <= shift && shift <= 62 {
                        scaled_by(
                            self.extract_visible_scaled_index(left, depth + 1),
                            power_of_two(shift),
                        )
                    } else {
                        None
                    },
                    None => None,
                },
                _ => None,
            },
            CExpr::Paren(inner) => self.extract_visible_scaled_index(inner, depth + 1),
            CExpr::Cast { ty, expr } => self.extract_visible_scaled_index(expr, depth + 1),
            _ => match self.value_ref_from_visible_expr(e) {
                Some(v) => Some((v, 1)),
                None => None,
            },
        }
    }

    /// An expression as a multiple of one value and an offset.
    pub fn extract_visible_scaled_index_with_offset(&self, e: &CExpr, depth: u32) -> (r: Option<
        (ValueRef, i64, i64),
    >)
        ensures
            view_scaled_offset(r) == self@.multiple_and_offset(e@, depth as int),
        decreases self.left, 17int, 0int, 0int, 0int, e,
    {
        if depth > MAX_SEMANTIC_RENDER_DEPTH {
            return None;
        }
        match e {
            CExpr::Binary { op, left, right } => {
                if *op == BinaryOp::Add || *op == BinaryOp::Sub {
                    if let Some(delta) = literal_to_i64(right) {
                        if let Some((index, scale, offset)) =
                            self.extract_visible_scaled_index_with_offset(left, depth + 1) {
                            let total = if *op == BinaryOp::Add {
                                checked_sum(offset, delta)
                            } else {
                                checked_difference(offset, delta)
                            };
                            return match total {
                                Some(total) => Some((index, scale, total)),
                                None => None,
                            };
                        }
                    }
                }
                if *op == BinaryOp::Add {
                    if let Some(delta) = literal_to_i64(left) {
                        if let Some((index, scale, offset)) =
                            self.extract_visible_scaled_index_with_offset(right, depth + 1) {
                            return match checked_sum(offset, delta) {
                                Some(total) => Some((index, scale, total)),
                                None => None,
                            };
                        }
                    }
                }
                match self.extract_visible_scaled_index(e, depth + 1) {
                    Some((index, scale)) => Some((index, scale, 0)),
                    None => None,
                }
            },
            CExpr::Paren(inner) => self.extract_visible_scaled_index_with_offset(inner, depth + 1),
            CExpr::Cast { ty, expr } => self.extract_visible_scaled_index_with_offset(
                expr,
                depth + 1,
            ),
            _ => match self.extract_visible_scaled_index(e, depth + 1) {
                Some((index, scale)) => Some((index, scale, 0)),
                None => None,
            },
        }
    }

    fn is_direct_pointer(&self, name: &str) -> (r: bool)
        ensures
            r == self@.direct_pointer(name@),
    {
        if in_list(&self.ctx.answers.semantic_bindings, name) || self.arg_alias_for_rendered_name(
            name,
        ).is_some() {
            return true;
        }
        match self.lookup_type_hint(name) {
            Some(ty) => matches!(
                ty,
                CType::Pointer(_) | CType::Array(_, _) | CType::Struct(_) | CType::Union(_)
            ),
            None => false,
        }
    }

    /// The definition through which a name's address is read.
    pub fn find_address_definition(&self, name: &str) -> (r: Option<CExpr>)
        ensures
            view_opt(r) == self@.address_definition(name@),
        decreases self.left, 15int,
    {
        match self.lookup_definition(name) {
            Some(e) => Some(e),
            None => self.direct_definition_expr(name),
        }
    }

    fn find_own_address(&self, name: &str) -> (r: Option<NormalizedAddr>)
        ensures
            view_opt_addr(r) == self@.own_address(name@),
        decreases self.left, 3int,
    {
        let offset = self.stack_offset_for_visible_storage_name(name);
        if self.is_named_scalar_local(name) || (self.is_telling_name(name) && offset.is_some()) {
            return None;
        }
        if let Some(offset) = offset {
            return Some(NormalizedAddr::slot(offset));
        }
        match self.ssa_var_for_visible_name(name) {
            Some(var) => Some(NormalizedAddr::of_var(var)),
            None => None,
        }
    }

    fn address_behind_name(&self, name: &str, e: Option<CExpr>, depth: u32) -> (r: Option<
        NormalizedAddr,
    >)
        requires
            depth <= MAX_SEMANTIC_RENDER_DEPTH + 1,
        ensures
            view_opt_addr(r) == self@.address_behind(name@, view_opt(e), depth as int),
        decreases self.left, 18int, MAX_SEMANTIC_RENDER_DEPTH + 2 - depth, 1int,
    {
        match e {
            Some(e) => if e.is_var(name) || depth > MAX_SEMANTIC_RENDER_DEPTH {
                None
            } else {
                self.normalized_addr_from_visible_expr(&e, depth)
            },
            None => None,
        }
    }

    fn addr_onto(&self, base: &CExpr, index: &CExpr, depth: u32) -> (r: Option<NormalizedAddr>)
        requires
            depth <= MAX_SEMANTIC_RENDER_DEPTH,
        ensures
            view_opt_addr(r) == self@.index_onto(
                self@.address(base@, depth as int),
                index@,
                depth as int,
            ),
        decreases self.left, 18int, MAX_SEMANTIC_RENDER_DEPTH + 2 - depth, 1int,
    {
        if let Some((v, scale)) = self.extract_visible_scaled_index(index, depth) {
            let found = index_addr(self.normalized_addr_from_visible_expr(base, depth), v, scale, 0);
            if found.is_some() {
                return found;
            }
        }
        match self.extract_visible_scaled_index_with_offset(index, depth) {
            Some((v, scale, offset)) => index_addr(
                self.normalized_addr_from_visible_expr(base, depth),
                v,
                scale,
                offset,
            ),
            None => None,
        }
    }

    fn addr_of_sum(&self, left: &CExpr, right: &CExpr, depth: u32) -> (r: Option<NormalizedAddr>)
        requires
            depth <= MAX_SEMANTIC_RENDER_DEPTH + 1,
        ensures
            view_opt_addr(r) == self@.address_sum(left@, right@, depth as int),
        decreases self.left, 18int, MAX_SEMANTIC_RENDER_DEPTH + 2 - depth, 2int,
    {
        if depth > MAX_SEMANTIC_RENDER_DEPTH {
            return None;
        }
        if let Some(delta) = literal_to_i64(right) {
            let found = move_addr(self.normalized_addr_from_visible_expr(left, depth), delta);
            if found.is_some() {
                return found;
            }
        }
        if let Some(delta) = literal_to_i64(left) {
            let found = move_addr(self.normalized_addr_from_visible_expr(right, depth), delta);
            if found.is_some() {
                return found;
            }
        }
        let found = self.addr_onto(left, right, depth);
        if found.is_some() {
            return found;
        }
        self.addr_onto(right, left, depth)
    }

    fn addr_of_difference(&self, left: &CExpr, right: &CExpr, depth: u32) -> (r: Option<
        NormalizedAddr,
    >)
        requires
            depth <= MAX_SEMANTIC_RENDER_DEPTH + 1,
        ensures
            view_opt_addr(r) == self@.address_difference(left@, right@, depth as int),
        decreases self.left, 18int, MAX_SEMANTIC_RENDER_DEPTH + 2 - depth, 2int,
    {
        if depth > MAX_SEMANTIC_RENDER_DEPTH {
            return None;
        }
        if let Some(delta) = literal_to_i64(right) {
            let found = move_addr_back(self.normalized_addr_from_visible_expr(left, depth), delta);
            if found.is_some() {
                return found;
            }
        }
        if let Some((v, scale)) = self.extract_visible_scaled_index(right, depth) {
            let found = index_addr(
                self.normalized_addr_from_visible_expr(left, depth),
                v,
                clamped_difference(0, scale),
                0,
            );
            if found.is_some() {
                return found;
            }
        }
        match self.extract_visible_scaled_index_with_offset(right, depth) {
            Some((v, scale, offset)) => index_addr_back(
                self.normalized_addr_from_visible_expr(left, depth),
                v,
                clamped_difference(0, scale),
                offset,
            ),
            None => None,
        }
    }

    fn addr_of_load(&self, e: &CExpr, inner: &CExpr, depth: u32) -> (r: Option<NormalizedAddr>)
        requires
            depth <= MAX_SEMANTIC_RENDER_DEPTH + 1,
        ensures
            view_opt_addr(r) == self@.address_of_load(e@, inner@, depth as int),
        decreases self.left, 18int, MAX_SEMANTIC_RENDER_DEPTH + 2 - depth, 1int,
    {
        if depth > MAX_SEMANTIC_RENDER_DEPTH {
            return None;
        }
        let size: u32 = if self.ctx.arch.ptr_size < 1 {
            1
        } else {
            self.ctx.arch.ptr_size
        };
        if let Some(access) = self.render_memory_access_from_visible_expr(inner, size) {
            if !access.same(e) {
                let found = self.normalized_addr_from_visible_expr(&access, depth);
                if found.is_some() {
                    return found;
                }
            }
        }
        let none: Vec<String> = Vec::new();
        assert(texts(none@) =~= Seq::<Seq<char>>::empty());
        let meaning = self.semanticize_visible_expr(e, depth, &none);
        if !meaning.same(e) {
            self.normalized_addr_from_visible_expr(&meaning, depth)
        } else {
            None
        }
    }

    /// The address that an expression writes.
    pub fn normalized_addr_from_visible_expr(&self, e: &CExpr, depth: u32) -> (r: Option<
        NormalizedAddr,
    >)
        ensures
            view_opt_addr(r) == self@.address(e@, depth as int),
        decreases self.left, 18int, MAX_SEMANTIC_RENDER_DEPTH + 2 - depth, 0int,
    {
        if depth > MAX_SEMANTIC_RENDER_DEPTH {
            return None;
        }
        match e {
            CExpr::Paren(inner) => self.normalized_addr_from_visible_expr(inner, depth + 1),
            CExpr::Cast { ty, expr } => self.normalized_addr_from_visible_expr(expr, depth + 1),
            CExpr::Deref(inner) => self.addr_of_load(e, inner, depth + 1),
            CExpr::Var(name) => {
                if self.is_direct_pointer(name) {
                    if let Some(var) = self.ssa_var_for_visible_name(name) {
                        return Some(NormalizedAddr::of_var(var));
                    }
                }
                let none: Vec<String> = Vec::new();
                assert(texts(none@) =~= Seq::<Seq<char>>::empty());
                let by_meaning = self.address_behind_name(
                    name,
                    self.rendered_meaning(name, depth + 1, &none),
                    depth + 1,
                );
                if by_meaning.is_some() {
                    return by_meaning;
                }
                let by_definition = self.address_behind_name(
                    name,
                    self.find_address_definition(name),
                    depth + 1,
                );
                if by_definition.is_some() {
                    return by_definition;
                }
                self.find_own_address(name)
            },
            CExpr::Binary { op, left, right } => if *op == BinaryOp::Add {
                self.addr_of_sum(left, right, depth + 1)
            } else if *op == BinaryOp::Sub {
                self.addr_of_difference(left, right, depth + 1)
            } else {
                None
            },
            _ => None,
        }
    }
}

/// A scaled value moved by an offset that fits.
pub open spec fn shifted(index: Val, scale: i64, offset: int) -> Option<(Val, i64, i64)> {
    match fit(offset) {
        Some(o) => Some((index, scale, o)),
        None => None,
    }
}

} // verus!
