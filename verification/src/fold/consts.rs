//! Expressions that come out as an address or a number.

use crate::ast::expr::{kid_is_smaller, view_opt, BinaryOp, CExpr, Expr};
use crate::fold::address::{add_opt, checked_add_opt, checked_sub_opt, first, sub_opt};
use crate::fold::context::{address_of, find_address, text_at, MAX_SEMANTIC_RENDER_DEPTH};
use crate::fold::definitions::{has_name, with_name};
use crate::fold::facts::{Addr, Base, BaseRef, NormalizedAddr};
use crate::fold::levels::{Folder, Reading};
use crate::fold::literal::{hex_digit_literal_value, hex_literal};
use crate::fold::names::{call_address, const_value, extract_call_address, parse_const_value};
use crate::fold::tables::{entry, find, key_of_value_from, view_opt_text};
use crate::ssa::{SSAVar, Var};
use crate::text::{copy_of, join, same, texts};
use vstd::prelude::*;

verus! {

broadcast use kid_is_smaller;

/// An unsigned number moved by a signed one, where the result fits.
pub open spec fn offset_by(base: u64, offset: i64) -> Option<u64> {
    if 0 <= base + offset <= u64::MAX {
        Some((base + offset) as u64)
    } else {
        None
    }
}

/// An unsigned number moved by a signed one, where the result fits.
pub fn apply_offset(base: u64, offset: i64) -> (r: Option<u64>)
    ensures
        r == offset_by(base, offset),
{
    let v: i128 = base as i128 + offset as i128;
    if 0 <= v && v <= 0xffff_ffff_ffff_ffff {
        Some(v as u64)
    } else {
        None
    }
}

impl Reading {
    /// The number that an expression comes out as. Names are followed to their
    /// meanings and definitions, to a depth; `seen` lists the names followed.
    pub open spec fn number(&self, e: Expr, depth: int, seen: Seq<Seq<char>>) -> Option<u64>
        decreases MAX_SEMANTIC_RENDER_DEPTH + 1 - depth, 2int,
    {
        if depth > MAX_SEMANTIC_RENDER_DEPTH {
            None
        } else {
            match e {
                Expr::IntLit(v) => if v >= 0 {
                    Some(v as u64)
                } else {
                    None
                },
                Expr::UIntLit(v) => Some(v),
                Expr::Var(name) => first(
                    const_value(name),
                    first(
                        entry(self.ctx.answers.addresses@, name),
                        if seen.contains("constish:"@ + name) {
                            None
                        } else {
                            self.number_behind(name, depth, seen.push("constish:"@ + name))
                        },
                    ),
                ),
                Expr::Paren(inner) => self.number(*inner, depth + 1, seen),
                Expr::AddrOf(inner) => self.number(*inner, depth + 1, seen),
                Expr::Cast { ty, expr } => self.number(*expr, depth + 1, seen),
                Expr::Binary { op, left, right } => {
                    let a = self.number(*left, depth + 1, seen);
                    let b = self.number(*right, depth + 1, seen);
                    if op == BinaryOp::Add {
                        add_opt(a, b)
                    } else if op == BinaryOp::Sub {
                        sub_opt(a, b)
                    } else {
                        None
                    }
                },
                _ => None,
            }
        }
    }

    /// The number that an optional expression comes out as, one level down.
    pub open spec fn number_of(&self, e: Option<Expr>, depth: int, seen: Seq<Seq<char>>) -> Option<u64>
        decreases MAX_SEMANTIC_RENDER_DEPTH + 1 - depth, 0int,
    {
        if depth > MAX_SEMANTIC_RENDER_DEPTH {
            None
        } else {
            match e {
                Some(e) => self.number(e, depth + 1, seen),
                None => None,
            }
        }
    }

    /// The number behind a name: by its meaning, the variable behind it, its
    /// merged versions, its written definition, or its best definition.
    pub open spec fn number_behind(&self, name: Seq<char>, depth: int, seen: Seq<Seq<char>>) -> Option<u64>
        decreases MAX_SEMANTIC_RENDER_DEPTH + 1 - depth, 1int,
    {
        let by_meaning = self.number_of(self.asked_meaning(name, depth + 1, seen), depth, seen);
        let by_alias = match self.ssa_of(name) {
            Some(ssa) => if ssa != name {
                first(
                    self.number_of(self.asked_meaning(ssa, depth + 1, seen), depth, seen),
                    self.number_of(self.raw_of(ssa), depth, seen),
                )
            } else {
                None
            },
            None => None,
        };
        let by_phi = self.number_of(
            self.asked_merged_arg(name, depth + 1, seen),
            depth,
            seen,
        );
        let by_raw = self.number_of(self.raw_of(name), depth, seen);
        let by_best = self.number_of(
            self.best_known(name),
            depth,
            seen,
        );
        first(by_meaning, first(by_alias, first(by_phi, first(by_raw, by_best))))
    }

    /// A sum or difference whose right side is a decimal literal, its digits
    /// read as hexadecimal.
    pub open spec fn number_by_hex_digits(&self, e: Expr, depth: int) -> Option<u64>
        decreases e,
    {
        if depth > MAX_SEMANTIC_RENDER_DEPTH {
            None
        } else {
            match e {
                Expr::Paren(inner) => self.number_by_hex_digits(*inner, depth + 1),
                Expr::AddrOf(inner) => self.number_by_hex_digits(*inner, depth + 1),
                Expr::Cast { ty, expr } => self.number_by_hex_digits(*expr, depth + 1),
                Expr::Binary { op, left, right } => {
                    let base = self.number(*left, depth + 1, Seq::empty());
                    let delta = hex_literal(
                        *right,
                        depth + 1,
                        MAX_SEMANTIC_RENDER_DEPTH as int,
                    );
                    if op == BinaryOp::Add {
                        add_opt(base, delta)
                    } else if op == BinaryOp::Sub {
                        sub_opt(base, delta)
                    } else {
                        None
                    }
                },
                _ => None,
            }
        }
    }

    /// What stands at an address: a function, a string, or a symbol.
    pub open spec fn object_at(&self, addr: u64) -> Option<Expr> {
        match text_at(self.ctx.inputs.function_names@, addr) {
            Some(name) => Some(Expr::Var(name)),
            None => match text_at(self.ctx.inputs.strings@, addr) {
                Some(text) => Some(Expr::StringLit(text)),
                None => match text_at(self.ctx.inputs.symbols@, addr) {
                    Some(name) => Some(Expr::Var(name)),
                    None => None,
                },
            },
        }
    }

    /// The symbol or string at an address.
    pub open spec fn symbol_or_string_at(&self, addr: u64) -> Option<Expr> {
        match text_at(self.ctx.inputs.symbols@, addr) {
            Some(name) => Some(Expr::Var(name)),
            None => match text_at(self.ctx.inputs.strings@, addr) {
                Some(text) => Some(Expr::StringLit(text)),
                None => None,
            },
        }
    }

    /// The address that an expression stands for: of the symbol, function or string
    /// it names, or the number it comes out as.
    pub open spec fn absolute(&self, e: Expr) -> Option<u64> {
        let listed = match e {
            Expr::Var(name) => first(
                address_of(self.ctx.inputs.symbols@, name),
                address_of(self.ctx.inputs.function_names@, name),
            ),
            Expr::StringLit(text) => address_of(self.ctx.inputs.strings@, text),
            _ => None,
        };
        first(listed, self.number(e, 0, Seq::empty()))
    }

    /// The address that the base of an address stands for.
    pub open spec fn absolute_base(&self, base: Base) -> Option<u64> {
        match base {
            Base::StackSlot(_) => None,
            Base::Raw(e) => self.absolute(e),
            Base::Value(v) => if v.var.constant() {
                const_value(v.var.name)
            } else {
                match call_address(v.var.name) {
                    Some(addr) => Some(addr),
                    None => match self.address_definition(v.var.display()) {
                        Some(e) => self.absolute(e),
                        None => None,
                    },
                }
            },
        }
    }

    /// The address that an address without an index stands for.
    pub open spec fn fixed_address(&self, addr: Addr, offset: i64) -> Option<u64> {
        match self.absolute_base(addr.base) {
            Some(base) => offset_by(base, offset),
            None => None,
        }
    }

    /// The name of the field at an address, by what is known of its base.
    pub open spec fn field_at(&self, addr: Addr) -> Option<Seq<char>> {
        if addr.offset < 0 {
            None
        } else {
            let offset = addr.offset as u64;
            match addr.base {
                Base::Value(v) => {
                    let by_root = match self.root_var(v.var, 0, Seq::empty()) {
                        Some(root) => self.known_field(root, offset),
                        None => None,
                    };
                    first(
                        self.oracle_field(v.var, offset),
                        first(by_root, self.var_field(v.var, offset)),
                    )
                },
                Base::Raw(Expr::Var(name)) => {
                    let by_hint = match self.hint(name) {
                        Some(ty) => self.hinted_field(ty, offset),
                        None => None,
                    };
                    first(
                        by_hint,
                        first(
                            self.spelled_field(self.entry_arg(name), offset),
                            first(
                                self.spelled_field(
                                    self.ssa_of(name),
                                    offset,
                                ),
                                self.spelled_field(Some(name), offset),
                            ),
                        ),
                    )
                },
                _ => None,
            }
        }
    }

    /// A field of the variable that a name spells.
    pub open spec fn spelled_field(&self, name: Option<Seq<char>>, offset: u64) -> Option<Seq<char>> {
        match name {
            Some(name) => match self.spelled_var(name) {
                Some(var) => self.known_field(var, offset),
                None => None,
            },
            None => None,
        }
    }

    /// The field of the first recorded address that a base is shown for, from
    /// entry `i` on.
    pub open spec fn recorded_field_from(&self, base: Seq<char>, offset: i64, i: int) -> Option<Seq<char>>
        decreases self.ctx.facts.ptr_members@.len() - i,
    {
        let t = self.ctx.facts.ptr_members@;
        if i < 0 || i >= t.len() {
            None
        } else {
            let (var, at) = t[i].1;
            let here = if at == offset && self.shown(var@) == base {
                self.known_field(var@, offset as u64)
            } else {
                None
            };
            first(here, self.recorded_field_from(base, offset, i + 1))
        }
    }

    /// The name of the field at an offset from a base expression. `addr` is the
    /// variable that holds the address, where there is one.
    pub open spec fn member_name(&self, addr: Option<Var>, base: Expr, offset: i64) -> Option<Seq<char>> {
        if offset < 0 {
            None
        } else {
            let at = offset as u64;
            let by_record = match addr {
                Some(addr) => match entry(self.ctx.facts.ptr_members@, addr.display()) {
                    Some(record) => if record.1 == offset {
                        self.known_field(record.0@, at)
                    } else {
                        None
                    },
                    None => None,
                },
                None => None,
            };
            let by_address = match addr {
                Some(addr) => if at == 0 {
                    self.oracle_field(addr, at)
                } else {
                    None
                },
                None => None,
            };
            let by_base = match base {
                Expr::Var(name) => {
                    let by_param = match key_of_value_from(
                        self.ctx.inputs.param_register_aliases@,
                        name,
                        0,
                    ) {
                        Some(reg) => self.known_field(
                            Var { name: reg, version: 0, size: self.ctx.arch.ptr_size },
                            at,
                        ),
                        None => None,
                    };
                    let by_var = match self.visible_var(name) {
                        Some(var) => self.known_field(var, at),
                        None => None,
                    };
                    first(
                        if self.storage_offset(name) is None {
                            first(by_param, by_var)
                        } else {
                            None
                        },
                        self.recorded_field_from(name, offset, 0),
                    )
                },
                _ => None,
            };
            first(by_record, first(by_address, by_base))
        }
    }
}

impl<'a> Folder<'a> {
    fn evaluate_option(&self, e: Option<CExpr>, depth: u32, visited: &Vec<String>) -> (r: Option<u64>)
        requires
            depth <= MAX_SEMANTIC_RENDER_DEPTH,
        ensures
            r == self@.number_of(view_opt(e), depth as int, texts(visited@)),
        decreases self.left, 15int, MAX_SEMANTIC_RENDER_DEPTH + 1 - depth, 0int,
    {
        match e {
            Some(e) => self.evaluate_constish_call_arg_expr_with_visited(&e, depth + 1, visited),
            None => None,
        }
    }

    fn evaluate_behind_name(&self, name: &str, depth: u32, visited: &Vec<String>) -> (r: Option<u64>)
        requires
            depth <= MAX_SEMANTIC_RENDER_DEPTH,
        ensures
            r == self@.number_behind(name@, depth as int, texts(visited@)),
        decreases self.left, 15int, MAX_SEMANTIC_RENDER_DEPTH + 1 - depth, 1int,
    {
        let by_meaning = self.evaluate_option(
            self.rendered_meaning(name, depth + 1, visited),
            depth,
            visited,
        );
        if by_meaning.is_some() {
            return by_meaning;
        }
        if let Some(ssa) = self.find_ssa_name_for_rendered_alias(name) {
            if !same(&ssa, name) {
                let by_alias = self.evaluate_option(
                    self.rendered_meaning(&ssa, depth + 1, visited),
                    depth,
                    visited,
                );
                if by_alias.is_some() {
                    return by_alias;
                }
                let by_alias_raw = self.evaluate_option(
                    self.lookup_definition_raw(&ssa),
                    depth,
                    visited,
                );
                if by_alias_raw.is_some() {
                    return by_alias_raw;
                }
            }
        }
        let by_phi = self.evaluate_option(
            self.rendered_merged_arg(name, depth + 1, visited),
            depth,
            visited,
        );
        if by_phi.is_some() {
            return by_phi;
        }
        let by_raw = self.evaluate_option(self.lookup_definition_raw(name), depth, visited);
        if by_raw.is_some() {
            return by_raw;
        }
        self.evaluate_option(self.best_visible_definition(name), depth, visited)
    }

    /// The number that an expression comes out as.
    pub fn evaluate_constish_call_arg_expr_with_visited(
        &self,
        e: &CExpr,
        depth: u32,
        visited: &Vec<String>,
    ) -> (r: Option<u64>)
        ensures
            r == self@.number(e@, depth as int, texts(visited@)),
        decreases self.left, 15int, MAX_SEMANTIC_RENDER_DEPTH + 1 - depth, 2int,
    {
        if depth > MAX_SEMANTIC_RENDER_DEPTH {
            return None;
        }
        match e {
            CExpr::IntLit(v) => if *v >= 0 {
                Some(*v as u64)
            } else {
                None
            },
            CExpr::UIntLit(v) => Some(*v),
            CExpr::Var(name) => {
                if let Some(value) = parse_const_value(name) {
                    return Some(value);
                }
                if let Some(addr) = find(&self.ctx.answers.addresses, name) {
                    return Some(*addr);
                }
                let key = join("constish:", name);
                if has_name(visited, &key) {
                    return None;
                }
                let within = with_name(visited, &key);
                self.evaluate_behind_name(name, depth, &within)
            },
            CExpr::Paren(inner) => self.evaluate_constish_call_arg_expr_with_visited(
                inner,
                depth + 1,
                visited,
            ),
            CExpr::AddrOf(inner) => self.evaluate_constish_call_arg_expr_with_visited(
                inner,
                depth + 1,
                visited,
            ),
            CExpr::Cast { ty, expr } => self.evaluate_constish_call_arg_expr_with_visited(
                expr,
                depth + 1,
                visited,
            ),
            CExpr::Binary { op, left, right } => {
                if *op != BinaryOp::Add && *op != BinaryOp::Sub {
                    return None;
                }
                let a = self.evaluate_constish_call_arg_expr_with_visited(left, depth + 1, visited);
                let b = self.evaluate_constish_call_arg_expr_with_visited(
                    right,
                    depth + 1,
                    visited,
                );
                if *op == BinaryOp::Add {
                    checked_add_opt(a, b)
                } else {
                    checked_sub_opt(a, b)
                }
            },
            _ => None,
        }
    }

    /// The number that an expression comes out as, nothing being followed yet.
    pub fn evaluate_constish_call_arg_expr(&self, e: &CExpr, depth: u32) -> (r: Option<u64>)
        ensures
            r == self@.number(e@, depth as int, Seq::empty()),
        decreases self.left, 16int,
    {
        let none: Vec<String> = Vec::new();
        assert(texts(none@) =~= Seq::<Seq<char>>::empty());
        self.evaluate_constish_call_arg_expr_with_visited(e, depth, &none)
    }

    /// A sum or difference whose right side is a decimal literal, its digits
    /// read as hexadecimal.
    pub fn evaluate_hex_digit_offset_call_arg_expr(&self, e: &CExpr, depth: u32) -> (r: Option<u64>)
        ensures
            r == self@.number_by_hex_digits(e@, depth as int),
        decreases self.left, 17int, 0int, 0int, 0int, e,
    {
        if depth > MAX_SEMANTIC_RENDER_DEPTH {
            return None;
        }
        match e {
            CExpr::Paren(inner) => self.evaluate_hex_digit_offset_call_arg_expr(inner, depth + 1),
            CExpr::AddrOf(inner) => self.evaluate_hex_digit_offset_call_arg_expr(inner, depth + 1),
            CExpr::Cast { ty, expr } => self.evaluate_hex_digit_offset_call_arg_expr(
                expr,
                depth + 1,
            ),
            CExpr::Binary { op, left, right } => {
                if *op != BinaryOp::Add && *op != BinaryOp::Sub {
                    return None;
                }
                let base = self.evaluate_constish_call_arg_expr(left, depth + 1);
                let delta = hex_digit_literal_value(right, depth + 1);
                if *op == BinaryOp::Add {
                    checked_add_opt(base, delta)
                } else {
                    checked_sub_opt(base, delta)
                }
            },
            _ => None,
        }
    }

    /// What stands at an address: a function, a string, or a symbol.
    pub fn literalish_call_arg_expr_for_addr(&self, addr: u64) -> (r: Option<CExpr>)
        ensures
            view_opt(r) == self@.object_at(addr),
    {
        if let Some(name) = self.lookup_function(addr) {
            return Some(CExpr::Var(copy_of(name)));
        }
        if let Some(text) = self.lookup_string(addr) {
            return Some(CExpr::StringLit(copy_of(text)));
        }
        match self.lookup_symbol(addr) {
            Some(name) => Some(CExpr::Var(copy_of(name))),
            None => None,
        }
    }

    /// The symbol or string at an address.
    pub fn symbol_or_string_expr(&self, addr: u64) -> (r: Option<CExpr>)
        ensures
            view_opt(r) == self@.symbol_or_string_at(addr),
    {
        if let Some(name) = self.lookup_symbol(addr) {
            return Some(CExpr::Var(copy_of(name)));
        }
        match self.lookup_string(addr) {
            Some(text) => Some(CExpr::StringLit(copy_of(text))),
            None => None,
        }
    }

    fn absolute_of_expr(&self, e: &CExpr) -> (r: Option<u64>)
        ensures
            r == self@.absolute(e@),
        decreases self.left, 17int,
    {
        match e {
            CExpr::Var(name) => {
                if let Some(addr) = find_address(&self.ctx.inputs.symbols, name) {
                    return Some(addr);
                }
                if let Some(addr) = find_address(&self.ctx.inputs.function_names, name) {
                    return Some(addr);
                }
            },
            CExpr::StringLit(text) => {
                if let Some(addr) = find_address(&self.ctx.inputs.strings, text) {
                    return Some(addr);
                }
            },
            _ => {},
        }
        self.evaluate_constish_call_arg_expr(e, 0)
    }

    fn find_absolute_base(&self, base: &BaseRef) -> (r: Option<u64>)
        ensures
            r == self@.absolute_base(base@),
        decreases self.left, 18int,
    {
        match base {
            BaseRef::StackSlot(_) => None,
            BaseRef::Raw(e) => self.absolute_of_expr(e),
            BaseRef::Value(v) => {
                if v.var.is_const() {
                    return parse_const_value(&v.var.name);
                }
                if let Some(addr) = extract_call_address(&v.var.name) {
                    return Some(addr);
                }
                match self.find_address_definition(&v.var.display_name()) {
                    Some(e) => self.absolute_of_expr(&e),
                    None => None,
                }
            },
        }
    }

    /// The address that a base and a byte offset stand for.
    pub fn fixed_address_for(&self, addr: &NormalizedAddr, offset: i64) -> (r: Option<u64>)
        ensures
            r == self@.fixed_address(addr@, offset),
        decreases self.left, 19int,
    {
        match self.find_absolute_base(&addr.base) {
            Some(base) => apply_offset(base, offset),
            None => None,
        }
    }

    fn find_spelled_field(&self, name: Option<String>, offset: u64) -> (r: Option<String>)
        ensures
            view_opt_text(r) == self@.spelled_field(view_opt_text(name), offset),
    {
        match name {
            Some(name) => match self.guess_ssa_var_from_name(&name) {
                Some(var) => self.known_field_name(&var, offset),
                None => None,
            },
            None => None,
        }
    }

    /// The name of the field at an address.
    pub fn oracle_field_name_for_addr(&self, addr: &NormalizedAddr) -> (r: Option<String>)
        ensures
            view_opt_text(r) == self@.field_at(addr@),
        decreases self.left, 1int,
    {
        if addr.offset_bytes < 0 {
            return None;
        }
        let offset: u64 = addr.offset_bytes as u64;
        match &addr.base {
            BaseRef::Value(v) => {
                if let Some(name) = self.oracle_field_name(&v.var, offset) {
                    return Some(name);
                }
                let none: Vec<String> = Vec::new();
                assert(texts(none@) =~= Seq::<Seq<char>>::empty());
                if let Some(root) = self.semantic_root_var(&v.var, 0, &none) {
                    if let Some(name) = self.known_field_name(&root, offset) {
                        return Some(name);
                    }
                }
                self.field_name_from_type_hint_for_var(&v.var, offset)
            },
            BaseRef::Raw(CExpr::Var(name)) => {
                if let Some(ty) = self.lookup_type_hint(name) {
                    if let Some(field) = self.field_name_from_type_hint(&ty, offset) {
                        return Some(field);
                    }
                }
                let by_arg = self.find_spelled_field(
                    self.preferred_entry_arg_ssa_name(name),
                    offset,
                );
                if by_arg.is_some() {
                    return by_arg;
                }
                let by_alias = self.find_spelled_field(
                    self.find_ssa_name_for_rendered_alias(name),
                    offset,
                );
                if by_alias.is_some() {
                    return by_alias;
                }
                self.find_spelled_field(Some(copy_of(name)), offset)
            },
            _ => None,
        }
    }

    fn find_recorded_field(&self, base: &str, offset: i64) -> (r: Option<String>)
        requires
            offset >= 0,
        ensures
            view_opt_text(r) == self@.recorded_field_from(base@, offset, 0),
    {
        let t = &self.ctx.facts.ptr_members;
        let mut i: usize = 0;
        while i < t.len()
            invariant
                i <= t@.len(),
                t@ == self.ctx.facts.ptr_members@,
                offset >= 0,
                self@.recorded_field_from(base@, offset, 0) == self@.recorded_field_from(
                    base@,
                    offset,
                    i as int,
                ),
            decreases t@.len() - i,
        {
            if t[i].1.1 == offset && same(&self.var_name(&t[i].1.0), base) {
                let found = self.known_field_name(&t[i].1.0, offset as u64);
                if found.is_some() {
                    return found;
                }
            }
            i = i + 1;
        }
        None
    }

    /// The name of the field at an offset from a base expression.
    pub fn oracle_member_name(&self, addr: Option<&SSAVar>, base: &CExpr, offset: i64) -> (r: Option<
        String,
    >)
        ensures
            view_opt_text(r) == self@.member_name(
                crate::ssa::view_opt_var_ref(addr),
                base@,
                offset,
            ),
        decreases self.left, 2int,
    {
        if offset < 0 {
            return None;
        }
        let at: u64 = offset as u64;
        if let Some(addr) = addr {
            if let Some(record) = find(&self.ctx.facts.ptr_members, &addr.display_name()) {
                if record.1 == offset {
                    if let Some(name) = self.known_field_name(&record.0, at) {
                        return Some(name);
                    }
                }
            }
            if at == 0 {
                if let Some(name) = self.oracle_field_name(addr, at) {
                    return Some(name);
                }
            }
        }
        if let CExpr::Var(name) = base {
            if self.stack_offset_for_visible_storage_name(name).is_none() {
                if let Some(reg) = crate::fold::tables::find_key_of_value(
                    &self.ctx.inputs.param_register_aliases,
                    name,
                ) {
                    let var = SSAVar { name: reg, version: 0, size: self.ctx.arch.ptr_size };
                    if let Some(field) = self.known_field_name(&var, at) {
                        return Some(field);
                    }
                }
                if let Some(var) = self.ssa_var_for_visible_name(name) {
                    if let Some(field) = self.known_field_name(&var, at) {
                        return Some(field);
                    }
                }
            }
            return self.find_recorded_field(name, offset);
        }
        None
    }
}

/// Is an expression made of literals, sums and differences only?
pub open spec fn literal_sum(e: Expr) -> bool
    decreases e,
{
    match e {
        Expr::IntLit(v) => true,
        Expr::UIntLit(v) => true,
        Expr::Paren(inner) => literal_sum(*inner),
        Expr::Binary { op, left, right } => literal_sum(*left) && literal_sum(*right),
        _ => false,
    }
}

impl Reading {
    /// The number that sums and differences of literals come out as is their value; it is
    /// given only where no step of it leaves the unsigned numbers of 64 bits.
    pub proof fn literal_sums_come_out_as_they_are(
        &self,
        e: Expr,
        depth: int,
        seen: Seq<Seq<char>>,
        env: spec_fn(Expr) -> int,
    )
        requires
            literal_sum(e),
            self.number(e, depth, seen) is Some,
        ensures
            crate::ast::eval::eval(e, env) == self.number(e, depth, seen)->0,
        decreases e,
    {
        match e {
            Expr::Paren(inner) => {
                self.literal_sums_come_out_as_they_are(*inner, depth + 1, seen, env);
            },
            Expr::Binary { op, left, right } => {
                self.literal_sums_come_out_as_they_are(*left, depth + 1, seen, env);
                self.literal_sums_come_out_as_they_are(*right, depth + 1, seen, env);
            },
            _ => {},
        }
    }
}

} // verus!
