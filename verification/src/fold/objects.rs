//! Named objects in memory.

use crate::ast::expr::{view_opt, CExpr, Expr};
use crate::fold::address::first;
use crate::fold::consts::{apply_offset, offset_by};
use crate::fold::context::{text_at, MemoryLocation, ObjectKind, PreparedFacts};
use crate::fold::definitions::reaches;
use crate::fold::facts::{Addr, Base, BaseRef, NormalizedAddr, Val, ValueRef};
use crate::fold::levels::{Folder, Reading};
use crate::fold::literal::{checked_product, checked_sum, fit, literal, literal_to_i64};
use crate::fold::tables::{
    entry, find, find_number, find_site, number_entry, offset_name, site_entry, Site,
};
use crate::ssa::{view_opt_var, SSAVar, Var};
use crate::text::{copy_of, texts};
use vstd::prelude::*;

verus! {

/// How many steps a chain of canonical variables is followed.
pub const MAX_CANONICAL_STEPS: u32 = 32;

/// The canonical variable after at most `n` steps. A variable that is its own
/// root ends the chain.
pub open spec fn canonical(roots: Seq<(String, SSAVar)>, var: Var, n: nat) -> Var
    decreases n,
{
    if n == 0 {
        var
    } else {
        match entry(roots, var.display()) {
            Some(next) => if next@ == var {
                var
            } else {
                canonical(roots, next@, (n - 1) as nat)
            },
            None => var,
        }
    }
}

fn follow_roots(roots: &Vec<(String, SSAVar)>, var: SSAVar, n: u32) -> (r: SSAVar)
    ensures
        r@ == canonical(roots@, var@, n as nat),
    decreases n,
{
    if n == 0 {
        return var;
    }
    match find(roots, &var.display_name()) {
        Some(next) => if next.same(&var) {
            var
        } else {
            follow_roots(roots, next.dup(), n - 1)
        },
        None => var,
    }
}

impl Reading {
    /// The canonical variable of a value, where roots are known.
    pub open spec fn canonical_root(&self, var: Var) -> Option<Var> {
        match self.ctx.inputs.prepared {
            Some(prepared) => match prepared.canonical_roots {
                Some(roots) => Some(canonical(roots@, var, MAX_CANONICAL_STEPS as nat)),
                None => None,
            },
            None => None,
        }
    }

    /// What stands at an address, symbols first.
    pub open spec fn global_at(&self, addr: u64) -> Option<Expr> {
        match text_at(self.ctx.inputs.symbols@, addr) {
            Some(name) => Some(Expr::Var(name)),
            None => match text_at(self.ctx.inputs.function_names@, addr) {
                Some(name) => Some(Expr::Var(name)),
                None => match text_at(self.ctx.inputs.strings@, addr) {
                    Some(text) => Some(Expr::StringLit(text)),
                    None => None,
                },
            },
        }
    }

    /// The name of a stack slot, as an expression.
    pub open spec fn slot_expr(&self, offset: i64) -> Option<Expr> {
        match offset_name(self.ctx.answers.stack_names@, offset) {
            Some(name) => Some(Expr::Var(name)),
            None => None,
        }
    }

    /// The name of a place in memory: of the global at its address, or of the
    /// stack object that starts there.
    pub open spec fn place(&self, location: MemoryLocation) -> Option<Expr> {
        match self.ctx.inputs.prepared {
            Some(prepared) => match number_entry(prepared.objects@, location.object) {
                Some(ObjectKind::Global { address }) => match offset_by(address, location.offset) {
                    Some(addr) => self.global_at(addr),
                    None => None,
                },
                Some(ObjectKind::StackSlot { offset }) => if location.offset == 0 {
                    self.slot_expr(offset)
                } else {
                    None
                },
                Some(ObjectKind::FrameObject { offset }) => if location.offset == 0 {
                    self.slot_expr(offset)
                } else {
                    None
                },
                _ => None,
            },
            None => None,
        }
    }

    /// The place of the operation being lowered.
    pub open spec fn current_site(&self) -> Option<Site> {
        match (self.ctx.state.current_block_addr, self.ctx.state.current_op_idx) {
            (Some(block), Some(idx)) => Some((block, idx)),
            _ => None,
        }
    }

    /// The name of the only place that the operation being lowered touches.
    pub open spec fn only_place(&self, t: Seq<(Site, Vec<MemoryLocation>)>) -> Option<Expr> {
        match self.current_site() {
            Some(site) => match site_entry(t, site) {
                Some(list) => if list@.len() == 1 {
                    self.place(list@[0])
                } else {
                    None
                },
                None => None,
            },
            None => None,
        }
    }

    /// The object that a variable points to, by itself or by its canonical root.
    pub open spec fn object_of(&self, prepared: PreparedFacts, var: Var) -> Option<u32> {
        match entry(prepared.var_objects@, var.display()) {
            Some(object) => Some(object),
            None => match self.canonical_root(var) {
                Some(root) => entry(prepared.var_objects@, root.display()),
                None => None,
            },
        }
    }

    /// The name of the object that an address without index and offset points to.
    pub open spec fn pointed_object(&self, addr: Addr) -> Option<Expr> {
        match (self.ctx.inputs.prepared, addr.base) {
            (Some(prepared), Base::Value(v)) => if addr.index is None && addr.offset == 0 {
                match self.object_of(prepared, v.var) {
                    Some(object) => self.place(MemoryLocation { object, offset: 0, size: 0 }),
                    None => None,
                }
            } else {
                None
            },
            _ => None,
        }
    }

    /// The settled rendering of a value: as it is written, or as it is read where it
    /// leads back to itself.
    pub open spec fn settled_value(&self, v: Val) -> Expr {
        match self.asked_value(v) {
            Some(e) => e,
            None => if v.var.constant() {
                self.constant(v.var)
            } else {
                self.asked_read(v.var)
            },
        }
    }

    /// The number that an index comes out as.
    pub open spec fn index_number(&self, index: Val) -> Option<i64> {
        let e = self.settled_value(index);
        match literal(e) {
            Some(v) => Some(v),
            None => match self.number(e, 0, Seq::empty()) {
                Some(v) => fit(v as int),
                None => None,
            },
        }
    }

    /// The bytes between the base of an address and the place it stands for,
    /// where the index comes out as a number.
    pub open spec fn fixed_offset(&self, addr: Addr) -> Option<i64> {
        match addr.index {
            None => Some(addr.offset),
            Some(index) => match self.index_number(index) {
                Some(v) => match fit(v * addr.scale) {
                    Some(scaled) => fit(addr.offset + scaled),
                    None => None,
                },
                None => None,
            },
        }
    }

    /// The address in memory that an address stands for.
    pub open spec fn absolute_address(&self, addr: Addr) -> Option<u64> {
        let offset = match self.fixed_offset(addr) {
            Some(offset) => offset,
            None => addr.offset,
        };
        self.fixed_address(addr, offset)
    }

    /// The name of exactly the object that an address stands for.
    pub open spec fn exact_object(&self, addr: Addr) -> Option<Expr> {
        first(
            self.pointed_object(addr),
            match self.absolute_address(addr) {
                Some(at) => self.symbol_or_string_at(at),
                None => None,
            },
        )
    }

    /// May a load from an address show the object that the address stands for?
    /// Not where the address is a pointer's value: the load goes through it.
    pub open spec fn load_shows_object(&self, addr: Addr) -> bool {
        match addr.base {
            Base::Value(v) => addr.index is Some || addr.offset != 0 || {
                let root = match self.root_var(v.var, 0, Seq::empty()) {
                    Some(root) => root,
                    None => v.var,
                };
                !reaches(first(self.var_hint(root), self.var_hint(v.var)))
            },
            _ => true,
        }
    }
}

impl<'a> Folder<'a> {
    /// The canonical variable of a value, where roots are known.
    pub fn prepared_canonical_value_root(&self, var: &SSAVar) -> (r: Option<SSAVar>)
        ensures
            view_opt_var(r) == self@.canonical_root(var@),
    {
        match &self.ctx.inputs.prepared {
            Some(prepared) => match &prepared.canonical_roots {
                Some(roots) => Some(follow_roots(roots, var.dup(), MAX_CANONICAL_STEPS)),
                None => None,
            },
            None => None,
        }
    }

    fn global_expr(&self, addr: u64) -> (r: Option<CExpr>)
        ensures
            view_opt(r) == self@.global_at(addr),
    {
        if let Some(name) = self.lookup_symbol(addr) {
            return Some(CExpr::Var(copy_of(name)));
        }
        if let Some(name) = self.lookup_function(addr) {
            return Some(CExpr::Var(copy_of(name)));
        }
        match self.lookup_string(addr) {
            Some(text) => Some(CExpr::StringLit(copy_of(text))),
            None => None,
        }
    }

    /// The name of a stack slot, as an expression.
    pub fn slot_name_expr(&self, offset: i64) -> (r: Option<CExpr>)
        ensures
            view_opt(r) == self@.slot_expr(offset),
    {
        match self.resolve_stack_var(offset) {
            Some(name) => Some(CExpr::Var(name)),
            None => None,
        }
    }

    /// The name of a place in memory.
    pub fn prepared_named_expr_for_memory_location(&self, location: &MemoryLocation) -> (r: Option<
        CExpr,
    >)
        ensures
            view_opt(r) == self@.place(*location),
    {
        match &self.ctx.inputs.prepared {
            Some(prepared) => match find_number(&prepared.objects, location.object) {
                Some(ObjectKind::Global { address }) => match apply_offset(
                    *address,
                    location.offset,
                ) {
                    Some(addr) => self.global_expr(addr),
                    None => None,
                },
                Some(ObjectKind::StackSlot { offset }) => if location.offset == 0 {
                    self.slot_name_expr(*offset)
                } else {
                    None
                },
                Some(ObjectKind::FrameObject { offset }) => if location.offset == 0 {
                    self.slot_name_expr(*offset)
                } else {
                    None
                },
                _ => None,
            },
            None => None,
        }
    }

    fn name_only_place(&self, t: &Vec<(Site, Vec<MemoryLocation>)>) -> (r: Option<CExpr>)
        ensures
            view_opt(r) == self@.only_place(t@),
    {
        match (self.ctx.state.current_block_addr, self.ctx.state.current_op_idx) {
            (Some(block), Some(idx)) => match find_site(t, (block, idx)) {
                Some(list) => if list.len() == 1 {
                    self.prepared_named_expr_for_memory_location(&list[0])
                } else {
                    None
                },
                None => None,
            },
            _ => None,
        }
    }

    /// The name of the only place that the operation being lowered reads.
    pub fn prepared_named_memory_expr_for_current_op(&self) -> (r: Option<CExpr>)
        ensures
            view_opt(r) == match self.ctx.inputs.prepared {
                Some(prepared) => self@.only_place(prepared.memory_uses@),
                None => None,
            },
    {
        match &self.ctx.inputs.prepared {
            Some(prepared) => self.name_only_place(&prepared.memory_uses),
            None => None,
        }
    }

    /// The name of the only place that the operation being lowered writes.
    pub fn prepared_named_memory_def_expr_for_current_op(&self) -> (r: Option<CExpr>)
        ensures
            view_opt(r) == match self.ctx.inputs.prepared {
                Some(prepared) => self@.only_place(prepared.memory_defs@),
                None => None,
            },
    {
        match &self.ctx.inputs.prepared {
            Some(prepared) => self.name_only_place(&prepared.memory_defs),
            None => None,
        }
    }

    /// The name of the object that an address without index and offset points to.
    pub fn prepared_named_object_expr_for_addr(&self, addr: &NormalizedAddr) -> (r: Option<CExpr>)
        ensures
            view_opt(r) == self@.pointed_object(addr@),
    {
        if addr.index.is_some() || addr.offset_bytes != 0 {
            return None;
        }
        match (&self.ctx.inputs.prepared, &addr.base) {
            (Some(prepared), BaseRef::Value(v)) => {
                let object = match find(&prepared.var_objects, &v.var.display_name()) {
                    Some(object) => Some(*object),
                    None => match self.prepared_canonical_value_root(&v.var) {
                        Some(root) => match find(&prepared.var_objects, &root.display_name()) {
                            Some(object) => Some(*object),
                            None => None,
                        },
                        None => None,
                    },
                };
                match object {
                    Some(object) => self.prepared_named_expr_for_memory_location(
                        &MemoryLocation { object, offset: 0, size: 0 },
                    ),
                    None => None,
                }
            },
            _ => None,
        }
    }

    /// The settled rendering of a value.
    pub fn settled_value_expr(&self, v: &ValueRef) -> (r: CExpr)
        ensures
            r@ == self@.settled_value(v@),
        decreases self.left, 1int,
    {
        match self.rendered_value(v) {
            Some(e) => e,
            None => if v.var.is_const() {
                self.const_to_expr(&v.var)
            } else {
                self.rendered_read(&v.var)
            },
        }
    }

    /// The bytes between the base of an address and the place it stands for.
    pub fn constant_addr_offset_bytes(&self, addr: &NormalizedAddr) -> (r: Option<i64>)
        ensures
            r == self@.fixed_offset(addr@),
        decreases self.left, 17int,
    {
        match &addr.index {
            None => Some(addr.offset_bytes),
            Some(index) => {
                let e = self.settled_value_expr(index);
                let value = match literal_to_i64(&e) {
                    Some(v) => Some(v),
                    None => match self.evaluate_constish_call_arg_expr(&e, 0) {
                        Some(v) => if v <= 0x7fff_ffff_ffff_ffff {
                            Some(v as i64)
                        } else {
                            None
                        },
                        None => None,
                    },
                };
                match value {
                    Some(v) => match checked_product(v, addr.scale_bytes) {
                        Some(scaled) => checked_sum(addr.offset_bytes, scaled),
                        None => None,
                    },
                    None => None,
                }
            },
        }
    }

    /// The address in memory that an address stands for.
    pub fn absolute_addr_for_normalized_addr(&self, addr: &NormalizedAddr) -> (r: Option<u64>)
        ensures
            r == self@.absolute_address(addr@),
        decreases self.left, 20int,
    {
        let offset: i64 = match self.constant_addr_offset_bytes(addr) {
            Some(offset) => offset,
            None => addr.offset_bytes,
        };
        self.fixed_address_for(addr, offset)
    }

    /// The name of exactly the object that an address stands for.
    pub fn exact_named_object_expr_for_addr(&self, addr: &NormalizedAddr) -> (r: Option<CExpr>)
        ensures
            view_opt(r) == self@.exact_object(addr@),
        decreases self.left, 21int,
    {
        if let Some(e) = self.prepared_named_object_expr_for_addr(addr) {
            return Some(e);
        }
        match self.absolute_addr_for_normalized_addr(addr) {
            Some(at) => self.symbol_or_string_expr(at),
            None => None,
        }
    }

    /// May a load from an address show the object that the address stands for?
    pub fn allow_exact_named_object_expr_for_load_addr(&self, addr: &NormalizedAddr) -> (r: bool)
        ensures
            r == self@.load_shows_object(addr@),
    {
        match &addr.base {
            BaseRef::Value(v) => {
                if addr.index.is_some() || addr.offset_bytes != 0 {
                    return true;
                }
                let none: Vec<String> = Vec::new();
                assert(texts(none@) =~= Seq::<Seq<char>>::empty());
                let root = match self.semantic_root_var(&v.var, 0, &none) {
                    Some(root) => root,
                    None => v.var.dup(),
                };
                let hint = match self.type_hint_for_var(&root) {
                    Some(ty) => Some(ty),
                    None => self.type_hint_for_var(&v.var),
                };
                !crate::fold::definitions::is_reaching(&hint)
            },
            _ => true,
        }
    }
}

} // verus!
