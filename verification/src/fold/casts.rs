//! Types of expressions, and the casts they call for.

use crate::ast::expr::{cast, CExpr, Expr};
use crate::ast::types::{view_opt as view_opt_type, view_opt_ref as view_opt_type_ref, CType, Type};
use crate::fold::context::{OracleField, MAX_SEMANTIC_RENDER_DEPTH};
use crate::fold::definitions::{has_name, with_name};
use crate::fold::facts::{Base, BaseRef, Meaning, ScalarValue, SemanticValue};
use crate::fold::levels::{Folder, Reading};
use crate::fold::literal::{bits_of, signed_type, size_bits, type_from_size, uint_type_from_size, unsigned_type};
use crate::fold::tables::view_opt_text;
use crate::ssa::{view_opt_var, SSAVar, Var};
use crate::text::{copy_of, in_list, listed, same, texts};
use vstd::prelude::*;

verus! {

/// Does a value of the source type need a cast to become one of the target
/// type? Only numbers that differ in sign or width do, and numbers and
/// pointers in either direction.
pub open spec fn needs_cast(target: Type, source: Option<Type>) -> bool {
    match source {
        None => false,
        Some(source) => target != source && match (target.int_meta(), source.int_meta()) {
            (Some(a), Some(b)) => a != b,
            _ => (target is Pointer && source.int_meta() is Some) || ((target is Int || target
                is UInt) && source is Pointer),
        },
    }
}

/// Signedness and width of an integer type.
pub fn int_meta(ty: &CType) -> (r: Option<(bool, u32)>)
    ensures
        r == ty@.int_meta(),
{
    match ty {
        CType::Int(bits) => Some((true, *bits)),
        CType::UInt(bits) => Some((false, *bits)),
        CType::Bool => Some((false, 1)),
        _ => None,
    }
}

/// Does a value of the source type need a cast to become one of the target type?
pub fn cast_needed(target: &CType, source: Option<&CType>) -> (r: bool)
    ensures
        r == needs_cast(target@, view_opt_type_ref(source)),
{
    match source {
        None => false,
        Some(source) => {
            if target.same(source) {
                return false;
            }
            if let (Some(a), Some(b)) = (int_meta(target), int_meta(source)) {
                return a.0 != b.0 || a.1 != b.1;
            }
            (target.is_pointer() && int_meta(source).is_some()) || (matches!(
                target,
                CType::Int(_) | CType::UInt(_)
            ) && source.is_pointer())
        },
    }
}

/// An expression, cast where its type calls for it.
pub open spec fn cast_to(e: Expr, target: Type, source: Option<Type>) -> Expr {
    if e matches Expr::Cast { ty, expr } && ty == target {
        e
    } else if needs_cast(target, source) {
        cast(target, e)
    } else {
        e
    }
}

/// An expression, cast where its type calls for it.
pub fn cast_expr_if_needed(e: CExpr, target: CType, source: Option<&CType>) -> (r: CExpr)
    ensures
        r@ == cast_to(e@, target@, view_opt_type_ref(source)),
{
    if let CExpr::Cast { ty, .. } = &e {
        if ty.same(&target) {
            return e;
        }
    }
    if cast_needed(&target, source) {
        CExpr::cast(target, e)
    } else {
        e
    }
}

/// A cast is never wrapped around a cast to the same type, and none is made
/// where the types agree or nothing is known of the source.
pub proof fn casts_do_not_repeat(e: Expr, target: Type, source: Option<Type>)
    ensures
        cast_to(cast(target, e), target, source) == cast(target, e),
        cast_to(e, target, None) == e,
        cast_to(e, target, Some(target)) == e,
{
}

/// Can an element of this type be reached with a subscript at a fixed place?
pub open spec fn indexable(ty: Type) -> bool {
    !(ty is Unknown || ty is Void || ty is Struct || ty is Union)
}

/// Can an element of this type be reached with a subscript at a fixed place?
pub fn can_render_constant_offset_as_subscript(ty: &CType) -> (r: bool)
    ensures
        r == indexable(ty@),
{
    match ty {
        CType::Unknown | CType::Void | CType::Struct(_) | CType::Union(_) => false,
        _ => true,
    }
}

/// A field of a base: behind a dot where the base is an element or a field,
/// behind an arrow elsewhere.
pub open spec fn field_of(base: Expr, member: Seq<char>) -> Expr {
    if base is Subscript || base is Member {
        Expr::Member { base: Box::new(base), member }
    } else {
        Expr::PtrMember { base: Box::new(base), member }
    }
}

/// A field of a base.
pub fn member_access_expr(base: CExpr, member: String) -> (r: CExpr)
    ensures
        r@ == field_of(base@, member@),
{
    match base {
        CExpr::Subscript { .. } | CExpr::Member { .. } => CExpr::Member {
            base: Box::new(base),
            member,
        },
        _ => CExpr::PtrMember { base: Box::new(base), member },
    }
}

/// A field of a variable's type, from entry `i` on.
pub open spec fn oracle_field_from(t: Seq<OracleField>, var: Seq<char>, offset: u64, i: int) -> Option<
    Seq<char>,
>
    decreases t.len() - i,
{
    if i < 0 || i >= t.len() {
        None
    } else if t[i].var@ == var && t[i].offset == offset {
        Some(t[i].name@)
    } else {
        oracle_field_from(t, var, offset, i + 1)
    }
}

impl Reading {
    /// A field that the type oracle knows of a variable's type.
    pub open spec fn oracle_field(&self, var: Var, offset: u64) -> Option<Seq<char>> {
        match self.ctx.inputs.type_oracle {
            Some(oracle) => oracle_field_from(oracle.fields@, var.display(), offset, 0),
            None => None,
        }
    }

    /// A field of a variable's type: as the oracle has it, or by its type hint.
    pub open spec fn known_field(&self, var: Var, offset: u64) -> Option<Seq<char>> {
        match self.oracle_field(var, offset) {
            Some(name) => Some(name),
            None => self.var_field(var, offset),
        }
    }

    /// The variable that a value is rooted in: followed through forwarding,
    /// meanings and copies, to a depth.
    pub open spec fn root_var(&self, var: Var, depth: int, seen: Seq<Seq<char>>) -> Option<Var>
        decreases MAX_SEMANTIC_RENDER_DEPTH + 1 - depth,
    {
        let name = var.display();
        if depth > MAX_SEMANTIC_RENDER_DEPTH || seen.contains(name) {
            None
        } else {
            let step = self.root_step(var);
            match step {
                Some(next) => match self.root_var(next, depth + 1, seen.push(name)) {
                    Some(root) => Some(root),
                    None => Some(next),
                },
                None => None,
            }
        }
    }

    /// The next variable on the way to the root.
    pub open spec fn root_step(&self, var: Var) -> Option<Var> {
        let name = var.display();
        match self.forwarded_var(name) {
            Some(source) => Some(source),
            None => match self.meaning_of(name) {
                Some(Meaning::Root(root)) => Some(root.var),
                Some(Meaning::Address(addr)) => match addr.base {
                    Base::Value(root) => Some(root.var),
                    _ => self.copy_step(name),
                },
                _ => self.copy_step(name),
            },
        }
    }

    /// The variable that a chain of copies starts from.
    pub open spec fn copy_step(&self, name: Seq<char>) -> Option<Var> {
        let root = self.root_name(name);
        if root != name {
            self.spelled_var(root)
        } else {
            None
        }
    }

    /// The element type that a variable is hinted to reach.
    pub open spec fn reached_type(&self, var: Var) -> Option<Type> {
        match self.var_hint(var) {
            Some(ty) => ty.target(),
            None => None,
        }
    }

    /// The type of the elements behind a variable: hinted where the oracle says
    /// that it reaches elements, else unsigned.
    pub open spec fn subscript_type(&self, base: Var, size: u32) -> Type {
        let reached = self.reached_type(base);
        match self.ctx.inputs.type_oracle {
            Some(oracle) => if listed(oracle.reaching@, base.display()) && reached is Some {
                reached->0
            } else {
                unsigned_type(size)
            },
            None => unsigned_type(size),
        }
    }

    /// The type of the elements behind the base of an address.
    pub open spec fn element_type(&self, base: Base, size: u32) -> Type {
        match base {
            Base::Value(v) => {
                let by_root = match self.root_var(v.var, 0, Seq::empty()) {
                    Some(root) => self.reached_type(root),
                    None => None,
                };
                if self.reached_type(v.var) is Some {
                    self.reached_type(v.var)->0
                } else if self.ctx.inputs.type_oracle is Some && by_root is Some {
                    by_root->0
                } else {
                    self.subscript_type(v.var, size)
                }
            },
            Base::Raw(e) => match e {
                Expr::Var(name) => match self.hint(name) {
                    Some(ty) => match ty.target() {
                        Some(inner) => inner,
                        None => unsigned_type(size),
                    },
                    None => unsigned_type(size),
                },
                _ => unsigned_type(size),
            },
            Base::StackSlot(_) => unsigned_type(size),
        }
    }

    /// Is a load at the base itself shown as the first element?
    pub open spec fn first_element(&self, base: Expr, ty: Type) -> bool {
        (match self.expr_hint(base) {
            Some(Type::Array(_, _)) => true,
            Some(Type::Pointer(inner)) => *inner is Pointer || *inner is Array,
            _ => false,
        }) && indexable(ty)
    }

    /// Signedness and width of what the function returns.
    pub open spec fn return_meta(&self) -> Option<(bool, u32)> {
        match self.ctx.inputs.function_return_type {
            Some(ty) => ty@.int_meta(),
            None => None,
        }
    }

    /// Does the function return no more bits than a variable holds?
    pub open spec fn narrow_return(&self, src: Var) -> bool {
        self.return_meta() matches Some((_, bits)) && bits <= size_bits(src.size)
    }

    /// A returned value behind a width change.
    pub open spec fn return_cast(&self, dst: Var, src: Var, e: Expr) -> Expr {
        if self.narrow_return(src) {
            e
        } else {
            cast(signed_type(dst.size), e)
        }
    }

    /// The right side of an assignment, cast as the variable's hint asks.
    pub open spec fn typed_rhs(&self, dst: Var, src: Option<Var>, rhs: Expr) -> Expr {
        match self.var_hint(dst) {
            None => rhs,
            Some(ty) => cast_to(
                rhs,
                ty,
                match src {
                    Some(src) => self.var_hint(src),
                    None => None,
                },
            ),
        }
    }

    /// An address as a pointer of a type.
    pub open spec fn as_pointer(&self, addr: Var, e: Expr, target: Type) -> Expr {
        if e matches Expr::Cast { ty, expr } && ty == target {
            e
        } else {
            let source = match self.expr_hint(e) {
                Some(ty) => Some(ty),
                None => self.var_hint(addr),
            };
            if source is Some {
                cast_to(e, target, source)
            } else if self.pointer_like(e) {
                e
            } else {
                cast(target, e)
            }
        }
    }
}

impl<'a> Folder<'a> {
    /// A field that the type oracle knows of a variable's type.
    pub fn oracle_field_name(&self, var: &SSAVar, offset: u64) -> (r: Option<String>)
        ensures
            view_opt_text(r) == self@.oracle_field(var@, offset),
    {
        match &self.ctx.inputs.type_oracle {
            Some(oracle) => {
                let t = &oracle.fields;
                let display = var.display_name();
                let mut i: usize = 0;
                while i < t.len()
                    invariant
                        i <= t@.len(),
                        display@ == var@.display(),
                        self.ctx.inputs.type_oracle is Some,
                        t@ == self.ctx.inputs.type_oracle->0.fields@,
                        oracle_field_from(t@, display@, offset, 0) == oracle_field_from(
                            t@,
                            display@,
                            offset,
                            i as int,
                        ),
                    decreases t@.len() - i,
                {
                    if same(&t[i].var, &display) && t[i].offset == offset {
                        return Some(copy_of(&t[i].name));
                    }
                    i = i + 1;
                }
                None
            },
            None => None,
        }
    }

    /// A field of a variable's type: as the oracle has it, or by its type hint.
    pub fn known_field_name(&self, var: &SSAVar, offset: u64) -> (r: Option<String>)
        ensures
            view_opt_text(r) == self@.known_field(var@, offset),
    {
        match self.oracle_field_name(var, offset) {
            Some(name) => Some(name),
            None => self.field_name_from_type_hint_for_var(var, offset),
        }
    }

    fn find_copy_step(&self, name: &str) -> (r: Option<SSAVar>)
        ensures
            view_opt_var(r) == self@.copy_step(name@),
    {
        let root = self.resolve_copy_root_name_in_fold(name);
        if !same(&root, name) {
            self.guess_ssa_var_from_name(&root)
        } else {
            None
        }
    }

    fn find_root_step(&self, var: &SSAVar) -> (r: Option<SSAVar>)
        ensures
            view_opt_var(r) == self@.root_step(var@),
    {
        let name = var.display_name();
        if let Some(source) = self.forwarded_source_var(&name) {
            return Some(source);
        }
        match self.lookup_semantic_value(&name) {
            Some(SemanticValue::Scalar(ScalarValue::Root(root))) => Some(root.var.dup()),
            Some(SemanticValue::Address(addr)) => match &addr.base {
                BaseRef::Value(root) => Some(root.var.dup()),
                _ => self.find_copy_step(&name),
            },
            _ => self.find_copy_step(&name),
        }
    }

    /// The variable that a value is rooted in.
    pub fn semantic_root_var(&self, var: &SSAVar, depth: u32, visited: &Vec<String>) -> (r: Option<
        SSAVar,
    >)
        ensures
            view_opt_var(r) == self@.root_var(var@, depth as int, texts(visited@)),
        decreases MAX_SEMANTIC_RENDER_DEPTH + 1 - depth,
    {
        let name = var.display_name();
        if depth > MAX_SEMANTIC_RENDER_DEPTH || has_name(visited, &name) {
            return None;
        }
        let within = with_name(visited, &name);
        match self.find_root_step(var) {
            Some(next) => match self.semantic_root_var(&next, depth + 1, &within) {
                Some(root) => Some(root),
                None => Some(next),
            },
            None => None,
        }
    }

    fn find_reached_type(&self, var: &SSAVar) -> (r: Option<CType>)
        ensures
            view_opt_type(r) == self@.reached_type(var@),
    {
        match self.type_hint_for_var(var) {
            Some(ty) => ty.pointee(),
            None => None,
        }
    }

    /// The type of the elements behind a variable.
    pub fn infer_subscript_elem_type(&self, base: &SSAVar, element_size: u32) -> (r: CType)
        ensures
            r@ == self@.subscript_type(base@, element_size),
    {
        if let Some(oracle) = &self.ctx.inputs.type_oracle {
            if in_list(&oracle.reaching, &base.display_name()) {
                if let Some(ty) = self.find_reached_type(base) {
                    return ty;
                }
            }
        }
        uint_type_from_size(element_size)
    }

    /// The type of the elements behind the base of an address.
    pub fn infer_elem_type_from_base_ref(&self, base: &BaseRef, element_size: u32) -> (r: CType)
        ensures
            r@ == self@.element_type(base@, element_size),
    {
        match base {
            BaseRef::Value(v) => {
                if let Some(ty) = self.find_reached_type(&v.var) {
                    return ty;
                }
                if self.ctx.inputs.type_oracle.is_some() {
                    let none: Vec<String> = Vec::new();
                    assert(texts(none@) =~= Seq::<Seq<char>>::empty());
                    if let Some(root) = self.semantic_root_var(&v.var, 0, &none) {
                        if let Some(ty) = self.find_reached_type(&root) {
                            return ty;
                        }
                    }
                }
                self.infer_subscript_elem_type(&v.var, element_size)
            },
            BaseRef::Raw(e) => match e {
                CExpr::Var(name) => match self.lookup_type_hint(name) {
                    Some(ty) => match ty.pointee() {
                        Some(inner) => inner,
                        None => uint_type_from_size(element_size),
                    },
                    None => uint_type_from_size(element_size),
                },
                _ => uint_type_from_size(element_size),
            },
            BaseRef::StackSlot(_) => uint_type_from_size(element_size),
        }
    }

    /// Is a load at the base itself shown as the first element?
    pub fn should_render_zero_offset_load_as_subscript(&self, base: &CExpr, ty: &CType) -> (r: bool)
        ensures
            r == self@.first_element(base@, ty@),
    {
        let holds = match self.expr_type_hint(base) {
            Some(CType::Array(_, _)) => true,
            Some(hint) => hint.is_pointer() && match hint.pointee() {
                Some(inner) => matches!(inner, CType::Pointer(_) | CType::Array(_, _)),
                None => false,
            },
            None => false,
        };
        holds && can_render_constant_offset_as_subscript(ty)
    }

    /// Signedness and width of what the function returns.
    pub fn function_return_int_meta(&self) -> (r: Option<(bool, u32)>)
        ensures
            r == self@.return_meta(),
    {
        match &self.ctx.inputs.function_return_type {
            Some(ty) => int_meta(ty),
            None => None,
        }
    }

    /// Does the function return no more bits than a variable holds?
    pub fn should_preserve_narrow_return_expr(&self, src: &SSAVar) -> (r: bool)
        ensures
            r == self@.narrow_return(src@),
    {
        match self.function_return_int_meta() {
            Some((_, bits)) => bits <= bits_of(src.size),
            None => false,
        }
    }

    /// A returned value behind a width change.
    pub fn tracked_return_cast_expr(&self, dst: &SSAVar, src: &SSAVar, e: CExpr) -> (r: CExpr)
        ensures
            r@ == self@.return_cast(dst@, src@, e@),
    {
        if self.should_preserve_narrow_return_expr(src) {
            e
        } else {
            CExpr::cast(type_from_size(dst.size), e)
        }
    }

    /// The right side of an assignment, cast as the variable's hint asks.
    pub fn assignment_rhs_with_type_policy(
        &self,
        dst: &SSAVar,
        src: Option<&SSAVar>,
        rhs: CExpr,
    ) -> (r: CExpr)
        ensures
            r@ == self@.typed_rhs(dst@, crate::ssa::view_opt_var_ref(src), rhs@),
    {
        match self.type_hint_for_var(dst) {
            None => rhs,
            Some(ty) => {
                let source = match src {
                    Some(src) => self.type_hint_for_var(src),
                    None => None,
                };
                cast_expr_if_needed(rhs, ty, source.as_ref())
            },
        }
    }

    /// An address as a pointer of a type.
    pub fn cast_addr_expr_to_ptr_if_needed(&self, addr: &SSAVar, e: CExpr, target: &CType) -> (r: CExpr)
        ensures
            r@ == self@.as_pointer(addr@, e@, target@),
    {
        if let CExpr::Cast { ty, .. } = &e {
            if ty.same(target) {
                return e;
            }
        }
        let source = match self.expr_type_hint(&e) {
            Some(ty) => Some(ty),
            None => self.type_hint_for_var(addr),
        };
        if source.is_some() {
            return cast_expr_if_needed(e, target.dup(), source.as_ref());
        }
        if self.looks_like_pointer(&e) {
            e
        } else {
            CExpr::cast(target.dup(), e)
        }
    }
}

} // verus!
