//! What an expression is made of.

use crate::ast::expr::{kid_is_smaller, kids, BinaryOp, CExpr, Expr};
use crate::ast::types::{view_opt as view_opt_type, CType, Type};
use crate::fold::context::MAX_SEMANTIC_RENDER_DEPTH;
use crate::fold::levels::{Folder, Reading};
use crate::fold::names::{
    callee_key, generic_arg, is_generic_arg_name, is_generic_stack_placeholder_alias,
    is_low_quality_imported_call_arg_name, low_quality_arg, normalize_callee_name, stack_placeholder,
};
use crate::fold::tables::{entry, find, named_expr};
use crate::text::{
    contains, copy_of, has_infix, has_prefix, has_suffix, listed, lower, same, same_ignoring_case,
    same_lower, starts_with, to_lower, unicode_lower, ends_with,
};
use vstd::prelude::*;

verus! {

broadcast use kid_is_smaller;

/// A parameter of the program's entry, or one known by its position alone.
pub open spec fn entry_arg_like(e: Expr) -> bool
    decreases e,
{
    match e {
        Expr::Var(name) => same_ignoring_case(name, "argc"@) || same_ignoring_case(name, "argv"@)
            || same_ignoring_case(name, "envp"@) || generic_arg(name),
        Expr::Paren(inner) => entry_arg_like(*inner),
        Expr::Cast { ty, expr } => entry_arg_like(*expr),
        _ => false,
    }
}

/// A parameter of the program's entry, or one known by its position alone.
pub fn expr_is_generic_entry_arg_like(e: &CExpr) -> (r: bool)
    ensures
        r == entry_arg_like(e@),
    decreases e,
{
    match e {
        CExpr::Var(name) => same_lower(name, "argc") || same_lower(name, "argv") || same_lower(
            name,
            "envp",
        ) || is_generic_arg_name(name),
        CExpr::Paren(inner) => expr_is_generic_entry_arg_like(inner),
        CExpr::Cast { ty, expr } => expr_is_generic_entry_arg_like(expr),
        _ => false,
    }
}

/// Does an expression name a variable, up to case?
pub open spec fn mentions_name(e: Expr, name: Seq<char>) -> bool
    decreases e,
{
    ||| e matches Expr::Var(own) && same_ignoring_case(own, name)
    ||| exists|i: int| 0 <= i < kids(e).len() && mentions_name(#[trigger] kids(e)[i], name)
}

/// Does an expression name a variable, up to case?
pub fn expr_mentions_rendered_name(e: &CExpr, name: &str) -> (r: bool)
    ensures
        r == mentions_name(e@, name@),
    decreases e,
{
    if let CExpr::Var(own) = e {
        return same_lower(own, name);
    }
    let n = e.arity();
    let mut i: u128 = 0;
    while i < n
        invariant
            i <= n == kids(e@).len(),
            !(e@ is Var),
            forall|j: int| 0 <= j < i ==> !mentions_name(#[trigger] kids(e@)[j], name@),
        decreases n - i,
    {
        if expr_mentions_rendered_name(e.kid(i), name) {
            return true;
        }
        i = i + 1;
    }
    false
}

/// A made-up stack name.
pub open spec fn synthetic_stack_name(name: Seq<char>) -> bool {
    let l = lower(name);
    l == "stack"@ || l == "saved_fp"@ || has_prefix(l, "stack_"@)
}

/// Does an expression name a made-up stack location?
pub open spec fn has_synthetic_stack(e: Expr) -> bool
    decreases e,
{
    ||| e matches Expr::Var(name) && synthetic_stack_name(name)
    ||| exists|i: int| 0 <= i < kids(e).len() && has_synthetic_stack(#[trigger] kids(e)[i])
}

/// Does an expression name a made-up stack location?
pub fn expr_contains_synthetic_stack_placeholder(e: &CExpr) -> (r: bool)
    ensures
        r == has_synthetic_stack(e@),
    decreases e,
{
    if let CExpr::Var(name) = e {
        let l = to_lower(name);
        return same(&l, "stack") || same(&l, "saved_fp") || starts_with(&l, "stack_");
    }
    let n = e.arity();
    let mut i: u128 = 0;
    while i < n
        invariant
            i <= n == kids(e@).len(),
            !(e@ is Var),
            forall|j: int| 0 <= j < i ==> !has_synthetic_stack(#[trigger] kids(e@)[j]),
        decreases n - i,
    {
        if expr_contains_synthetic_stack_placeholder(e.kid(i)) {
            return true;
        }
        i = i + 1;
    }
    false
}

/// An expression that has an address.
pub open spec fn addressable(e: Expr) -> bool {
    e is Var || e is Subscript || e is Member || e is PtrMember
}

/// An expression that has an address.
pub fn expr_supports_addr_of(e: &CExpr) -> (r: bool)
    ensures
        r == addressable(e@),
{
    matches!(
        e,
        CExpr::Var(_) | CExpr::Subscript { .. } | CExpr::Member { .. } | CExpr::PtrMember { .. }
    )
}

/// The name at the root of an expression, behind parentheses and casts.
pub open spec fn root_name(e: Expr) -> Option<Seq<char>>
    decreases e,
{
    match e {
        Expr::Var(name) => Some(name),
        Expr::Cast { ty, expr } => root_name(*expr),
        Expr::Paren(inner) => root_name(*inner),
        _ => None,
    }
}

/// The name at the root of an expression, behind parentheses and casts.
pub fn root_visible_name_in_expr(e: &CExpr) -> (r: Option<String>)
    ensures
        crate::fold::tables::view_opt_text(r) == root_name(e@),
    decreases e,
{
    match e {
        CExpr::Var(name) => Some(copy_of(name)),
        CExpr::Cast { ty, expr } => root_visible_name_in_expr(expr),
        CExpr::Paren(inner) => root_visible_name_in_expr(inner),
        _ => None,
    }
}

/// The name of a callee, behind parentheses, casts, and address operators.
pub open spec fn callee_name(e: Expr) -> Option<Seq<char>>
    decreases e,
{
    match e {
        Expr::Var(name) => Some(name),
        Expr::Deref(inner) => callee_name(*inner),
        Expr::Paren(inner) => callee_name(*inner),
        Expr::AddrOf(inner) => callee_name(*inner),
        Expr::Cast { ty, expr } => callee_name(*expr),
        _ => None,
    }
}

/// The name of a callee, behind parentheses, casts, and address operators.
pub fn call_arg_callee_name(e: &CExpr) -> (r: Option<String>)
    ensures
        crate::fold::tables::view_opt_text(r) == callee_name(e@),
    decreases e,
{
    match e {
        CExpr::Var(name) => Some(copy_of(name)),
        CExpr::Deref(inner) => call_arg_callee_name(inner),
        CExpr::Paren(inner) => call_arg_callee_name(inner),
        CExpr::AddrOf(inner) => call_arg_callee_name(inner),
        CExpr::Cast { ty, expr } => call_arg_callee_name(expr),
        _ => None,
    }
}

/// A literal, or sums and differences of literals. `depth` counts the levels
/// gone down; past the limit an expression is none.
pub open spec fn constish(e: Expr, depth: int) -> bool
    decreases e,
{
    depth <= MAX_SEMANTIC_RENDER_DEPTH && match e {
        Expr::IntLit(_) => true,
        Expr::UIntLit(_) => true,
        Expr::StringLit(_) => true,
        Expr::Paren(inner) => constish(*inner, depth + 1),
        Expr::Cast { ty, expr } => constish(*expr, depth + 1),
        Expr::Binary { op, left, right } => (op == BinaryOp::Add || op == BinaryOp::Sub)
            && constish(*left, depth + 1) && constish(*right, depth + 1),
        _ => false,
    }
}

/// A literal, or sums and differences of literals.
pub fn is_direct_constish_visible_expr(e: &CExpr, depth: u32) -> (r: bool)
    ensures
        r == constish(e@, depth as int),
    decreases e,
{
    if depth > MAX_SEMANTIC_RENDER_DEPTH {
        return false;
    }
    match e {
        CExpr::IntLit(_) | CExpr::UIntLit(_) | CExpr::StringLit(_) => true,
        CExpr::Paren(inner) => is_direct_constish_visible_expr(inner, depth + 1),
        CExpr::Cast { ty, expr } => is_direct_constish_visible_expr(expr, depth + 1),
        CExpr::Binary { op, left, right } => (*op == BinaryOp::Add || *op == BinaryOp::Sub)
            && is_direct_constish_visible_expr(left, depth + 1) && is_direct_constish_visible_expr(
            right,
            depth + 1,
        ),
        _ => false,
    }
}

/// Is the recent value to be preferred over the direct one? A parameter gives
/// way to anything that is none, unless the direct value is a literal and the
/// recent one is not.
pub fn should_prefer_recent_same_family_return_expr(recent: &CExpr, direct: &CExpr) -> (r: bool)
    ensures
        r == (entry_arg_like(direct@) && !entry_arg_like(recent@) && (constish(recent@, 0)
            || !constish(direct@, 0))),
{
    expr_is_generic_entry_arg_like(direct) && !expr_is_generic_entry_arg_like(recent) && (
    is_direct_constish_visible_expr(recent, 0) || !is_direct_constish_visible_expr(direct, 0))
}

/// The part of a jump table access that may be its table.
pub open spec fn jump_table_base(e: Expr) -> bool
    decreases e,
{
    match e {
        Expr::UIntLit(_) => true,
        Expr::IntLit(_) => true,
        Expr::StringLit(_) => true,
        Expr::Var(name) => has_prefix(name, "sym."@) || has_prefix(name, "obj."@) || has_prefix(
            name,
            "0x"@,
        ),
        Expr::Paren(inner) => jump_table_base(*inner),
        Expr::Cast { ty, expr } => jump_table_base(*expr),
        _ => false,
    }
}

/// The part of a jump table access that may be its table.
pub fn is_jump_table_base_expr(e: &CExpr) -> (r: bool)
    ensures
        r == jump_table_base(e@),
    decreases e,
{
    match e {
        CExpr::UIntLit(_) | CExpr::IntLit(_) | CExpr::StringLit(_) => true,
        CExpr::Var(name) => starts_with(name, "sym.") || starts_with(name, "obj.") || starts_with(
            name,
            "0x",
        ),
        CExpr::Paren(inner) => is_jump_table_base_expr(inner),
        CExpr::Cast { ty, expr } => is_jump_table_base_expr(expr),
        _ => false,
    }
}

/// Does an argument hold a stack placeholder, at most `MAX_SEMANTIC_RENDER_DEPTH`
/// levels down?
pub open spec fn arg_has_placeholder(e: Expr, depth: int) -> bool
    decreases e,
{
    depth <= MAX_SEMANTIC_RENDER_DEPTH && {
        ||| e matches Expr::Var(name) && stack_placeholder(name)
        ||| exists|i: int|
            0 <= i < kids(e).len() && arg_has_placeholder(#[trigger] kids(e)[i], depth + 1)
    }
}

/// Does an argument hold a stack placeholder?
pub fn call_arg_contains_stack_placeholder(e: &CExpr, depth: u32) -> (r: bool)
    ensures
        r == arg_has_placeholder(e@, depth as int),
    decreases e,
{
    if depth > MAX_SEMANTIC_RENDER_DEPTH {
        return false;
    }
    if let CExpr::Var(name) = e {
        return is_generic_stack_placeholder_alias(name);
    }
    let n = e.arity();
    let mut i: u128 = 0;
    while i < n
        invariant
            i <= n == kids(e@).len(),
            depth <= MAX_SEMANTIC_RENDER_DEPTH,
            !(e@ is Var),
            forall|j: int|
                0 <= j < i ==> !arg_has_placeholder(#[trigger] kids(e@)[j], depth + 1),
        decreases n - i,
    {
        if call_arg_contains_stack_placeholder(e.kid(i), depth + 1) {
            return true;
        }
        i = i + 1;
    }
    false
}

/// Does an argument hold a name that says only where a value is stored?
pub open spec fn arg_has_low_quality(e: Expr, depth: int) -> bool
    decreases e,
{
    depth <= MAX_SEMANTIC_RENDER_DEPTH && {
        ||| e matches Expr::Var(name) && low_quality_arg(name)
        ||| exists|i: int|
            0 <= i < kids(e).len() && arg_has_low_quality(#[trigger] kids(e)[i], depth + 1)
    }
}

/// Does an argument hold a name that says only where a value is stored?
pub fn call_arg_contains_low_quality_name(e: &CExpr, depth: u32) -> (r: bool)
    ensures
        r == arg_has_low_quality(e@, depth as int),
    decreases e,
{
    if depth > MAX_SEMANTIC_RENDER_DEPTH {
        return false;
    }
    if let CExpr::Var(name) = e {
        return is_low_quality_imported_call_arg_name(name);
    }
    let n = e.arity();
    let mut i: u128 = 0;
    while i < n
        invariant
            i <= n == kids(e@).len(),
            depth <= MAX_SEMANTIC_RENDER_DEPTH,
            !(e@ is Var),
            forall|j: int|
                0 <= j < i ==> !arg_has_low_quality(#[trigger] kids(e@)[j], depth + 1),
        decreases n - i,
    {
        if call_arg_contains_low_quality_name(e.kid(i), depth + 1) {
            return true;
        }
        i = i + 1;
    }
    false
}

/// Does an argument hold a call?
pub open spec fn arg_has_call(e: Expr, depth: int) -> bool
    decreases e,
{
    depth <= MAX_SEMANTIC_RENDER_DEPTH && {
        ||| e is Call
        ||| exists|i: int|
            0 <= i < kids(e).len() && arg_has_call(#[trigger] kids(e)[i], depth + 1)
    }
}

/// Does an argument hold a call?
pub fn call_arg_contains_call(e: &CExpr, depth: u32) -> (r: bool)
    ensures
        r == arg_has_call(e@, depth as int),
    decreases e,
{
    if depth > MAX_SEMANTIC_RENDER_DEPTH {
        return false;
    }
    if let CExpr::Call { .. } = e {
        return true;
    }
    let n = e.arity();
    let mut i: u128 = 0;
    while i < n
        invariant
            i <= n == kids(e@).len(),
            depth <= MAX_SEMANTIC_RENDER_DEPTH,
            !(e@ is Call),
            forall|j: int| 0 <= j < i ==> !arg_has_call(#[trigger] kids(e@)[j], depth + 1),
        decreases n - i,
    {
        if call_arg_contains_call(e.kid(i), depth + 1) {
            return true;
        }
        i = i + 1;
    }
    false
}

impl Reading {
    /// Does an argument hold a register or flag under its own name?
    pub open spec fn arg_has_transient(&self, e: Expr, depth: int) -> bool
        decreases e,
    {
        depth <= MAX_SEMANTIC_RENDER_DEPTH && {
            ||| e matches Expr::Var(name) && self.transient(name)
            ||| exists|i: int|
                0 <= i < kids(e).len() && self.arg_has_transient(#[trigger] kids(e)[i], depth + 1)
        }
    }

    /// An argument that is worth keeping as it is.
    pub open spec fn kept_input(&self, e: Expr) -> bool {
        !arg_has_placeholder(e, 0) && !self.arg_has_transient(e, 0) && !arg_has_low_quality(e, 0)
            && !(e is Call)
    }

    /// A named stack slot or parameter, behind parentheses and casts.
    pub open spec fn named_slot(&self, e: Expr) -> bool
        decreases e,
    {
        match e {
            Expr::Var(name) => (self.storage_offset(name) is Some
                || crate::fold::tables::value_named(self.ctx.inputs.param_register_aliases@, name))
                && self.telling(name),
            Expr::Paren(inner) => self.named_slot(*inner),
            Expr::Cast { ty, expr } => self.named_slot(*expr),
            _ => false,
        }
    }

    /// Is an expression small enough to be repeated? Names are followed to
    /// their definitions, up to a depth.
    pub open spec fn simple(&self, e: Expr, depth: int) -> bool
        decreases self.ctx.limits.simple_expr + 1 - depth,
    {
        depth <= self.ctx.limits.simple_expr && match e {
            Expr::IntLit(_) => true,
            Expr::UIntLit(_) => true,
            Expr::FloatLit(_) => true,
            Expr::StringLit(_) => true,
            Expr::CharLit(_) => true,
            Expr::Var(name) => listed(self.ctx.arch.cpu_flags@, unicode_lower(name)) || match named_expr(
                self.ctx.facts.definitions@,
                name,
            ) {
                Some(inner) => self.simple(inner, depth + 1),
                None => true,
            },
            Expr::Cast { ty, expr } => self.simple(*expr, depth + 1),
            Expr::Paren(inner) => self.simple(*inner, depth + 1),
            Expr::Unary { op, operand } => self.simple(*operand, depth + 1),
            Expr::Binary { op, left, right } => plain_operator(op) && self.simple(*left, depth + 1)
                && self.simple(*right, depth + 1),
            _ => false,
        }
    }

    /// A register that stack addresses are counted from, or a stand-in for one.
    pub open spec fn stack_base_like(&self, e: Expr) -> bool
        decreases e,
    {
        match e {
            Expr::Var(name) => {
                let l = lower(name);
                listed(self.ctx.arch.stack_bases@, l) || listed(self.ctx.arch.frame_pointers@, l) || l
                    == "stack"@ || l == "saved_fp"@ || stack_placeholder(name)
            },
            Expr::Paren(inner) => self.stack_base_like(*inner),
            Expr::Cast { ty, expr } => self.stack_base_like(*expr),
            Expr::Unary { op, operand } => self.stack_base_like(*operand),
            _ => false,
        }
    }

    /// Does an expression add to or subtract from a stack base?
    pub open spec fn stack_arithmetic(&self, e: Expr) -> bool
        decreases e,
    {
        ||| e matches Expr::Binary { op, left, right } && (op == BinaryOp::Add || op
            == BinaryOp::Sub) && (self.stack_base_like(*left) || self.stack_base_like(*right))
        ||| exists|i: int| 0 <= i < kids(e).len() && self.stack_arithmetic(#[trigger] kids(e)[i])
    }

    /// An expression that stands for a place rather than a number to count with.
    pub open spec fn pointer_shaped(&self, e: Expr) -> bool
        decreases e,
    {
        match e {
            Expr::Cast { ty, expr } => ty is Pointer,
            Expr::Deref(_) => true,
            Expr::Subscript { .. } => true,
            Expr::PtrMember { .. } => true,
            Expr::Var(name) => {
                let l = lower(name);
                has_infix(l, "ptr"@) || has_infix(l, "addr"@) || self.slot_of(name) is Some || (
                self.hint(name) matches Some(ty) && (ty is Pointer || ty is Struct))
            },
            Expr::Paren(inner) => self.pointer_shaped(*inner),
            Expr::Unary { op, operand } => self.pointer_shaped(*operand),
            _ => false,
        }
    }

    /// Does a slot carry the operand of a condition or the returned value?
    pub open spec fn carrier(&self, name: Seq<char>) -> bool {
        self.slot_of(name) matches Some(slot) && (slot.predicate_carrier || slot.return_carrier)
    }

    /// An address where a number is wanted.
    pub open spec fn address_artifact(&self, e: Expr) -> bool
        decreases e,
    {
        match e {
            Expr::AddrOf(_) => true,
            Expr::Deref(inner) => self.stack_arithmetic(*inner),
            Expr::Subscript { base, index } => self.stack_arithmetic(*base)
                || self.stack_arithmetic(*index),
            Expr::Member { base, member } => self.stack_arithmetic(*base),
            Expr::PtrMember { base, member } => self.stack_arithmetic(*base),
            Expr::Var(name) => self.pointer_shaped(e) && !self.carrier(name),
            Expr::Cast { ty, expr } => ty is Pointer || self.address_artifact(*expr),
            Expr::Binary { op, left, right } => self.stack_arithmetic(e) || self.address_artifact(
                *left,
            ) || self.address_artifact(*right),
            _ => exists|i: int|
                0 <= i < kids(e).len() && self.address_artifact(#[trigger] kids(e)[i]),
        }
    }

    /// The type that an expression is hinted to have.
    pub open spec fn expr_hint(&self, e: Expr) -> Option<Type>
        decreases e,
    {
        match e {
            Expr::Var(name) => self.hint(name),
            Expr::Call { func, args } => match near_callee(*func) {
                Some(name) => match entry(
                    self.ctx.inputs.known_function_signatures@,
                    callee_key(self.ctx.answers.addresses@, name),
                ) {
                    Some(ty) => Some(ty@),
                    None => None,
                },
                None => None,
            },
            Expr::Cast { ty, expr } => Some(ty),
            Expr::Paren(inner) => self.expr_hint(*inner),
            _ => None,
        }
    }

    /// Does an expression look like a pointer?
    pub open spec fn pointer_like(&self, e: Expr) -> bool
        decreases e,
    {
        (self.expr_hint(e) matches Some(ty) && (ty is Pointer || ty is Array || ty is Struct || ty
            is Union)) || match e {
            Expr::Cast { ty, expr } => ty is Pointer,
            Expr::Deref(_) => true,
            Expr::Subscript { .. } => true,
            Expr::Member { .. } => true,
            Expr::PtrMember { .. } => true,
            Expr::Var(name) => has_prefix(name, "arg"@) || has_infix(name, "ptr"@) || (self.hint(
                name,
            ) matches Some(ty) && (ty is Pointer || ty is Struct)),
            Expr::Binary { op, left, right } => (op == BinaryOp::Add || op == BinaryOp::Sub) && (
            self.pointer_like(*left) || self.pointer_like(*right)),
            _ => false,
        }
    }

    /// Is the callee one whose signature is known, or an import?
    pub open spec fn imported(&self, callee: Expr) -> bool {
        match callee_name(callee) {
            Some(name) => entry(
                self.ctx.inputs.known_function_signatures@,
                callee_key(self.ctx.answers.addresses@, name),
            ) is Some || has_infix(name, "sym.imp."@) || has_prefix(name, "imp."@),
            None => false,
        }
    }

    /// One name for the target of a call.
    pub open spec fn target_key(&self, e: Expr) -> Option<Seq<char>> {
        match callee_name(e) {
            Some(name) => Some(callee_key(self.ctx.answers.addresses@, name)),
            None => None,
        }
    }

    /// Does a name in an expression stand for the stack pointer, the frame
    /// pointer, or the program counter?
    pub open spec fn mentions_machine_register(&self, e: Expr) -> bool
        decreases e,
    {
        match e {
            Expr::Var(name) => {
                let l = unicode_lower(name);
                listed(self.ctx.arch.stack_pointers@, l) || listed(self.ctx.arch.frame_pointers@, l) || l
                    == "pc"@ || has_prefix(l, "pc_"@) || l == "lr"@ || has_prefix(l, "lr_"@) || l
                    == "ra"@ || has_prefix(l, "ra_"@) || l == "x30"@ || has_prefix(l, "x30_"@)
                    || has_infix(l, "rip"@) || has_infix(l, "eip"@)
            },
            Expr::Unary { op, operand } => self.mentions_machine_register(*operand),
            Expr::Binary { op, left, right } => self.mentions_machine_register(*left)
                || self.mentions_machine_register(*right),
            Expr::Paren(inner) => self.mentions_machine_register(*inner),
            Expr::Cast { ty, expr } => self.mentions_machine_register(*expr),
            Expr::Deref(inner) => self.mentions_machine_register(*inner),
            _ => false,
        }
    }

    /// A machine register, or a load through one, where a returned value is wanted.
    pub open spec fn return_artifact(&self, e: Expr) -> bool
        decreases e,
    {
        match e {
            Expr::Deref(inner) => self.mentions_machine_register(*inner),
            Expr::Var(_) => self.mentions_machine_register(e),
            Expr::Paren(inner) => self.return_artifact(*inner),
            Expr::Cast { ty, expr } => self.return_artifact(*expr),
            _ => false,
        }
    }

    /// The return register as the function's caller left it.
    pub open spec fn untouched_return_register(&self, e: Expr) -> bool
        decreases e,
    {
        match e {
            Expr::Var(name) => {
                let l = unicode_lower(name);
                has_suffix(l, "_0"@) && listed(
                    self.ctx.arch.return_regs@,
                    crate::fold::names::stripped_of_end(l, "_0"@),
                )
            },
            Expr::Paren(inner) => self.untouched_return_register(*inner),
            Expr::Cast { ty, expr } => self.untouched_return_register(*expr),
            _ => false,
        }
    }

    /// The part of a jump table access that may be its selector.
    pub open spec fn selector_index(&self, e: Expr) -> bool
        decreases e,
    {
        match e {
            Expr::Var(name) => self.telling(name),
            Expr::Paren(inner) => self.selector_index(*inner),
            Expr::Cast { ty, expr } => self.selector_index(*expr),
            Expr::Binary { op, left, right } => self.selector_index(*left) || self.selector_index(
                *right,
            ),
            _ => false,
        }
    }

    /// A switch selector without wrappers and without the jump table it indexes.
    pub open spec fn bare_selector(&self, e: Expr) -> Expr
        decreases e,
    {
        match e {
            Expr::Paren(inner) => self.bare_selector(*inner),
            Expr::Cast { ty, expr } => self.bare_selector(*expr),
            Expr::Subscript { base, index } => if jump_table_base(*base) && self.selector_index(
                *index,
            ) {
                self.bare_selector(*index)
            } else {
                e
            },
            _ => e,
        }
    }
}

impl<'a> Folder<'a> {
    /// Does an argument hold a register or flag under its own name?
    pub fn call_arg_contains_transient_name(&self, e: &CExpr, depth: u32) -> (r: bool)
        ensures
            r == self@.arg_has_transient(e@, depth as int),
        decreases e,
    {
        if depth > MAX_SEMANTIC_RENDER_DEPTH {
            return false;
        }
        if let CExpr::Var(name) = e {
            return self.is_transient_visible_name(name);
        }
        let n = e.arity();
        let mut i: u128 = 0;
        while i < n
            invariant
                i <= n == kids(e@).len(),
                depth <= MAX_SEMANTIC_RENDER_DEPTH,
                !(e@ is Var),
                forall|j: int|
                    0 <= j < i ==> !self@.arg_has_transient(#[trigger] kids(e@)[j], depth + 1),
            decreases n - i,
        {
            if self.call_arg_contains_transient_name(e.kid(i), depth + 1) {
                return true;
            }
            i = i + 1;
        }
        false
    }

    /// An argument that is worth keeping as it is.
    pub fn is_preserved_imported_input_expr(&self, e: &CExpr) -> (r: bool)
        ensures
            r == self@.kept_input(e@),
    {
        !call_arg_contains_stack_placeholder(e, 0) && !self.call_arg_contains_transient_name(e, 0)
            && !call_arg_contains_low_quality_name(e, 0) && !matches!(e, CExpr::Call { .. })
    }

    /// A named stack slot or parameter, behind parentheses and casts.
    pub fn is_preservable_named_stack_slot_expr(&self, e: &CExpr) -> (r: bool)
        ensures
            r == self@.named_slot(e@),
        decreases e,
    {
        match e {
            CExpr::Var(name) => (self.stack_offset_for_visible_storage_name(name).is_some()
                || crate::fold::tables::has_value_named(&self.ctx.inputs.param_register_aliases, name))
                && self.is_telling_name(name),
            CExpr::Paren(inner) => self.is_preservable_named_stack_slot_expr(inner),
            CExpr::Cast { ty, expr } => self.is_preservable_named_stack_slot_expr(expr),
            _ => false,
        }
    }

    /// Is an expression small enough to be repeated?
    pub fn is_simple_expr(&self, e: &CExpr, depth: u32) -> (r: bool)
        ensures
            r == self@.simple(e@, depth as int),
        decreases self.ctx.limits.simple_expr + 1 - depth,
    {
        if depth > self.ctx.limits.simple_expr as u32 {
            return false;
        }
        match e {
            CExpr::IntLit(_)
            | CExpr::UIntLit(_)
            | CExpr::FloatLit(_)
            | CExpr::StringLit(_)
            | CExpr::CharLit(_) => true,
            CExpr::Var(name) => {
                let low = name.as_str().to_lowercase();
                if self.ctx.arch.is_cpu_flag(&low) {
                    return true;
                }
                match find(&self.ctx.facts.definitions, name) {
                    Some(inner) => self.is_simple_expr(inner, depth + 1),
                    None => true,
                }
            },
            CExpr::Cast { ty, expr } => self.is_simple_expr(expr, depth + 1),
            CExpr::Paren(inner) => self.is_simple_expr(inner, depth + 1),
            CExpr::Unary { op, operand } => self.is_simple_expr(operand, depth + 1),
            CExpr::Binary { op, left, right } => is_plain_operator(*op) && self.is_simple_expr(
                left,
                depth + 1,
            ) && self.is_simple_expr(right, depth + 1),
            _ => false,
        }
    }

    /// A register that stack addresses are counted from, or a stand-in for one.
    pub fn expr_is_stack_base_like(&self, e: &CExpr) -> (r: bool)
        ensures
            r == self@.stack_base_like(e@),
        decreases e,
    {
        match e {
            CExpr::Var(name) => {
                let l = to_lower(name);
                self.ctx.arch.is_stack_base_name(&l) || self.ctx.arch.is_frame_pointer_name(&l) || same(
                    &l,
                    "stack",
                ) || same(&l, "saved_fp") || is_generic_stack_placeholder_alias(name)
            },
            CExpr::Paren(inner) => self.expr_is_stack_base_like(inner),
            CExpr::Cast { ty, expr } => self.expr_is_stack_base_like(expr),
            CExpr::Unary { op, operand } => self.expr_is_stack_base_like(operand),
            _ => false,
        }
    }

    /// Does an expression add to or subtract from a stack base?
    pub fn expr_contains_raw_stack_base_arithmetic(&self, e: &CExpr) -> (r: bool)
        ensures
            r == self@.stack_arithmetic(e@),
        decreases e,
    {
        if let CExpr::Binary { op, left, right } = e {
            if (*op == BinaryOp::Add || *op == BinaryOp::Sub) && (self.expr_is_stack_base_like(left)
                || self.expr_is_stack_base_like(right)) {
                return true;
            }
        }
        let n = e.arity();
        let mut i: u128 = 0;
        while i < n
            invariant
                i <= n == kids(e@).len(),
                !(e@ matches Expr::Binary { op, left, right } && (op == BinaryOp::Add || op
                    == BinaryOp::Sub) && (self@.stack_base_like(*left) || self@.stack_base_like(
                    *right,
                ))),
                forall|j: int| 0 <= j < i ==> !self@.stack_arithmetic(#[trigger] kids(e@)[j]),
            decreases n - i,
        {
            if self.expr_contains_raw_stack_base_arithmetic(e.kid(i)) {
                return true;
            }
            i = i + 1;
        }
        false
    }

    /// An expression that stands for a place rather than a number to count with.
    pub fn is_non_index_pointer_expr(&self, e: &CExpr) -> (r: bool)
        ensures
            r == self@.pointer_shaped(e@),
        decreases self.left, 2int, 0int, 0int, 0int, e,
    {
        match e {
            CExpr::Cast { ty, .. } => ty.is_pointer(),
            CExpr::Deref(_) | CExpr::Subscript { .. } | CExpr::PtrMember { .. } => true,
            CExpr::Var(name) => {
                let l = to_lower(name);
                if contains(&l, "ptr") || contains(&l, "addr")
                    || self.stack_slot_provenance_for_name(name).is_some() {
                    return true;
                }
                match self.lookup_type_hint(name) {
                    Some(ty) => matches!(ty, CType::Pointer(_) | CType::Struct(_)),
                    None => false,
                }
            },
            CExpr::Paren(inner) => self.is_non_index_pointer_expr(inner),
            CExpr::Unary { op, operand } => self.is_non_index_pointer_expr(operand),
            _ => false,
        }
    }

    /// Does a slot carry the operand of a condition or the returned value?
    pub fn is_scalar_carrier(&self, name: &str) -> (r: bool)
        ensures
            r == self@.carrier(name@),
        decreases self.left, 2int,
    {
        match self.stack_slot_provenance_for_name(name) {
            Some(slot) => slot.predicate_carrier || slot.return_carrier,
            None => false,
        }
    }

    /// An address where a number is wanted.
    pub fn expr_is_address_artifact_in_scalar_context(&self, e: &CExpr) -> (r: bool)
        ensures
            r == self@.address_artifact(e@),
        decreases e,
    {
        match e {
            CExpr::AddrOf(_) => true,
            CExpr::Deref(inner) => self.expr_contains_raw_stack_base_arithmetic(inner),
            CExpr::Subscript { base, index } => self.expr_contains_raw_stack_base_arithmetic(base)
                || self.expr_contains_raw_stack_base_arithmetic(index),
            CExpr::Member { base, .. } => self.expr_contains_raw_stack_base_arithmetic(base),
            CExpr::PtrMember { base, .. } => self.expr_contains_raw_stack_base_arithmetic(base),
            CExpr::Var(name) => self.is_non_index_pointer_expr(e) && !self.is_scalar_carrier(name),
            CExpr::Cast { ty, expr } => ty.is_pointer()
                || self.expr_is_address_artifact_in_scalar_context(expr),
            CExpr::Binary { op, left, right } => self.expr_contains_raw_stack_base_arithmetic(e)
                || self.expr_is_address_artifact_in_scalar_context(left)
                || self.expr_is_address_artifact_in_scalar_context(right),
            _ => {
                let n = e.arity();
                let mut i: u128 = 0;
                while i < n
                    invariant
                        i <= n == kids(e@).len(),
                        !(e@ is AddrOf || e@ is Deref || e@ is Subscript || e@ is Member || e@
                            is PtrMember || e@ is Var || e@ is Cast || e@ is Binary),
                        forall|j: int|
                            0 <= j < i ==> !self@.address_artifact(#[trigger] kids(e@)[j]),
                    decreases n - i,
                {
                    if self.expr_is_address_artifact_in_scalar_context(e.kid(i)) {
                        return true;
                    }
                    i = i + 1;
                }
                false
            },
        }
    }

    /// The type that an expression is hinted to have.
    pub fn expr_type_hint(&self, e: &CExpr) -> (r: Option<CType>)
        ensures
            view_opt_type(r) == self@.expr_hint(e@),
        decreases e,
    {
        match e {
            CExpr::Var(name) => self.lookup_type_hint(name),
            CExpr::Call { func, args } => match near_callee_name(func) {
                Some(name) => {
                    let key = normalize_callee_name(&self.ctx.answers.addresses, &name);
                    match find(&self.ctx.inputs.known_function_signatures, &key) {
                        Some(ty) => Some(ty.dup()),
                        None => None,
                    }
                },
                None => None,
            },
            CExpr::Cast { ty, .. } => Some(ty.dup()),
            CExpr::Paren(inner) => self.expr_type_hint(inner),
            _ => None,
        }
    }

    /// Does an expression look like a pointer?
    pub fn looks_like_pointer(&self, e: &CExpr) -> (r: bool)
        ensures
            r == self@.pointer_like(e@),
        decreases e,
    {
        if let Some(ty) = self.expr_type_hint(e) {
            if matches!(ty, CType::Pointer(_) | CType::Array(_, _) | CType::Struct(_) | CType::Union(_)) {
                return true;
            }
        }
        match e {
            CExpr::Cast { ty, .. } => ty.is_pointer(),
            CExpr::Deref(_)
            | CExpr::Subscript { .. }
            | CExpr::Member { .. }
            | CExpr::PtrMember { .. } => true,
            CExpr::Var(name) => {
                if starts_with(name, "arg") || contains(name, "ptr") {
                    return true;
                }
                match self.lookup_type_hint(name) {
                    Some(ty) => matches!(ty, CType::Pointer(_) | CType::Struct(_)),
                    None => false,
                }
            },
            CExpr::Binary { op, left, right } => (*op == BinaryOp::Add || *op == BinaryOp::Sub) && (
            self.looks_like_pointer(left) || self.looks_like_pointer(right)),
            _ => false,
        }
    }

    /// Are base and index of an array access the wrong way round?
    pub fn should_swap_indexed_access_base(&self, base: &CExpr, index: &CExpr) -> (r: bool)
        ensures
            r == (!self@.pointer_like(base@) && self@.pointer_like(index@)),
    {
        !self.looks_like_pointer(base) && self.looks_like_pointer(index)
    }

    /// Is the callee one whose signature is known, or an import?
    pub fn is_imported_call_target(&self, callee: &CExpr) -> (r: bool)
        ensures
            r == self@.imported(callee@),
    {
        match call_arg_callee_name(callee) {
            Some(name) => {
                let key = normalize_callee_name(&self.ctx.answers.addresses, &name);
                find(&self.ctx.inputs.known_function_signatures, &key).is_some() || contains(
                    &name,
                    "sym.imp.",
                ) || starts_with(&name, "imp.")
            },
            None => false,
        }
    }

    /// One name for the target of a call.
    pub fn call_target_identity(&self, e: &CExpr) -> (r: Option<String>)
        ensures
            crate::fold::tables::view_opt_text(r) == self@.target_key(e@),
    {
        match call_arg_callee_name(e) {
            Some(name) => Some(normalize_callee_name(&self.ctx.answers.addresses, &name)),
            None => None,
        }
    }

    /// Does a name in an expression stand for the stack pointer, the frame
    /// pointer, or the program counter?
    pub fn expr_mentions_stack_or_ip(&self, e: &CExpr) -> (r: bool)
        ensures
            r == self@.mentions_machine_register(e@),
        decreases e,
    {
        match e {
            CExpr::Var(name) => {
                let l = name.as_str().to_lowercase();
                self.ctx.arch.is_stack_pointer_name(&l) || self.ctx.arch.is_frame_pointer_name(&l) || same(
                    &l,
                    "pc",
                ) || starts_with(&l, "pc_") || same(&l, "lr") || starts_with(&l, "lr_") || same(
                    &l,
                    "ra",
                ) || starts_with(&l, "ra_") || same(&l, "x30") || starts_with(&l, "x30_")
                    || contains(&l, "rip") || contains(&l, "eip")
            },
            CExpr::Unary { op, operand } => self.expr_mentions_stack_or_ip(operand),
            CExpr::Binary { op, left, right } => self.expr_mentions_stack_or_ip(left)
                || self.expr_mentions_stack_or_ip(right),
            CExpr::Paren(inner) => self.expr_mentions_stack_or_ip(inner),
            CExpr::Cast { ty, expr } => self.expr_mentions_stack_or_ip(expr),
            CExpr::Deref(inner) => self.expr_mentions_stack_or_ip(inner),
            _ => false,
        }
    }

    /// A machine register, or a load through one, where a returned value is wanted.
    pub fn is_low_level_return_artifact(&self, e: &CExpr) -> (r: bool)
        ensures
            r == self@.return_artifact(e@),
        decreases e,
    {
        match e {
            CExpr::Deref(inner) => self.expr_mentions_stack_or_ip(inner),
            CExpr::Var(_) => self.expr_mentions_stack_or_ip(e),
            CExpr::Paren(inner) => self.is_low_level_return_artifact(inner),
            CExpr::Cast { ty, expr } => self.is_low_level_return_artifact(expr),
            _ => false,
        }
    }

    /// The return register as the function's caller left it.
    pub fn is_uninitialized_return_reg(&self, e: &CExpr) -> (r: bool)
        ensures
            r == self@.untouched_return_register(e@),
        decreases e,
    {
        match e {
            CExpr::Var(name) => {
                let l = name.as_str().to_lowercase();
                if !ends_with(&l, "_0") {
                    return false;
                }
                proof {
                    reveal_strlit("_0");
                }
                let base = crate::fold::names::strip_all_end(l, "_0");
                self.ctx.arch.is_return_register_name(&base)
            },
            CExpr::Paren(inner) => self.is_uninitialized_return_reg(inner),
            CExpr::Cast { ty, expr } => self.is_uninitialized_return_reg(expr),
            _ => false,
        }
    }

    /// The part of a jump table access that may be its selector.
    pub fn is_switch_selector_index_expr(&self, e: &CExpr) -> (r: bool)
        ensures
            r == self@.selector_index(e@),
        decreases e,
    {
        match e {
            CExpr::Var(name) => self.is_telling_name(name),
            CExpr::Paren(inner) => self.is_switch_selector_index_expr(inner),
            CExpr::Cast { ty, expr } => self.is_switch_selector_index_expr(expr),
            CExpr::Binary { op, left, right } => self.is_switch_selector_index_expr(left)
                || self.is_switch_selector_index_expr(right),
            _ => false,
        }
    }

    /// A switch selector without wrappers and without the jump table it indexes.
    pub fn simplify_switch_selector_expr(&self, e: CExpr) -> (r: CExpr)
        ensures
            r@ == self@.bare_selector(e@),
        decreases e,
    {
        match e {
            CExpr::Paren(inner) => self.simplify_switch_selector_expr(*inner),
            CExpr::Cast { ty, expr } => self.simplify_switch_selector_expr(*expr),
            CExpr::Subscript { base, index } => if is_jump_table_base_expr(&base)
                && self.is_switch_selector_index_expr(&index) {
                self.simplify_switch_selector_expr(*index)
            } else {
                CExpr::Subscript { base, index }
            },
            other => other,
        }
    }
}

/// The callee's name, at most one wrapper down.
pub open spec fn near_callee(e: Expr) -> Option<Seq<char>> {
    match e {
        Expr::Var(name) => Some(name),
        Expr::Deref(inner) => var_text(*inner),
        Expr::Paren(inner) => var_text(*inner),
        Expr::AddrOf(inner) => var_text(*inner),
        Expr::Cast { ty, expr } => var_text(*expr),
        _ => None,
    }
}

/// The name of a variable.
pub open spec fn var_text(e: Expr) -> Option<Seq<char>> {
    match e {
        Expr::Var(name) => Some(name),
        _ => None,
    }
}

/// The name of a variable.
pub fn text_of_var(e: &CExpr) -> (r: Option<String>)
    ensures
        crate::fold::tables::view_opt_text(r) == var_text(e@),
{
    match e {
        CExpr::Var(name) => Some(copy_of(name)),
        _ => None,
    }
}

fn near_callee_name(e: &CExpr) -> (r: Option<String>)
    ensures
        crate::fold::tables::view_opt_text(r) == near_callee(e@),
{
    match e {
        CExpr::Var(name) => Some(copy_of(name)),
        CExpr::Deref(inner) => text_of_var(inner),
        CExpr::Paren(inner) => text_of_var(inner),
        CExpr::AddrOf(inner) => text_of_var(inner),
        CExpr::Cast { ty, expr } => text_of_var(expr),
        _ => None,
    }
}

/// An operator that a small expression may use.
pub open spec fn plain_operator(op: BinaryOp) -> bool {
    op == BinaryOp::Add || op == BinaryOp::Sub || op == BinaryOp::Eq || op == BinaryOp::Ne || op
        == BinaryOp::BitAnd || op == BinaryOp::BitOr || op == BinaryOp::BitXor || op
        == BinaryOp::And || op == BinaryOp::Or
}

fn is_plain_operator(op: BinaryOp) -> (r: bool)
    ensures
        r == plain_operator(op),
{
    matches!(
        op,
        BinaryOp::Add
        | BinaryOp::Sub
        | BinaryOp::Eq
        | BinaryOp::Ne
        | BinaryOp::BitAnd
        | BinaryOp::BitOr
        | BinaryOp::BitXor
        | BinaryOp::And
        | BinaryOp::Or
    )
}

} // verus!
