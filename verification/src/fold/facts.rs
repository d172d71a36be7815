//! What analysis has found out about values.

use crate::ast::expr::{CExpr, Expr};
use crate::ssa::{view_opt_var, SSAVar, Var};
use vstd::prelude::*;

verus! {

/// A value, by the variable that holds it and its number in the value graph.
#[derive(Debug)]
pub struct ValueRef {
    pub var: SSAVar,
    pub id: Option<u32>,
}

/// A value, as a mathematical value.
pub struct Val {
    pub var: Var,
    pub id: Option<u32>,
}

impl ValueRef {
    pub open spec fn view(&self) -> Val {
        Val { var: self.var@, id: self.id }
    }

    /// The value that a variable holds, with no number of its own.
    pub fn from_var(var: SSAVar) -> (r: ValueRef)
        ensures
            r@ == val_of(var@),
    {
        ValueRef { var, id: None }
    }

    /// A copy of this reference.
    pub fn dup(&self) -> (r: ValueRef)
        ensures
            r@ == self@,
    {
        ValueRef { var: self.var.dup(), id: self.id }
    }

    /// Are two references the same?
    pub fn same(&self, other: &ValueRef) -> (r: bool)
        ensures
            r == (self@ == other@),
    {
        let ids = match (self.id, other.id) {
            (Some(a), Some(b)) => a == b,
            (None, None) => true,
            _ => false,
        };
        self.var.same(&other.var) && ids
    }
}

/// The value that a variable holds, with no number of its own.
pub open spec fn val_of(var: Var) -> Val {
    Val { var, id: None }
}

/// What an address is counted from.
#[derive(Debug)]
pub enum BaseRef {
    Value(ValueRef),
    StackSlot(i64),
    Raw(CExpr),
}

/// What an address is counted from, as a mathematical value.
pub enum Base {
    Value(Val),
    StackSlot(i64),
    Raw(Expr),
}

impl BaseRef {
    pub open spec fn view(&self) -> Base {
        match *self {
            BaseRef::Value(v) => Base::Value(v@),
            BaseRef::StackSlot(offset) => Base::StackSlot(offset),
            BaseRef::Raw(e) => Base::Raw(e@),
        }
    }

    /// A copy of this base.
    pub fn dup(&self) -> (r: BaseRef)
        ensures
            r@ == self@,
    {
        match self {
            BaseRef::Value(v) => BaseRef::Value(v.dup()),
            BaseRef::StackSlot(offset) => BaseRef::StackSlot(*offset),
            BaseRef::Raw(e) => BaseRef::Raw(e.dup()),
        }
    }

    /// Are two bases the same?
    pub fn same(&self, other: &BaseRef) -> (r: bool)
        ensures
            r == (self@ == other@),
    {
        match (self, other) {
            (BaseRef::Value(a), BaseRef::Value(b)) => a.same(b),
            (BaseRef::StackSlot(a), BaseRef::StackSlot(b)) => *a == *b,
            (BaseRef::Raw(a), BaseRef::Raw(b)) => a.same(b),
            _ => false,
        }
    }

    /// Is the base a stack slot?
    pub fn is_slot(&self) -> (r: bool)
        ensures
            r == (self@ is StackSlot),
    {
        matches!(self, BaseRef::StackSlot(_))
    }
}

/// An address: a base, an optional scaled index, and a byte offset.
#[derive(Debug)]
pub struct NormalizedAddr {
    pub base: BaseRef,
    pub index: Option<ValueRef>,
    pub scale_bytes: i64,
    pub offset_bytes: i64,
}

/// An address, as a mathematical value.
pub struct Addr {
    pub base: Base,
    pub index: Option<Val>,
    pub scale: i64,
    pub offset: i64,
}

/// The twin of an optional value.
pub open spec fn view_opt_val(v: Option<ValueRef>) -> Option<Val> {
    match v {
        Some(v) => Some(v@),
        None => None,
    }
}

impl NormalizedAddr {
    pub open spec fn view(&self) -> Addr {
        Addr {
            base: self.base@,
            index: view_opt_val(self.index),
            scale: self.scale_bytes,
            offset: self.offset_bytes,
        }
    }

    /// A copy of this address.
    pub fn dup(&self) -> (r: NormalizedAddr)
        ensures
            r@ == self@,
    {
        NormalizedAddr {
            base: self.base.dup(),
            index: match &self.index {
                Some(v) => Some(v.dup()),
                None => None,
            },
            scale_bytes: self.scale_bytes,
            offset_bytes: self.offset_bytes,
        }
    }

    /// Are two addresses the same?
    pub fn same(&self, other: &NormalizedAddr) -> (r: bool)
        ensures
            r == (self@ == other@),
    {
        let indices = match (&self.index, &other.index) {
            (Some(a), Some(b)) => a.same(b),
            (None, None) => true,
            _ => false,
        };
        self.base.same(&other.base) && indices && self.scale_bytes == other.scale_bytes
            && self.offset_bytes == other.offset_bytes
    }

    /// The bare address of a stack slot.
    pub fn slot(offset: i64) -> (r: NormalizedAddr)
        ensures
            r@ == slot_addr(offset),
    {
        NormalizedAddr {
            base: BaseRef::StackSlot(offset),
            index: None,
            scale_bytes: 0,
            offset_bytes: 0,
        }
    }

    /// The bare address that a variable holds.
    pub fn of_var(var: SSAVar) -> (r: NormalizedAddr)
        ensures
            r@ == var_addr(var@),
    {
        NormalizedAddr {
            base: BaseRef::Value(ValueRef::from_var(var)),
            index: None,
            scale_bytes: 0,
            offset_bytes: 0,
        }
    }
}

/// The bare address of a stack slot.
pub open spec fn slot_addr(offset: i64) -> Addr {
    Addr { base: Base::StackSlot(offset), index: None, scale: 0, offset: 0 }
}

/// The bare address that a variable holds.
pub open spec fn var_addr(var: Var) -> Addr {
    Addr { base: Base::Value(val_of(var)), index: None, scale: 0, offset: 0 }
}

/// The twin of an optional address.
pub open spec fn view_opt_addr(a: Option<NormalizedAddr>) -> Option<Addr> {
    match a {
        Some(a) => Some(a@),
        None => None,
    }
}

/// A value that is no address.
#[derive(Debug)]
pub enum ScalarValue {
    Expr(CExpr),
    Root(ValueRef),
}

/// What a value means.
#[derive(Debug)]
pub enum SemanticValue {
    Scalar(ScalarValue),
    Address(NormalizedAddr),
    Load { addr: NormalizedAddr, size: u32 },
    Unknown,
}

/// What a value means, as a mathematical value.
pub enum Meaning {
    Expr(Expr),
    Root(Val),
    Address(Addr),
    Load { addr: Addr, size: u32 },
    Unknown,
}

impl SemanticValue {
    pub open spec fn view(&self) -> Meaning {
        match *self {
            SemanticValue::Scalar(ScalarValue::Expr(e)) => Meaning::Expr(e@),
            SemanticValue::Scalar(ScalarValue::Root(v)) => Meaning::Root(v@),
            SemanticValue::Address(a) => Meaning::Address(a@),
            SemanticValue::Load { addr, size } => Meaning::Load { addr: addr@, size },
            SemanticValue::Unknown => Meaning::Unknown,
        }
    }
}

/// The twin of an optional meaning.
pub open spec fn view_meaning(v: Option<SemanticValue>) -> Option<Meaning> {
    match v {
        Some(v) => Some(v@),
        None => None,
    }
}

/// Where a forwarded value comes from.
#[derive(Debug)]
pub struct ValueProvenance {
    pub source: String,
    pub source_var: Option<SSAVar>,
    pub stack_slot: Option<i64>,
}

/// Where a forwarded value comes from, as a mathematical value.
pub struct Origin {
    pub source: Seq<char>,
    pub var: Option<Var>,
    pub slot: Option<i64>,
}

impl ValueProvenance {
    pub open spec fn view(&self) -> Origin {
        Origin { source: self.source@, var: view_opt_var(self.source_var), slot: self.stack_slot }
    }
}

/// The twin of an optional origin.
pub open spec fn view_origin(v: Option<ValueProvenance>) -> Option<Origin> {
    match v {
        Some(v) => Some(v@),
        None => None,
    }
}

/// The stack slot that a value lives in, and what the slot carries.
#[derive(Debug, Clone, Copy, PartialEq, Eq, Structural)]
pub struct StackSlotProvenance {
    pub offset: i64,
    /// The slot carries the operand of a condition.
    pub predicate_carrier: bool,
    /// The slot carries the returned value.
    pub return_carrier: bool,
}

/// What an external stack offset is counted from.
#[derive(Debug, Clone, Copy, PartialEq, Eq, Structural)]
pub enum ExternalStackBase {
    FramePointer,
    StackPointer,
    Unknown,
}

/// Names an external stack slot.
#[derive(Debug, Clone, Copy, PartialEq, Eq, Structural)]
pub struct StackSlotKey {
    pub base: ExternalStackBase,
    pub offset: i64,
}

/// What an external stack slot is for.
#[derive(Debug, Clone, Copy, PartialEq, Eq, Structural)]
pub enum ExternalStackSlotRole {
    Local,
    StackArg,
    SavedRegister,
    ReturnAddress,
    Unknown,
}

/// An external stack slot.
#[derive(Debug)]
pub struct ExternalStackVar {
    pub name: String,
    pub base: ExternalStackBase,
    pub role: ExternalStackSlotRole,
}

/// A name that the output shows, with the slot it stands for.
#[derive(Debug)]
pub struct VisibleBinding {
    pub name: String,
    pub stack_slot: Option<StackSlotKey>,
}

/// Does a slot of this role show its external name?
pub open spec fn shows_name(role: ExternalStackSlotRole) -> bool {
    role == ExternalStackSlotRole::Local || role == ExternalStackSlotRole::StackArg || role
        == ExternalStackSlotRole::Unknown
}

/// Does a slot of this role show its external name?
pub fn is_visible_external_stack_name_role(role: ExternalStackSlotRole) -> (r: bool)
    ensures
        r == shows_name(role),
{
    matches!(
        role,
        ExternalStackSlotRole::Local
        | ExternalStackSlotRole::StackArg
        | ExternalStackSlotRole::Unknown
    )
}

} // verus!
