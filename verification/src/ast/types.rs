//! C types.

use crate::text::{copy_of, same};
use vstd::prelude::*;

verus! {

/// A C type.
#[derive(Debug)]
pub enum CType {
    Void,
    Bool,
    /// Signed integer of that many bits.
    Int(u32),
    /// Unsigned integer of that many bits.
    UInt(u32),
    Float(u32),
    Pointer(Box<CType>),
    Array(Box<CType>, Option<u32>),
    Struct(String),
    Union(String),
    Unknown,
}

/// A C type, as a mathematical value.
pub enum Type {
    Void,
    Bool,
    Int(u32),
    UInt(u32),
    Float(u32),
    Pointer(Box<Type>),
    Array(Box<Type>, Option<u32>),
    Struct(Seq<char>),
    Union(Seq<char>),
    Unknown,
}

impl Type {
    /// A type that values are reached through: a pointer or an array.
    pub open spec fn target(self) -> Option<Type> {
        match self {
            Type::Pointer(inner) => Some(*inner),
            Type::Array(inner, _) => Some(*inner),
            _ => None,
        }
    }

    /// The width of a scalar, in bits; other types have none of their own.
    pub open spec fn width(self) -> Option<u32> {
        match self {
            Type::Bool => Some(1),
            Type::Int(bits) => Some(bits),
            Type::UInt(bits) => Some(bits),
            Type::Float(bits) => Some(bits),
            _ => None,
        }
    }

    /// Signedness and width of an integer type.
    pub open spec fn int_meta(self) -> Option<(bool, u32)> {
        match self {
            Type::Int(bits) => Some((true, bits)),
            Type::UInt(bits) => Some((false, bits)),
            Type::Bool => Some((false, 1)),
            _ => None,
        }
    }
}

impl CType {
    pub open spec fn view(&self) -> Type
        decreases self,
    {
        match *self {
            CType::Void => Type::Void,
            CType::Bool => Type::Bool,
            CType::Int(bits) => Type::Int(bits),
            CType::UInt(bits) => Type::UInt(bits),
            CType::Float(bits) => Type::Float(bits),
            CType::Pointer(inner) => Type::Pointer(Box::new(inner.view())),
            CType::Array(inner, len) => Type::Array(Box::new(inner.view()), len),
            CType::Struct(name) => Type::Struct(name@),
            CType::Union(name) => Type::Union(name@),
            CType::Unknown => Type::Unknown,
        }
    }

    /// A copy of this type.
    pub fn dup(&self) -> (r: CType)
        ensures
            r@ == self@,
        decreases self,
    {
        match self {
            CType::Void => CType::Void,
            CType::Bool => CType::Bool,
            CType::Int(bits) => CType::Int(*bits),
            CType::UInt(bits) => CType::UInt(*bits),
            CType::Float(bits) => CType::Float(*bits),
            CType::Pointer(inner) => CType::Pointer(Box::new(inner.dup())),
            CType::Array(inner, len) => CType::Array(Box::new(inner.dup()), *len),
            CType::Struct(name) => CType::Struct(copy_of(name)),
            CType::Union(name) => CType::Union(copy_of(name)),
            CType::Unknown => CType::Unknown,
        }
    }

    /// Are two types the same?
    pub fn same(&self, other: &CType) -> (r: bool)
        ensures
            r == (self@ == other@),
        decreases self,
    {
        match (self, other) {
            (CType::Void, CType::Void) => true,
            (CType::Bool, CType::Bool) => true,
            (CType::Int(a), CType::Int(b)) => *a == *b,
            (CType::UInt(a), CType::UInt(b)) => *a == *b,
            (CType::Float(a), CType::Float(b)) => *a == *b,
            (CType::Pointer(a), CType::Pointer(b)) => a.same(b),
            (CType::Array(a, n), CType::Array(b, m)) => {
                let lengths = match (n, m) {
                    (Some(n), Some(m)) => *n == *m,
                    (None, None) => true,
                    _ => false,
                };
                a.same(b) && lengths
            },
            (CType::Struct(a), CType::Struct(b)) => same(a, b),
            (CType::Union(a), CType::Union(b)) => same(a, b),
            (CType::Unknown, CType::Unknown) => true,
            _ => false,
        }
    }

    /// A pointer to a type.
    pub fn ptr(inner: CType) -> (r: CType)
        ensures
            r@ == Type::Pointer(Box::new(inner@)),
    {
        CType::Pointer(Box::new(inner))
    }

    /// The width of a scalar, in bits.
    pub fn bits(&self) -> (r: Option<u32>)
        ensures
            r == self@.width(),
    {
        match self {
            CType::Bool => Some(1),
            CType::Int(bits) => Some(*bits),
            CType::UInt(bits) => Some(*bits),
            CType::Float(bits) => Some(*bits),
            _ => None,
        }
    }

    /// What a pointer points to or an array holds.
    pub fn pointee(&self) -> (r: Option<CType>)
        ensures
            view_opt(r) == self@.target(),
    {
        match self {
            CType::Pointer(inner) => Some(inner.dup()),
            CType::Array(inner, _) => Some(inner.dup()),
            _ => None,
        }
    }

    /// Is this a pointer?
    pub fn is_pointer(&self) -> (r: bool)
        ensures
            r == (self@ is Pointer),
    {
        matches!(self, CType::Pointer(_))
    }
}

/// The twin of an optional type.
pub open spec fn view_opt(ty: Option<CType>) -> Option<Type> {
    match ty {
        Some(ty) => Some(ty@),
        None => None,
    }
}

/// The twin of an optional borrowed type.
pub open spec fn view_opt_ref(ty: Option<&CType>) -> Option<Type> {
    match ty {
        Some(ty) => Some(ty@),
        None => None,
    }
}

} // verus!
