//! Varnodes: sized pieces of data at a location.

use crate::il::metadata::VarnodeMetadata;
use crate::il::space::{words_tell_spaces_apart, SpaceId};
use crate::text::{copy_of, digits, push_digits, push_text};
use std::hash::{Hash, Hasher};
use vstd::prelude::*;
use vstd::std_specs::cmp::PartialEqSpec;

verus! {

/// A sized piece of data: a register, a memory location, a constant or a
/// temporary, by its space.
#[derive(Debug, Clone)]
pub struct Varnode {
    pub space: SpaceId,
    /// Offset within the space; the value itself for a constant.
    pub offset: u64,
    /// Size in bytes.
    pub size: u32,
    /// Optional hints. Boxed, so that a varnode without hints stays small.
    pub meta: Option<Box<VarnodeMetadata>>,
}

impl Varnode {
    /// Does this varnode stand for that location, without hints?
    pub open spec fn is_bare(&self, space: SpaceId, offset: u64, size: u32) -> bool {
        &&& self.space == space
        &&& self.offset == offset
        &&& self.size == size
        &&& self.meta is None
    }

    /// Do two varnodes stand for the same location?
    pub open spec fn same_location(&self, other: &Varnode) -> bool {
        &&& self.space == other.space
        &&& self.offset == other.offset
        &&& self.size == other.size
    }

    /// Create a new varnode.
    pub fn new(space: SpaceId, offset: u64, size: u32) -> (r: Self)
        ensures
            r.is_bare(space, offset, size),
    {
        Varnode { space, offset, size, meta: None }
    }

    /// Create a constant varnode.
    pub fn constant(value: u64, size: u32) -> (r: Self)
        ensures
            r.is_bare(SpaceId::Const, value, size),
    {
        Self::new(SpaceId::Const, value, size)
    }

    /// Create a register varnode.
    pub fn register(offset: u64, size: u32) -> (r: Self)
        ensures
            r.is_bare(SpaceId::Register, offset, size),
    {
        Self::new(SpaceId::Register, offset, size)
    }

    /// Create a RAM varnode.
    pub fn ram(address: u64, size: u32) -> (r: Self)
        ensures
            r.is_bare(SpaceId::Ram, address, size),
    {
        Self::new(SpaceId::Ram, address, size)
    }

    /// Create a temporary varnode.
    pub fn unique(id: u64, size: u32) -> (r: Self)
        ensures
            r.is_bare(SpaceId::Unique, id, size),
    {
        Self::new(SpaceId::Unique, id, size)
    }

    /// Return this varnode with hints attached.
    pub fn with_meta(self, meta: VarnodeMetadata) -> (r: Self)
        ensures
            r.same_location(&self),
            r.meta == Some(Box::new(meta)),
    {
        Varnode { space: self.space, offset: self.offset, size: self.size, meta: Some(Box::new(meta)) }
    }

    /// Set the hints of this varnode.
    pub fn set_meta(&mut self, meta: VarnodeMetadata)
        ensures
            final(self).same_location(old(self)),
            final(self).meta == Some(Box::new(meta)),
    {
        self.meta = Some(Box::new(meta));
    }

    /// Whether this varnode may be written to a persisted row: not when its
    /// space is a handle that could not be resolved. Whoever persists rows asks.
    pub fn is_persistable(&self) -> (r: bool)
        ensures
            r == (self.space != SpaceId::Unresolved),
    {
        !self.space.is_unresolved()
    }

    /// Borrow the hints, if any.
    pub fn meta(&self) -> (r: Option<&VarnodeMetadata>)
        ensures
            r is Some == self.meta is Some,
            r matches Some(m) ==> *m == *self.meta->0,
    {
        match &self.meta {
            Some(boxed) => Some(&**boxed),
            None => None,
        }
    }

    /// Remove the hints of this varnode.
    pub fn clear_meta(&mut self)
        ensures
            final(self).is_bare(old(self).space, old(self).offset, old(self).size),
    {
        self.meta = None;
    }

    /// Returns true if this is a constant.
    pub fn is_const(&self) -> (r: bool)
        ensures
            r == (self.space == SpaceId::Const),
    {
        self.space.is_const()
    }

    /// Returns true if this is a register.
    pub fn is_register(&self) -> (r: bool)
        ensures
            r == (self.space == SpaceId::Register),
    {
        self.space.is_register()
    }

    /// Returns true if this is a RAM location.
    pub fn is_ram(&self) -> (r: bool)
        ensures
            r == (self.space == SpaceId::Ram),
    {
        self.space.is_ram()
    }

    /// Returns true if this is a temporary.
    pub fn is_unique(&self) -> (r: bool)
        ensures
            r == (self.space == SpaceId::Unique),
    {
        self.space.is_unique()
    }

    /// The value of a constant varnode.
    pub fn const_value(&self) -> (r: Option<u64>)
        ensures
            r == if self.space == SpaceId::Const {
                Some(self.offset)
            } else {
                None
            },
    {
        if self.is_const() {
            Some(self.offset)
        } else {
            None
        }
    }

    /// How listings print a varnode: a constant as value and size, anything
    /// else as space, offset and size.
    pub open spec fn label(&self) -> Seq<char> {
        if self.space == SpaceId::Const {
            "0x"@ + digits(self.offset as nat, 16) + ":"@ + digits(self.size as nat, 10)
        } else {
            self.space.label() + ":0x"@ + digits(self.offset as nat, 16) + "["@ + digits(
                self.size as nat,
                10,
            ) + "]"@
        }
    }

    /// How listings print a varnode.
    pub fn to_text(&self) -> (r: String)
        ensures
            r@ == self.label(),
    {
        if self.is_const() {
            let mut out = copy_of("0x");
            push_digits(&mut out, self.offset, 16);
            push_text(&mut out, ":");
            push_digits(&mut out, self.size as u64, 10);
            out
        } else {
            let mut out = self.space.to_text();
            push_text(&mut out, ":0x");
            push_digits(&mut out, self.offset, 16);
            push_text(&mut out, "[");
            push_digits(&mut out, self.size as u64, 10);
            push_text(&mut out, "]");
            out
        }
    }
}

impl Default for Varnode {
    /// The one-byte constant zero.
    fn default() -> (r: Self)
        ensures
            r.is_bare(SpaceId::Const, 0, 1),
    {
        Self::constant(0, 1)
    }
}

impl PartialEq for Varnode {
    /// Two varnodes are equal when they stand for the same location.
    fn eq(&self, other: &Self) -> (r: bool) {
        self.space == other.space && self.offset == other.offset && self.size == other.size
    }
}

impl vstd::std_specs::cmp::PartialEqSpecImpl for Varnode {
    open spec fn obeys_eq_spec() -> bool {
        true
    }

    open spec fn eq_spec(&self, other: &Self) -> bool {
        self.same_location(other)
    }
}

impl Eq for Varnode {

}

/// `u64::hash` feeds the number to the hasher; what a hasher makes of it is
/// the hasher's own affair, so nothing is said of the state.
pub assume_specification<H: Hasher>[ <u64 as Hash>::hash ](value: &u64, state: &mut H)
;

impl Varnode {
    /// What a hasher is fed of a varnode: the words of its space, the offset and
    /// the size, in this order. Hints are no part of them.
    pub open spec fn words(&self) -> ((isize, Option<u32>), u64, u32) {
        (self.space.words(), self.offset, self.size)
    }

    /// What a hasher is fed of a varnode.
    pub fn hash_words(&self) -> (r: ((isize, Option<u32>), u64, u32))
        ensures
            r == self.words(),
    {
        (self.space.hash_words(), self.offset, self.size)
    }
}

impl Hash for Varnode {
    /// Feeds the words of the varnode: the location and nothing else, as
    /// equality asks.
    fn hash<H: Hasher>(&self, state: &mut H) {
        let words = self.hash_words();
        words.0.0.hash(state);
        if let Some(id) = words.0.1 {
            id.hash(state);
        }
        words.1.hash(state);
        words.2.hash(state);
    }
}

/// Varnodes are hashed by the same words exactly where they are equal.
pub proof fn words_are_equal_where_varnodes_are(a: Varnode, b: Varnode)
    ensures
        a.words() == b.words() <==> a.eq_spec(&b),
{
    words_tell_spaces_apart(a.space, b.space);
}

/// Equality looks at the location alone: hints never tell two varnodes apart.
pub proof fn equality_ignores_hints(a: Varnode, b: Varnode, c: Varnode)
    requires
        a.same_location(&c),
    ensures
        a.eq_spec(&b) == c.eq_spec(&b),
        b.eq_spec(&a) == b.eq_spec(&c),
{
}

} // verus!
