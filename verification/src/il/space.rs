//! Address spaces.
//!
//! A location is an offset in one of a few flat spaces: main memory, the
//! register file, scratch temporaries, constants, and whatever further spaces
//! an architecture declares.

use crate::il::metadata::{Endianness, MemoryClass, MemoryPermissions, MemoryRange};
use crate::text::{copy_of, digits, push_digits, push_text};
use std::hash::{Hash, Hasher};
use vstd::prelude::*;

verus! {

/// Names one address space.
#[derive(Debug, Clone, Copy, PartialEq, Eq, Structural)]
pub enum SpaceId {
    /// Main memory.
    Ram,
    /// The register file.
    Register,
    /// Temporaries; never persisted.
    Unique,
    /// Constants: the offset is the value.
    Const,
    /// A further space, under a handle that is valid for one run only.
    Custom(u32),
    /// A handle that could not be resolved. It is no key: a row that holds one
    /// cannot be reproduced, so it is neither persisted nor executed.
    Unresolved,
}

impl Default for SpaceId {
    /// Main memory.
    fn default() -> (r: Self)
        ensures
            r == SpaceId::Ram,
    {
        SpaceId::Ram
    }
}

impl SpaceId {
    /// Returns true for the constant space.
    pub fn is_const(&self) -> (r: bool)
        ensures
            r == (*self == SpaceId::Const),
    {
        matches!(self, SpaceId::Const)
    }

    /// Returns true for main memory, and for nothing that merely aliases it.
    pub fn is_ram(&self) -> (r: bool)
        ensures
            r == (*self == SpaceId::Ram),
    {
        matches!(self, SpaceId::Ram)
    }

    /// Returns true for the register file.
    pub fn is_register(&self) -> (r: bool)
        ensures
            r == (*self == SpaceId::Register),
    {
        matches!(self, SpaceId::Register)
    }

    /// Returns true for the scratch space.
    pub fn is_unique(&self) -> (r: bool)
        ensures
            r == (*self == SpaceId::Unique),
    {
        matches!(self, SpaceId::Unique)
    }

    /// Returns true for a handle that could not be resolved.
    pub fn is_unresolved(&self) -> (r: bool)
        ensures
            r == (*self == SpaceId::Unresolved),
    {
        matches!(self, SpaceId::Unresolved)
    }

    /// What a hasher is fed of a space: its place in the declaration, and the
    /// handle where it has one.
    pub open spec fn words(&self) -> (isize, Option<u32>) {
        match *self {
            SpaceId::Ram => (0, None),
            SpaceId::Register => (1, None),
            SpaceId::Unique => (2, None),
            SpaceId::Const => (3, None),
            SpaceId::Custom(id) => (4, Some(id)),
            SpaceId::Unresolved => (5, None),
        }
    }

    /// What a hasher is fed of a space.
    pub fn hash_words(&self) -> (r: (isize, Option<u32>))
        ensures
            r == self.words(),
    {
        match self {
            SpaceId::Ram => (0, None),
            SpaceId::Register => (1, None),
            SpaceId::Unique => (2, None),
            SpaceId::Const => (3, None),
            SpaceId::Custom(id) => (4, Some(*id)),
            SpaceId::Unresolved => (5, None),
        }
    }

    /// The short name of the space, as listings print it.
    pub open spec fn label(&self) -> Seq<char> {
        match *self {
            SpaceId::Ram => "ram"@,
            SpaceId::Register => "reg"@,
            SpaceId::Unique => "uniq"@,
            SpaceId::Const => "const"@,
            SpaceId::Custom(id) => "space"@ + digits(id as nat, 10),
            SpaceId::Unresolved => "unresolved"@,
        }
    }

    /// The short name of the space, as listings print it.
    pub fn to_text(&self) -> (r: String)
        ensures
            r@ == self.label(),
    {
        match self {
            SpaceId::Ram => copy_of("ram"),
            SpaceId::Register => copy_of("reg"),
            SpaceId::Unique => copy_of("uniq"),
            SpaceId::Const => copy_of("const"),
            SpaceId::Custom(id) => {
                let mut out = copy_of("space");
                push_digits(&mut out, *id as u64, 10);
                out
            },
            SpaceId::Unresolved => copy_of("unresolved"),
        }
    }

    /// The name of the variant, as diagnostics print it.
    pub open spec fn variant_name(&self) -> Seq<char> {
        match *self {
            SpaceId::Ram => "Ram"@,
            SpaceId::Register => "Register"@,
            SpaceId::Unique => "Unique"@,
            SpaceId::Const => "Const"@,
            SpaceId::Custom(id) => "Custom("@ + digits(id as nat, 10) + ")"@,
            SpaceId::Unresolved => "Unresolved"@,
        }
    }

    /// The name of the variant, as diagnostics print it.
    pub fn to_variant_text(&self) -> (r: String)
        ensures
            r@ == self.variant_name(),
    {
        match self {
            SpaceId::Ram => copy_of("Ram"),
            SpaceId::Register => copy_of("Register"),
            SpaceId::Unique => copy_of("Unique"),
            SpaceId::Const => copy_of("Const"),
            SpaceId::Custom(id) => {
                let mut out = copy_of("Custom(");
                push_digits(&mut out, *id as u64, 10);
                push_text(&mut out, ")");
                out
            },
            SpaceId::Unresolved => copy_of("Unresolved"),
        }
    }
}

/// `isize::hash` feeds the number to the hasher; what a hasher makes of it is
/// the hasher's own affair, so nothing is said of the state.
pub assume_specification<H: Hasher>[ <isize as Hash>::hash ](value: &isize, state: &mut H)
;

/// `u32::hash` feeds the number to the hasher; nothing is said of the state.
pub assume_specification<H: Hasher>[ <u32 as Hash>::hash ](value: &u32, state: &mut H)
;

impl Hash for SpaceId {
    /// Feeds the words of the space.
    fn hash<H: Hasher>(&self, state: &mut H) {
        let words = self.hash_words();
        words.0.hash(state);
        if let Some(id) = words.1 {
            id.hash(state);
        }
    }
}

/// No two spaces are hashed by the same words.
pub proof fn words_tell_spaces_apart(a: SpaceId, b: SpaceId)
    ensures
        a.words() == b.words() <==> a == b,
{
}

/// What is known about one address space.
#[derive(Debug, Clone)]
pub struct AddressSpace {
    pub id: SpaceId,
    pub name: String,
    /// Bytes in an address.
    pub addr_size: u32,
    /// Bytes per addressable unit.
    pub word_size: u32,
    pub is_default: bool,
    pub endianness: Option<Endianness>,
    pub memory_class: Option<MemoryClass>,
    pub permissions: Option<MemoryPermissions>,
    pub valid_ranges: Vec<MemoryRange>,
    pub bank_id: Option<String>,
    pub segment_id: Option<String>,
    /// The space that this one is another name for. An alias leaves `id` as it
    /// is: the two spaces stay distinct.
    pub aliases: Option<SpaceId>,
}

impl AddressSpace {
    /// A space with these four properties, byte-addressed, with nothing else declared.
    pub open spec fn is_plain(
        &self,
        id: SpaceId,
        name: Seq<char>,
        addr_size: u32,
        is_default: bool,
    ) -> bool {
        &&& self.id == id
        &&& self.name@ == name
        &&& self.addr_size == addr_size
        &&& self.word_size == 1
        &&& self.is_default == is_default
        &&& self.endianness is None
        &&& self.memory_class is None
        &&& self.permissions is None
        &&& self.valid_ranges@.len() == 0
        &&& self.bank_id is None
        &&& self.segment_id is None
        &&& self.aliases is None
    }

    fn plain(id: SpaceId, name: &str, addr_size: u32, is_default: bool) -> (r: Self)
        ensures
            r.is_plain(id, name@, addr_size, is_default),
    {
        AddressSpace {
            id,
            name: copy_of(name),
            addr_size,
            word_size: 1,
            is_default,
            endianness: None,
            memory_class: None,
            permissions: None,
            valid_ranges: Vec::new(),
            bank_id: None,
            segment_id: None,
            aliases: None,
        }
    }

    /// A byte-addressed space with nothing but its name and address size.
    pub fn new(id: SpaceId, name: &str, addr_size: u32) -> (r: Self)
        ensures
            r.is_plain(id, name@, addr_size, false),
    {
        Self::plain(id, name, addr_size, false)
    }

    /// Main memory, the default space.
    pub fn ram(addr_size: u32) -> (r: Self)
        ensures
            r.is_plain(SpaceId::Ram, "ram"@, addr_size, true),
    {
        Self::plain(SpaceId::Ram, "ram", addr_size, true)
    }

    /// The register file.
    pub fn register() -> (r: Self)
        ensures
            r.is_plain(SpaceId::Register, "register"@, 4, false),
    {
        Self::plain(SpaceId::Register, "register", 4, false)
    }

    /// The scratch space.
    pub fn unique() -> (r: Self)
        ensures
            r.is_plain(SpaceId::Unique, "unique"@, 4, false),
    {
        Self::plain(SpaceId::Unique, "unique", 4, false)
    }

    /// The constant space.
    pub fn constant() -> (r: Self)
        ensures
            r.is_plain(SpaceId::Const, "const"@, 8, false),
    {
        Self::plain(SpaceId::Const, "const", 8, false)
    }
}

} // verus!
