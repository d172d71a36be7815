//! Columns over an operation stream.
//!
//! The stream stays the source of truth; the columns are what scans read. One
//! pass projects each operation to its kind of control flow and to the space
//! and offset of the varnode that a scan asks about, and index `i` of every
//! column refers to operation `i` of the stream.

use crate::il::op::R2ILOp;
use crate::il::space::SpaceId;
use crate::il::varnode::Varnode;
use vstd::prelude::*;

verus! {

/// The kind of control flow of an operation.
#[derive(Debug, Clone, Copy, PartialEq, Eq, PartialOrd, Ord, Structural)]
pub enum OpTag {
    /// Anything that is not control flow.
    Data,
    Branch,
    CBranch,
    BranchInd,
    Call,
    CallInd,
    Return,
    /// An instruction without semantics in the language.
    CallOther,
}

impl OpTag {
    /// The kind of an operation.
    pub open spec fn kind(op: R2ILOp) -> OpTag {
        match op {
            R2ILOp::Branch { .. } => OpTag::Branch,
            R2ILOp::CBranch { .. } => OpTag::CBranch,
            R2ILOp::BranchInd { .. } => OpTag::BranchInd,
            R2ILOp::Call { .. } => OpTag::Call,
            R2ILOp::CallInd { .. } => OpTag::CallInd,
            R2ILOp::Return { .. } => OpTag::Return,
            R2ILOp::CallOther { .. } => OpTag::CallOther,
            _ => OpTag::Data,
        }
    }

    /// The kind of an operation.
    pub fn of(op: &R2ILOp) -> (r: Self)
        ensures
            r == OpTag::kind(*op),
    {
        match op {
            R2ILOp::Branch { .. } => OpTag::Branch,
            R2ILOp::CBranch { .. } => OpTag::CBranch,
            R2ILOp::BranchInd { .. } => OpTag::BranchInd,
            R2ILOp::Call { .. } => OpTag::Call,
            R2ILOp::CallInd { .. } => OpTag::CallInd,
            R2ILOp::Return { .. } => OpTag::Return,
            R2ILOp::CallOther { .. } => OpTag::CallOther,
            _ => OpTag::Data,
        }
    }

    /// Is this anything but data flow?
    pub fn is_control_flow(self) -> (r: bool)
        ensures
            r == (self != OpTag::Data),
    {
        self != OpTag::Data
    }

    /// The number of the kind in a column.
    pub open spec fn number(self) -> u8 {
        match self {
            OpTag::Data => 0,
            OpTag::Branch => 1,
            OpTag::CBranch => 2,
            OpTag::BranchInd => 3,
            OpTag::Call => 4,
            OpTag::CallInd => 5,
            OpTag::Return => 6,
            OpTag::CallOther => 7,
        }
    }

    /// The number of the kind in a column.
    pub fn code(self) -> (r: u8)
        ensures
            r == self.number(),
    {
        match self {
            OpTag::Data => 0,
            OpTag::Branch => 1,
            OpTag::CBranch => 2,
            OpTag::BranchInd => 3,
            OpTag::Call => 4,
            OpTag::CallInd => 5,
            OpTag::Return => 6,
            OpTag::CallOther => 7,
        }
    }
}

/// The space of a varnode, for bulk comparison. Every custom space has the one
/// tag: its handle is valid for one run only and must never be a scan key.
#[derive(Debug, Clone, Copy, PartialEq, Eq, Structural)]
pub enum SpaceTag {
    /// The operation has no primary varnode.
    NoSpace,
    Const,
    Register,
    Ram,
    Unique,
    Custom,
}

impl SpaceTag {
    /// The tag of a space.
    pub open spec fn kind(space: SpaceId) -> SpaceTag {
        match space {
            SpaceId::Const => SpaceTag::Const,
            SpaceId::Register => SpaceTag::Register,
            SpaceId::Ram => SpaceTag::Ram,
            SpaceId::Unique => SpaceTag::Unique,
            _ => SpaceTag::Custom,
        }
    }

    /// The tag of a space.
    pub fn of(space: SpaceId) -> (r: Self)
        ensures
            r == SpaceTag::kind(space),
    {
        match space {
            SpaceId::Const => SpaceTag::Const,
            SpaceId::Register => SpaceTag::Register,
            SpaceId::Ram => SpaceTag::Ram,
            SpaceId::Unique => SpaceTag::Unique,
            _ => SpaceTag::Custom,
        }
    }

    /// The number of the tag in a column.
    pub open spec fn number(self) -> u8 {
        match self {
            SpaceTag::NoSpace => 0,
            SpaceTag::Const => 1,
            SpaceTag::Register => 2,
            SpaceTag::Ram => 3,
            SpaceTag::Unique => 4,
            SpaceTag::Custom => 5,
        }
    }

    /// The number of the tag in a column.
    pub fn code(self) -> (r: u8)
        ensures
            r == self.number(),
    {
        match self {
            SpaceTag::NoSpace => 0,
            SpaceTag::Const => 1,
            SpaceTag::Register => 2,
            SpaceTag::Ram => 3,
            SpaceTag::Unique => 4,
            SpaceTag::Custom => 5,
        }
    }
}

/// The varnode that a scan asks about: the target of control flow, the source
/// of a copy, the address of a memory access. Other operations have none.
pub open spec fn primary_of(op: R2ILOp) -> Option<Varnode> {
    match op {
        R2ILOp::Branch { target } => Some(target),
        R2ILOp::CBranch { target, .. } => Some(target),
        R2ILOp::BranchInd { target } => Some(target),
        R2ILOp::Call { target } => Some(target),
        R2ILOp::CallInd { target } => Some(target),
        R2ILOp::Return { target } => Some(target),
        R2ILOp::Copy { src, .. } => Some(src),
        R2ILOp::Load { addr, .. } => Some(addr),
        R2ILOp::Store { addr, .. } => Some(addr),
        _ => None,
    }
}

fn primary(op: &R2ILOp) -> (r: Option<&Varnode>)
    ensures
        r is Some == primary_of(*op) is Some,
        r matches Some(v) ==> *v == primary_of(*op)->0,
{
    match op {
        R2ILOp::Branch { target } => Some(target),
        R2ILOp::CBranch { target, .. } => Some(target),
        R2ILOp::BranchInd { target } => Some(target),
        R2ILOp::Call { target } => Some(target),
        R2ILOp::CallInd { target } => Some(target),
        R2ILOp::Return { target } => Some(target),
        R2ILOp::Copy { src, .. } => Some(src),
        R2ILOp::Load { addr, .. } => Some(addr),
        R2ILOp::Store { addr, .. } => Some(addr),
        _ => None,
    }
}

/// The entry of an operation in the tag column.
pub open spec fn tag_entry(op: R2ILOp) -> u8 {
    OpTag::kind(op).number()
}

/// The entry of an operation in the space column.
pub open spec fn space_entry(op: R2ILOp) -> u8 {
    match primary_of(op) {
        Some(v) => SpaceTag::kind(v.space).number(),
        None => SpaceTag::NoSpace.number(),
    }
}

/// The entry of an operation in the offset column.
pub open spec fn offset_entry(op: R2ILOp) -> u64 {
    match primary_of(op) {
        Some(v) => v.offset,
        None => 0,
    }
}

/// The positions below `n` at which a property holds, in order. A position is
/// kept in 32 bits.
pub open spec fn positions(holds: spec_fn(int) -> bool, n: nat) -> Seq<u32>
    decreases n,
{
    if n == 0 {
        Seq::empty()
    } else {
        let before = positions(holds, (n - 1) as nat);
        if holds(n - 1) {
            before.push(((n - 1) % 0x1_0000_0000) as u32)
        } else {
            before
        }
    }
}

/// How many of the first `n` tags fall into bucket `k`; tags past the last
/// bucket count in it.
pub open spec fn bucket_count(tags: Seq<u8>, k: int, n: nat) -> nat
    decreases n,
{
    if n == 0 {
        0
    } else {
        bucket_count(tags, k, (n - 1) as nat) + if bucket(tags[n - 1]) == k {
            1nat
        } else {
            0nat
        }
    }
}

/// The histogram bucket of a tag.
pub open spec fn bucket(tag: u8) -> int {
    if tag < 7 {
        tag as int
    } else {
        7
    }
}

/// Columns over one operation stream, all of one length.
#[derive(Debug, Clone)]
pub struct OpColumns {
    /// The kind of each operation, by number.
    pub tag: Vec<u8>,
    /// The space of each primary varnode, by number.
    pub space: Vec<u8>,
    /// The offset of each primary varnode; zero where there is none.
    pub offset: Vec<u64>,
}

impl Default for OpColumns {
    /// No columns yet.
    fn default() -> (r: Self)
        ensures
            r.shows(Seq::empty()),
    {
        let c = OpColumns { tag: Vec::new(), space: Vec::new(), offset: Vec::new() };
        assert(c.shows(Seq::empty()));
        c
    }
}

impl OpColumns {
    /// Do the columns stand for this stream, entry by entry?
    pub open spec fn shows(&self, ops: Seq<R2ILOp>) -> bool {
        &&& self.tag@ =~= ops.map_values(|op: R2ILOp| tag_entry(op))
        &&& self.space@ =~= ops.map_values(|op: R2ILOp| space_entry(op))
        &&& self.offset@ =~= ops.map_values(|op: R2ILOp| offset_entry(op))
    }

    /// The positions whose primary varnode lies in main memory, in `lo..hi`.
    pub open spec fn ram_between(&self, lo: u64, hi: u64) -> Seq<u32> {
        positions(
            |i: int|
                self.space@[i] == SpaceTag::Ram.number() && lo <= self.offset@[i] && self.offset@[i]
                    < hi,
            self.tag@.len(),
        )
    }

    /// The positions of the operations of a kind.
    pub open spec fn tagged(&self, tag: OpTag) -> Seq<u32> {
        positions(|i: int| self.tag@[i] == tag.number(), self.tag@.len())
    }

    /// How many operations the columns cover.
    pub fn len(&self) -> (r: usize)
        ensures
            r == self.tag@.len(),
    {
        self.tag.len()
    }

    /// Are there no operations?
    pub fn is_empty(&self) -> (r: bool)
        ensures
            r == (self.tag@.len() == 0),
    {
        self.tag.len() == 0
    }

    /// Project an operation stream into columns.
    pub fn build(ops: &[R2ILOp]) -> (r: Self)
        ensures
            r.shows(ops@),
    {
        let mut c = Self::default();
        c.extend(ops);
        c
    }

    /// Append a stream's operations to the columns.
    pub fn extend(&mut self, ops: &[R2ILOp])
        ensures
            final(self).tag@ == old(self).tag@ + ops@.map_values(|op: R2ILOp| tag_entry(op)),
            final(self).space@ == old(self).space@ + ops@.map_values(
                |op: R2ILOp| space_entry(op),
            ),
            final(self).offset@ == old(self).offset@ + ops@.map_values(
                |op: R2ILOp| offset_entry(op),
            ),
    {
        let ghost before = *self;
        let mut i: usize = 0;
        while i < ops.len()
            invariant
                i <= ops@.len(),
                self.tag@ =~= before.tag@ + ops@.take(i as int).map_values(
                    |op: R2ILOp| tag_entry(op),
                ),
                self.space@ =~= before.space@ + ops@.take(i as int).map_values(
                    |op: R2ILOp| space_entry(op),
                ),
                self.offset@ =~= before.offset@ + ops@.take(i as int).map_values(
                    |op: R2ILOp| offset_entry(op),
                ),
            decreases ops@.len() - i,
        {
            let op = &ops[i];
            assert(ops@.take(i + 1) =~= ops@.take(i as int).push(*op));
            self.tag.push(OpTag::of(op).code());
            match primary(op) {
                Some(v) => {
                    self.space.push(SpaceTag::of(v.space).code());
                    self.offset.push(v.offset);
                },
                None => {
                    self.space.push(SpaceTag::NoSpace.code());
                    self.offset.push(0);
                },
            }
            i = i + 1;
        }
        assert(ops@.take(ops@.len() as int) =~= ops@);
    }

    /// The positions of every operation of a kind.
    pub fn find_tag(&self, tag: OpTag) -> (r: Vec<u32>)
        ensures
            r@ == positions(|i: int| self.tag@[i] == tag.number(), self.tag@.len()),
            r@ == self.tagged(tag),
    {
        let want: u8 = tag.code();
        let ghost holds = |i: int| self.tag@[i] == tag.number();
        let mut out: Vec<u32> = Vec::new();
        let mut i: usize = 0;
        while i < self.tag.len()
            invariant
                i <= self.tag@.len(),
                want == tag.number(),
                holds == (|i: int| self.tag@[i] == tag.number()),
                out@ == positions(holds, i as nat),
            decreases self.tag@.len() - i,
        {
            if self.tag[i] == want {
                out.push((i as u64 % 0x1_0000_0000u64) as u32);
            }
            i = i + 1;
        }
        out
    }

    /// How many operations there are of each kind, by its number.
    pub fn tag_histogram(&self) -> (r: [u64; 8])
        ensures
            forall|k: int|
                0 <= k < 8 ==> (#[trigger] r@[k]) == bucket_count(self.tag@, k, self.tag@.len()),
    {
        let mut h: [u64; 8] = [0u64; 8];
        let mut i: usize = 0;
        while i < self.tag.len()
            invariant
                i <= self.tag@.len(),
                forall|k: int|
                    0 <= k < 8 ==> (#[trigger] h@[k]) == bucket_count(self.tag@, k, i as nat),
                forall|k: int| 0 <= k < 8 ==> (#[trigger] h@[k]) <= i,
            decreases self.tag@.len() - i,
        {
            let t: u8 = self.tag[i];
            let b: usize = if t < 7 {
                t as usize
            } else {
                7
            };
            h[b] = h[b] + 1;
            i = i + 1;
        }
        h
    }

    /// The positions whose primary varnode lies in main memory, in `lo..hi`.
    pub fn find_ram_in_range(&self, lo: u64, hi: u64) -> (r: Vec<u32>)
        requires
            self.tag@.len() <= self.space@.len(),
            forall|i: int|
                0 <= i < self.tag@.len() && self.space@[i] == SpaceTag::Ram.number() ==> i
                    < self.offset@.len(),
        ensures
            r@ == positions(
                |i: int|
                    self.space@[i] == SpaceTag::Ram.number() && lo <= self.offset@[i]
                        && self.offset@[i] < hi,
                self.tag@.len(),
            ),
            r@ == self.ram_between(lo, hi),
    {
        let ram: u8 = SpaceTag::Ram.code();
        let ghost holds = |i: int|
            self.space@[i] == SpaceTag::Ram.number() && lo <= self.offset@[i] && self.offset@[i]
                < hi;
        let mut out: Vec<u32> = Vec::new();
        let mut i: usize = 0;
        while i < self.tag.len()
            invariant
                i <= self.tag@.len(),
                self.tag@.len() <= self.space@.len(),
                forall|i: int|
                    0 <= i < self.tag@.len() && self.space@[i] == SpaceTag::Ram.number() ==> i
                        < self.offset@.len(),
                ram == SpaceTag::Ram.number(),
                holds == (|i: int|
                    self.space@[i] == SpaceTag::Ram.number() && lo <= self.offset@[i]
                        && self.offset@[i] < hi),
                out@ == positions(holds, i as nat),
            decreases self.tag@.len() - i,
        {
            if self.space[i] == ram && self.offset[i] >= lo && self.offset[i] < hi {
                out.push((i as u64 % 0x1_0000_0000u64) as u32);
            }
            i = i + 1;
        }
        out
    }
}

/// Appending to the columns of one stream gives the columns of both: growing
/// block by block and projecting the whole program are the same.
pub proof fn extending_is_building_the_whole(
    c: OpColumns,
    d: OpColumns,
    first: Seq<R2ILOp>,
    second: Seq<R2ILOp>,
)
    requires
        c.shows(first),
        d.tag@ == c.tag@ + second.map_values(|op: R2ILOp| tag_entry(op)),
        d.space@ == c.space@ + second.map_values(|op: R2ILOp| space_entry(op)),
        d.offset@ == c.offset@ + second.map_values(|op: R2ILOp| offset_entry(op)),
    ensures
        d.shows(first + second),
{
}

/// Columns are positional: entry `i` speaks of operation `i`, and all columns
/// have the length of the stream.
pub proof fn columns_are_positional(c: OpColumns, ops: Seq<R2ILOp>, i: int)
    requires
        c.shows(ops),
        0 <= i < ops.len(),
    ensures
        c.tag@.len() == ops.len(),
        c.space@.len() == ops.len(),
        c.offset@.len() == ops.len(),
        c.tag@[i] == tag_entry(ops[i]),
        c.space@[i] == space_entry(ops[i]),
        c.offset@[i] == offset_entry(ops[i]),
{
}

proof fn lemma_buckets_sum(tags: Seq<u8>, n: nat)
    requires
        n <= tags.len(),
    ensures
        bucket_count(tags, 0, n) + bucket_count(tags, 1, n) + bucket_count(tags, 2, n)
            + bucket_count(tags, 3, n) + bucket_count(tags, 4, n) + bucket_count(tags, 5, n)
            + bucket_count(tags, 6, n) + bucket_count(tags, 7, n) == n,
    decreases n,
{
    if n > 0 {
        lemma_buckets_sum(tags, (n - 1) as nat);
    }
}

/// The histogram counts every operation once.
pub proof fn histogram_totals_the_stream(tags: Seq<u8>)
    ensures
        ({
            let n = tags.len();
            bucket_count(tags, 0, n) + bucket_count(tags, 1, n) + bucket_count(tags, 2, n)
                + bucket_count(tags, 3, n) + bucket_count(tags, 4, n) + bucket_count(tags, 5, n)
                + bucket_count(tags, 6, n) + bucket_count(tags, 7, n) == n
        }),
{
    lemma_buckets_sum(tags, tags.len());
}

proof fn lemma_found_is_counted(tags: Seq<u8>, tag: OpTag, n: nat)
    requires
        n <= tags.len(),
        forall|i: int| 0 <= i < tags.len() ==> (#[trigger] tags[i]) <= 7,
    ensures
        positions(|i: int| tags[i] == tag.number(), n).len() == bucket_count(
            tags,
            tag.number() as int,
            n,
        ),
    decreases n,
{
    if n > 0 {
        lemma_found_is_counted(tags, tag, (n - 1) as nat);
    }
}

/// A scan for a kind finds as many operations as the histogram counts.
pub proof fn scan_and_histogram_agree(c: OpColumns, ops: Seq<R2ILOp>, tag: OpTag)
    requires
        c.shows(ops),
    ensures
        positions(|i: int| c.tag@[i] == tag.number(), c.tag@.len()).len() == bucket_count(
            c.tag@,
            tag.number() as int,
            c.tag@.len(),
        ),
{
    lemma_found_is_counted(c.tag@, tag, c.tag@.len());
}

/// The columns never hold a custom space's handle: all custom spaces look alike.
pub proof fn custom_handles_do_not_show(a: u32, b: u32)
    ensures
        SpaceTag::kind(SpaceId::Custom(a)) == SpaceTag::kind(SpaceId::Custom(b)),
        SpaceTag::kind(SpaceId::Custom(a)) != SpaceTag::kind(SpaceId::Ram),
{
}

/// Positions come out in order, without repetition, and are exactly those at
/// which the property holds.
pub proof fn positions_are_the_ones_asked_for(holds: spec_fn(int) -> bool, n: nat, i: int)
    requires
        n <= 0x1_0000_0000,
        0 <= i < n,
    ensures
        positions(holds, n).contains(i as u32) <==> holds(i),
        forall|j: int, k: int|
            0 <= j < k < positions(holds, n).len() ==> positions(holds, n)[j] < positions(holds, n)[k],
    decreases n,
{
    lemma_positions_in_order(holds, n);
    let before = positions(holds, (n - 1) as nat);
    let all = positions(holds, n);
    if i < n - 1 {
        positions_are_the_ones_asked_for(holds, (n - 1) as nat, i);
        if holds(n - 1) {
            assert(all == before.push((n - 1) as u32));
            if all.contains(i as u32) {
                let k = choose|k: int| 0 <= k < all.len() && all[k] == i as u32;
                assert(k < before.len());
                assert(before[k] == i as u32);
            }
            if before.contains(i as u32) {
                let k = choose|k: int| 0 <= k < before.len() && before[k] == i as u32;
                assert(all[k] == i as u32);
            }
        }
    } else {
        if holds(i) {
            assert(all[before.len() as int] == i as u32);
        } else {
            lemma_positions_below(holds, (n - 1) as nat);
        }
    }
}

proof fn lemma_positions_in_order(holds: spec_fn(int) -> bool, n: nat)
    requires
        n <= 0x1_0000_0000,
    ensures
        forall|j: int, k: int|
            0 <= j < k < positions(holds, n).len() ==> positions(holds, n)[j] < positions(holds, n)[k],
    decreases n,
{
    if n > 0 {
        lemma_positions_in_order(holds, (n - 1) as nat);
        lemma_positions_below(holds, (n - 1) as nat);
        let before = positions(holds, (n - 1) as nat);
        let all = positions(holds, n);
        assert forall|j: int, k: int| 0 <= j < k < all.len() implies all[j] < all[k] by {
            assert(all[j] == before[j]);
            if k < before.len() {
                assert(all[k] == before[k]);
            }
        }
    }
}

proof fn lemma_positions_below(holds: spec_fn(int) -> bool, n: nat)
    requires
        n <= 0x1_0000_0000,
    ensures
        forall|k: int|
            0 <= k < positions(holds, n).len() ==> (#[trigger] positions(holds, n)[k]) < n,
    decreases n,
{
    if n > 0 {
        lemma_positions_below(holds, (n - 1) as nat);
        let before = positions(holds, (n - 1) as nat);
        let all = positions(holds, n);
        assert forall|k: int| 0 <= k < all.len() implies (#[trigger] all[k]) < n by {
            if k < before.len() {
                assert(before[k] < n - 1);
            }
        }
    }
}

/// A scan of main memory finds exactly the operations that reach it in the range: those
/// whose target, address or source lies in main memory, no lower than the range begins and
/// lower than it ends.
pub proof fn a_scan_finds_what_lies_in_the_range(
    c: OpColumns,
    ops: Seq<R2ILOp>,
    lo: u64,
    hi: u64,
    i: int,
)
    requires
        c.shows(ops),
        0 <= i < ops.len() <= 0x1_0000_0000,
    ensures
        c.ram_between(lo, hi).contains(i as u32) <==> (primary_of(ops[i]) matches Some(v) && v.space
            == SpaceId::Ram && lo <= v.offset && v.offset < hi),
{
    let holds = |i: int|
        c.space@[i] == SpaceTag::Ram.number() && lo <= c.offset@[i] && c.offset@[i] < hi;
    positions_are_the_ones_asked_for(holds, ops.len(), i);
    assert(c.space@[i] == space_entry(ops[i]));
    assert(c.offset@[i] == offset_entry(ops[i]));
}

/// A scan for a kind finds exactly the operations of that kind.
pub proof fn a_scan_finds_the_kind(c: OpColumns, ops: Seq<R2ILOp>, tag: OpTag, i: int)
    requires
        c.shows(ops),
        0 <= i < ops.len() <= 0x1_0000_0000,
    ensures
        c.tagged(tag).contains(i as u32) <==> OpTag::kind(ops[i]) == tag,
        OpTag::kind(ops[i]) == OpTag::Call <==> ops[i] is Call,
        OpTag::kind(ops[i]) == OpTag::CallInd <==> ops[i] is CallInd,
        OpTag::kind(ops[i]) == OpTag::Branch <==> ops[i] is Branch,
        OpTag::kind(ops[i]) == OpTag::CBranch <==> ops[i] is CBranch,
        OpTag::kind(ops[i]) == OpTag::BranchInd <==> ops[i] is BranchInd,
        OpTag::kind(ops[i]) == OpTag::Return <==> ops[i] is Return,
        OpTag::kind(ops[i]) == OpTag::CallOther <==> ops[i] is CallOther,
{
    let holds = |i: int| c.tag@[i] == tag.number();
    positions_are_the_ones_asked_for(holds, ops.len(), i);
    assert(c.tag@[i] == tag_entry(ops[i]));
}

} // verus!
