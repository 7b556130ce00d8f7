//! Instruction lengths and the cache of fetched instructions.
use vstd::prelude::*;

verus! {

/// Entries of a core's decode cache, a power of two.
pub const DECODE_CACHE_SIZE: usize = 1024;

/// The tag of an empty entry.
pub const EMPTY_TAG: u32 = 0xFFFF_FFFF;

/// Whether a halfword is the first of a 32-bit instruction: one prefix alone,
/// `11110`, is.
pub open spec fn wide_prefix(hw0: u16) -> bool {
    hw0 / 0x800 == 0b11110
}

pub fn is_wide(hw0: u16) -> (out: bool)
    ensures
        out == wide_prefix(hw0),
{
    hw0 / 0x800 == 0b11110
}

/// Whether instructions at `pc` may be cached: boot ROM, flash and SRAM.
pub open spec fn cacheable(pc: u32) -> bool {
    pc < 0x3000_0000
}

/// The one entry that an address can occupy.
pub open spec fn slot_of(pc: u32) -> int {
    (pc / 2) as int % 1024
}

pub fn slot_for(pc: u32) -> (slot: usize)
    ensures
        slot == slot_of(pc),
        slot < 1024,
{
    (pc / 2) as usize % 1024
}

/// A fetched instruction. The tag is the address it was fetched from.
#[derive(Clone, Copy, Debug, PartialEq, Eq, Structural)]
pub struct DecodedOp {
    pub tag: u32,
    pub hw0: u16,
    pub hw1: u16,
    pub wide: bool,
}

impl DecodedOp {
    pub open spec fn blank() -> DecodedOp {
        DecodedOp { tag: EMPTY_TAG, hw0: 0, hw1: 0, wide: false }
    }

    pub fn empty() -> (e: DecodedOp)
        ensures
            e == DecodedOp::blank(),
    {
        DecodedOp { tag: EMPTY_TAG, hw0: 0, hw1: 0, wide: false }
    }

    pub fn from_parts(pc: u32, hw0: u16, hw1: u16, wide: bool) -> (e: DecodedOp)
        ensures
            e == (DecodedOp { tag: pc, hw0, hw1, wide }),
    {
        DecodedOp { tag: pc, hw0, hw1, wide }
    }

    pub fn is_wide(&self) -> (out: bool)
        ensures
            out == self.wide,
    {
        self.wide
    }

    /// The address that the entry in `slot` was fetched from.
    pub fn tag_for_slot(&self, slot: usize) -> (tag: u32)
        ensures
            tag == self.tag,
    {
        self.tag
    }

    pub fn set_tag_for_slot(&mut self, slot: usize, tag: u32)
        ensures
            *final(self) == (DecodedOp { tag, ..*old(self) }),
    {
        self.tag = tag;
    }

    /// An instruction whose fetch went wrong, which no address matches.
    pub fn fault_result(hw0: u16, hw1: u16, wide: bool) -> (e: DecodedOp)
        ensures
            e == (DecodedOp { tag: EMPTY_TAG, hw0, hw1, wide }),
    {
        DecodedOp { tag: EMPTY_TAG, hw0, hw1, wide }
    }

    /// Whether the entry, which stands in `slot`, is the instruction at `pc`.
    /// An address that cannot be cached matches nothing, not even an empty
    /// entry with its tag.
    pub fn matches_pc(&self, pc: u32, slot: usize) -> (out: bool)
        ensures
            out == (self.tag == pc && cacheable(pc) && slot == slot_of(pc)),
    {
        self.tag == pc && pc < 0x3000_0000 && slot == slot_for(pc)
    }
}

} // verus!
