//! The four memories of the chip and little-endian access to them.
use vstd::prelude::*;

verus! {

pub const ROM_SIZE: usize = 0x4000;
pub const SRAM_SIZE: usize = 0x4_2000;
pub const FLASH_SIZE: usize = 0x20_0000;
pub const XIP_SRAM_SIZE: usize = 0x4000;

/// How many bytes an access moves.
#[derive(Clone, Copy, Debug, PartialEq, Eq, Structural)]
pub enum Width {
    Byte,
    Half,
    Word,
}

impl Width {
    pub open spec fn bytes(self) -> int {
        match self {
            Width::Byte => 1,
            Width::Half => 2,
            Width::Word => 4,
        }
    }

    /// The bits that an access of this width moves.
    pub open spec fn mask(self) -> u32 {
        match self {
            Width::Byte => 0xFF,
            Width::Half => 0xFFFF,
            Width::Word => 0xFFFF_FFFF,
        }
    }

    pub fn len(self) -> (n: usize)
        ensures
            n == self.bytes(),
    {
        match self {
            Width::Byte => 1,
            Width::Half => 2,
            Width::Word => 4,
        }
    }

    pub fn bits(self) -> (m: u32)
        ensures
            m == self.mask(),
    {
        match self {
            Width::Byte => 0xFF,
            Width::Half => 0xFFFF,
            Width::Word => 0xFFFF_FFFF,
        }
    }
}

/// A word cut to `w` bytes.
pub open spec fn narrowed(v: u32, w: Width) -> u32 {
    match w {
        Width::Byte => v % 0x100,
        Width::Half => v % 0x1_0000,
        Width::Word => v,
    }
}

/// An access of width `w` at offset `at` lies inside `s`.
pub open spec fn fits(s: Seq<u8>, at: int, w: Width) -> bool {
    at + w.bytes() <= s.len()
}

/// The little-endian number at offset `at`.
pub open spec fn load(s: Seq<u8>, at: int, w: Width) -> u32 {
    match w {
        Width::Byte => s[at] as u32,
        Width::Half => (s[at] + 0x100 * s[at + 1]) as u32,
        Width::Word => (s[at] + 0x100 * s[at + 1] + 0x1_0000 * s[at + 2] + 0x100_0000 * s[at + 3]) as u32,
    }
}

/// The memory with the little-endian bytes of `val` at offset `at`.
pub open spec fn store(s: Seq<u8>, at: int, w: Width, val: u32) -> Seq<u8> {
    match w {
        Width::Byte => s.update(at, (val % 0x100) as u8),
        Width::Half => s.update(at, (val % 0x100) as u8).update(at + 1, (val / 0x100 % 0x100) as u8),
        Width::Word => s.update(at, (val % 0x100) as u8).update(at + 1, (val / 0x100 % 0x100) as u8).update(
            at + 2,
            (val / 0x1_0000 % 0x100) as u8,
        ).update(at + 3, (val / 0x100_0000) as u8),
    }
}

/// The number at `at`, or zero where the access does not lie inside.
pub open spec fn load_or_zero(s: Seq<u8>, at: int, w: Width) -> u32 {
    if fits(s, at, w) {
        load(s, at, w)
    } else {
        0
    }
}

/// The memory after a store, unchanged where the access does not lie inside.
pub open spec fn store_or_skip(s: Seq<u8>, at: int, w: Width, val: u32) -> Seq<u8> {
    if fits(s, at, w) {
        store(s, at, w, val)
    } else {
        s
    }
}

pub fn has_room(v: &Vec<u8>, at: u32, w: Width) -> (out: bool)
    ensures
        out == fits(v@, at as int, w),
        out ==> at + w.bytes() <= usize::MAX,
{
    let at: usize = at as usize;
    at <= v.len() && v.len() - at >= w.len()
}

pub fn load_from(v: &Vec<u8>, at: u32, w: Width) -> (out: u32)
    ensures
        out == load_or_zero(v@, at as int, w),
{
    if !has_room(v, at, w) {
        return 0;
    }
    let at: usize = at as usize;
    match w {
        Width::Byte => v[at] as u32,
        Width::Half => v[at] as u32 + 0x100 * (v[at + 1] as u32),
        Width::Word => v[at] as u32 + 0x100 * (v[at + 1] as u32) + 0x1_0000 * (v[at + 2] as u32) + 0x100_0000 * (
        v[at + 3] as u32),
    }
}

pub fn store_to(v: &mut Vec<u8>, at: u32, w: Width, val: u32)
    ensures
        final(v)@ == store_or_skip(old(v)@, at as int, w, val),
{
    if !has_room(v, at, w) {
        return ;
    }
    let at: usize = at as usize;
    match w {
        Width::Byte => {
            v[at] = (val % 0x100) as u8;
        },
        Width::Half => {
            v[at] = (val % 0x100) as u8;
            v[at + 1] = (val / 0x100 % 0x100) as u8;
        },
        Width::Word => {
            v[at] = (val % 0x100) as u8;
            v[at + 1] = (val / 0x100 % 0x100) as u8;
            v[at + 2] = (val / 0x1_0000 % 0x100) as u8;
            v[at + 3] = (val / 0x100_0000) as u8;
        },
    }
}

/// `s` with `data` laid over it from offset `at` on, cut off at the end.
pub open spec fn overlaid(s: Seq<u8>, at: int, data: Seq<u8>) -> Seq<u8> {
    Seq::new(
        s.len(),
        |i: int|
            if at <= i < at + data.len() {
                data[i - at]
            } else {
                s[i]
            },
    )
}

pub fn overlay(v: &mut Vec<u8>, at: usize, data: &[u8])
    ensures
        final(v)@ == overlaid(old(v)@, at as int, data@),
{
    let ghost before = v@;
    let mut i: usize = 0;
    while i < data.len() && at <= v.len() && i < v.len() - at
        invariant
            v@.len() == before.len(),
            i <= data@.len(),
            i == 0 || at + i <= before.len(),
            v@ == overlaid(before, at as int, data@.take(i as int)),
        decreases data@.len() - i,
    {
        v[at + i] = data[i];
        assert(data@.take(i + 1) =~= data@.take(i as int).push(data@[i as int]));
        i += 1;
    }
    assert(v@ =~= overlaid(before, at as int, data@));
}

pub struct Memory {
    pub rom: Vec<u8>,
    pub sram: Vec<u8>,
    pub flash: Vec<u8>,
    pub xip_sram: Vec<u8>,
}

#[verifier::ext_equal]
pub struct MemoryView {
    pub rom: Seq<u8>,
    pub sram: Seq<u8>,
    pub flash: Seq<u8>,
    pub xip_sram: Seq<u8>,
}

impl View for Memory {
    type V = MemoryView;

    open spec fn view(&self) -> MemoryView {
        MemoryView { rom: self.rom@, sram: self.sram@, flash: self.flash@, xip_sram: self.xip_sram@ }
    }
}

/// `n` bytes of zero.
pub open spec fn zeros(n: nat) -> Seq<u8> {
    Seq::new(n, |i: int| 0u8)
}

impl MemoryView {
    pub open spec fn at_reset() -> MemoryView {
        MemoryView {
            rom: zeros(ROM_SIZE as nat),
            sram: zeros(SRAM_SIZE as nat),
            flash: zeros(FLASH_SIZE as nat),
            xip_sram: zeros(XIP_SRAM_SIZE as nat),
        }
    }
}

impl Memory {
    pub fn new() -> (m: Memory)
        ensures
            m@ == MemoryView::at_reset(),
    {
        Memory {
            rom: vec![0u8; ROM_SIZE],
            sram: vec![0u8; SRAM_SIZE],
            flash: vec![0u8; FLASH_SIZE],
            xip_sram: vec![0u8; XIP_SRAM_SIZE],
        }
    }

    /// Copies a boot ROM image in, cut off at the size of the ROM.
    pub fn load_rom(&mut self, data: &[u8])
        ensures
            final(self)@ == (MemoryView { rom: overlaid(old(self)@.rom, 0, data@), ..old(self)@ }),
    {
        overlay(&mut self.rom, 0, data);
    }

    /// Copies a flash image in, cut off at the size of the flash.
    pub fn load_flash(&mut self, data: &[u8])
        ensures
            final(self)@ == (MemoryView { flash: overlaid(old(self)@.flash, 0, data@), ..old(self)@ }),
    {
        overlay(&mut self.flash, 0, data);
    }

    pub fn rom_read8(&self, at: u32) -> (out: u8)
        ensures
            out == load_or_zero(self@.rom, at as int, Width::Byte),
    {
        load_from(&self.rom, at, Width::Byte) as u8
    }

    pub fn rom_read32(&self, at: u32) -> (out: u32)
        ensures
            out == load_or_zero(self@.rom, at as int, Width::Word),
    {
        load_from(&self.rom, at, Width::Word)
    }

    pub fn sram_read8(&self, at: u32) -> (out: u8)
        ensures
            out == load_or_zero(self@.sram, at as int, Width::Byte),
    {
        load_from(&self.sram, at, Width::Byte) as u8
    }

    pub fn sram_write16(&mut self, at: u32, val: u16)
        ensures
            final(self)@ == (MemoryView {
                sram: store_or_skip(old(self)@.sram, at as int, Width::Half, val as u32),
                ..old(self)@
            }),
    {
        store_to(&mut self.sram, at, Width::Half, val as u32);
    }

    pub fn xip_read8(&self, at: u32) -> (out: u8)
        ensures
            out == load_or_zero(self@.flash, at as int, Width::Byte),
    {
        load_from(&self.flash, at, Width::Byte) as u8
    }

    pub fn xip_read32(&self, at: u32) -> (out: u32)
        ensures
            out == load_or_zero(self@.flash, at as int, Width::Word),
    {
        load_from(&self.flash, at, Width::Word)
    }
}

/// The SRAM bank that serves an address: words 0 to 65535 rotate through four
/// banks, then two banks of 4 KB follow. Bits 24 to 27 select an alias.
pub open spec fn bank_of(addr: u32) -> Option<usize> {
    let at = addr as int % 0x100_0000;
    if addr as int / 0x1000_0000 != 2 {
        None
    } else if at < 0x4_0000 {
        Some((at / 4 % 4) as usize)
    } else if at < 0x4_1000 {
        Some(4)
    } else if at < 0x4_2000 {
        Some(5)
    } else {
        None
    }
}

pub fn bank_for_address(addr: u32) -> (bank: Option<usize>)
    ensures
        bank == bank_of(addr),
{
    if addr / 0x1000_0000 != 2 {
        return None;
    }
    let at: u32 = addr % 0x100_0000;
    if at < 0x4_0000 {
        Some((at / 4 % 4) as usize)
    } else if at < 0x4_1000 {
        Some(4)
    } else if at < 0x4_2000 {
        Some(5)
    } else {
        None
    }
}

/// What was stored is what is loaded, cut to the width of the access.
pub proof fn law_load_after_store(s: Seq<u8>, at: int, w: Width, val: u32)
    requires
        0 <= at,
        fits(s, at, w),
    ensures
        w == Width::Byte ==> load(store(s, at, w, val), at, w) == val % 0x100,
        w == Width::Half ==> load(store(s, at, w, val), at, w) == val % 0x1_0000,
        w == Width::Word ==> load(store(s, at, w, val), at, w) == val,
        store(s, at, w, val).len() == s.len(),
{
}

/// A store does not change what any access that does not overlap it loads.
pub proof fn law_store_is_local(s: Seq<u8>, at: int, w: Width, val: u32, other: int, v: Width)
    requires
        0 <= at,
        fits(s, at, w),
        0 <= other,
        fits(s, other, v),
        other + v.bytes() <= at || at + w.bytes() <= other,
    ensures
        load(store(s, at, w, val), other, v) == load(s, other, v),
{
}

} // verus!
