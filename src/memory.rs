use vstd::prelude::*;
use crate::error::EmuError;

verus! {

/// Number of byte cells in the address space.
pub const MAX_RAM: usize = 4096;

/// Address at which programs are loaded and start executing.
pub const RESERVED: usize = 0x200;

/// Address at which the hexadecimal digit glyphs are stored.
pub const FONT_BASE: usize = 0x50;

/// Size of the font table: sixteen glyphs of five bytes each.
pub const FONT_LEN: usize = 80;

/// Bytes per glyph in the font table.
pub const GLYPH_LEN: usize = 5;

/// `s` with the cells from `at` on replaced by the bytes of `b`.
pub open spec fn overwrite(s: Seq<u8>, at: int, b: Seq<u8>) -> Seq<u8> {
    Seq::new(s.len(), |j: int| if at <= j < at + b.len() { b[j - at] } else { s[j] })
}

/// The glyphs of the hex digits 0 to F, five rows of four pixels each.
pub open spec fn font_seq() -> Seq<u8> {
    seq![
        0xF0, 0x90, 0x90, 0x90, 0xF0, 0x20, 0x60, 0x20, 0x20, 0x70,
        0xF0, 0x10, 0xF0, 0x80, 0xF0, 0xF0, 0x10, 0xF0, 0x10, 0xF0,
        0x90, 0x90, 0xF0, 0x10, 0x10, 0xF0, 0x80, 0xF0, 0x10, 0xF0,
        0xF0, 0x80, 0xF0, 0x90, 0xF0, 0xF0, 0x10, 0x20, 0x40, 0x40,
        0xF0, 0x90, 0xF0, 0x90, 0xF0, 0xF0, 0x90, 0xF0, 0x10, 0xF0,
        0xF0, 0x90, 0xF0, 0x90, 0x90, 0xE0, 0x90, 0xE0, 0x90, 0xE0,
        0xF0, 0x80, 0x80, 0x80, 0xF0, 0xE0, 0x90, 0x90, 0x90, 0xE0,
        0xF0, 0x80, 0xF0, 0x80, 0xF0, 0xF0, 0x80, 0xF0, 0x80, 0x80,
    ]
}

/// The font table as bytes.
pub fn font_set() -> (r: Vec<u8>)
    ensures
        r@ == font_seq(),
{
    let r: Vec<u8> = vec![
        0xF0, 0x90, 0x90, 0x90, 0xF0, 0x20, 0x60, 0x20, 0x20, 0x70,
        0xF0, 0x10, 0xF0, 0x80, 0xF0, 0xF0, 0x10, 0xF0, 0x10, 0xF0,
        0x90, 0x90, 0xF0, 0x10, 0x10, 0xF0, 0x80, 0xF0, 0x10, 0xF0,
        0xF0, 0x80, 0xF0, 0x90, 0xF0, 0xF0, 0x10, 0x20, 0x40, 0x40,
        0xF0, 0x90, 0xF0, 0x90, 0xF0, 0xF0, 0x90, 0xF0, 0x10, 0xF0,
        0xF0, 0x90, 0xF0, 0x90, 0x90, 0xE0, 0x90, 0xE0, 0x90, 0xE0,
        0xF0, 0x80, 0x80, 0x80, 0xF0, 0xE0, 0x90, 0x90, 0x90, 0xE0,
        0xF0, 0x80, 0xF0, 0x80, 0xF0, 0xF0, 0x80, 0xF0, 0x80, 0x80,
    ];
    assert(r@ =~= font_seq());
    r
}

/// The flat, byte-addressable store of the machine.
pub struct Memory {
    pub ram: Vec<u8>,
}

impl Memory {
    /// The store spans exactly the address space.
    pub open spec fn wf(&self) -> bool {
        self.ram@.len() == MAX_RAM
    }

    /// A zero-filled store.
    pub fn new() -> (m: Memory)
        ensures
            m.wf(),
            m.ram@ == Seq::new(MAX_RAM as nat, |j: int| 0u8),
    {
        let ram: Vec<u8> = vec![0u8; MAX_RAM];
        assert(ram@ =~= Seq::new(MAX_RAM as nat, |j: int| 0u8));
        Memory { ram }
    }

    /// Copies the first `len` bytes of `bytes` into the store from address
    /// `at` on.
    pub fn copy_in(&mut self, at: usize, bytes: &[u8], len: usize)
        requires
            old(self).wf(),
            len <= bytes@.len(),
            at + len <= MAX_RAM,
        ensures
            final(self).wf(),
            final(self).ram@ == overwrite(old(self).ram@, at as int, bytes@.subrange(0, len as int)),
    {
        let mut k: usize = 0;
        while k < len
            invariant
                self.wf(),
                k <= len <= bytes@.len(),
                at + len <= MAX_RAM,
                self.ram@ == overwrite(old(self).ram@, at as int, bytes@.subrange(0, k as int)),
            decreases len - k,
        {
            self.ram.set(at + k, bytes[k]);
            k = k + 1;
            assert(self.ram@ =~= overwrite(old(self).ram@, at as int, bytes@.subrange(0, k as int)));
        }
    }

    /// The `len` bytes of the store from address `at` on.
    pub fn read_bytes(&self, at: usize, len: usize) -> (r: Vec<u8>)
        requires
            self.wf(),
            at + len <= MAX_RAM,
        ensures
            r@ == self.ram@.subrange(at as int, at + len),
    {
        let mut r: Vec<u8> = Vec::new();
        let mut k: usize = 0;
        while k < len
            invariant
                self.wf(),
                k <= len,
                at + len <= MAX_RAM,
                r@ == self.ram@.subrange(at as int, at + k),
            decreases len - k,
        {
            r.push(self.ram[at + k]);
            k = k + 1;
            assert(r@ =~= self.ram@.subrange(at as int, at + k));
        }
        r
    }

    /// Copies the font table into the reserved area at `FONT_BASE`.
    pub fn load_font(&mut self, font: &[u8])
        requires
            old(self).wf(),
            font@.len() == FONT_LEN,
        ensures
            final(self).wf(),
            final(self).ram@ == overwrite(old(self).ram@, FONT_BASE as int, font@),
    {
        self.copy_in(FONT_BASE, font, font.len());
        assert(font@.subrange(0, font@.len() as int) =~= font@);
    }

    /// Copies a program into the store at `RESERVED`; fails, leaving the store
    /// as it was, when the program does not fit above that address.
    pub fn load_rom(&mut self, rom: &[u8]) -> (r: Result<(), EmuError>)
        requires
            old(self).wf(),
        ensures
            final(self).wf(),
            rom@.len() > MAX_RAM - RESERVED ==> r == Err::<(), EmuError>(EmuError::RomTooLarge)
                && final(self).ram@ == old(self).ram@,
            rom@.len() <= MAX_RAM - RESERVED ==> r == Ok::<(), EmuError>(())
                && final(self).ram@ == overwrite(old(self).ram@, RESERVED as int, rom@),
    {
        if rom.len() > MAX_RAM - RESERVED {
            return Err(EmuError::RomTooLarge);
        }
        self.copy_in(RESERVED, rom, rom.len());
        assert(rom@.subrange(0, rom@.len() as int) =~= rom@);
        Ok(())
    }

    /// The byte at `addr`, or `OutOfBounds` past the end of the store.
    pub fn read_byte(&self, addr: usize) -> (r: Result<u8, EmuError>)
        requires
            self.wf(),
        ensures
            addr < MAX_RAM ==> r == Ok::<u8, EmuError>(self.ram@[addr as int]),
            addr >= MAX_RAM ==> r == Err::<u8, EmuError>(EmuError::OutOfBounds),
    {
        if addr < MAX_RAM {
            Ok(self.ram[addr])
        } else {
            Err(EmuError::OutOfBounds)
        }
    }

    /// Stores `value` at `addr`; fails with `OutOfBounds`, changing nothing,
    /// past the end of the store.
    pub fn write_byte(&mut self, addr: usize, value: u8) -> (r: Result<(), EmuError>)
        requires
            old(self).wf(),
        ensures
            final(self).wf(),
            addr < MAX_RAM ==> r == Ok::<(), EmuError>(())
                && final(self).ram@ == old(self).ram@.update(addr as int, value),
            addr >= MAX_RAM ==> r == Err::<(), EmuError>(EmuError::OutOfBounds)
                && final(self).ram@ == old(self).ram@,
    {
        if addr < MAX_RAM {
            self.ram.set(addr, value);
            Ok(())
        } else {
            Err(EmuError::OutOfBounds)
        }
    }
}

} // verus!
