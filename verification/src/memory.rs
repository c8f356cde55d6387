//! The 4096-byte address space: a font table at the bottom, the program image
//! from `START_ROM` upwards.

use crate::error::{LoadError, StepError};
use vstd::prelude::*;

verus! {

/// Number of addressable bytes.
pub const MEMORY_SIZE: usize = 4096;

/// Address at which a program image is placed.
pub const START_ROM: usize = 0x200;

/// Largest program image that fits.
pub const ROM_SIZE: usize = 4096 - 0x200;

/// Number of bytes in the font table.
pub const FONT_SIZE: usize = 80;

/// Glyphs for the hexadecimal digits `0` to `F`, five bytes each; the high
/// nibble of every byte is one row of a 4x5 bitmap.
pub const FONT_DATA: [u8; 80] = [
    0xF0, 0x90, 0x90, 0x90, 0xF0,
    0x20, 0x60, 0x20, 0x20, 0x70,
    0xF0, 0x10, 0xF0, 0x80, 0xF0,
    0xF0, 0x10, 0xF0, 0x10, 0xF0,
    0x90, 0x90, 0xF0, 0x10, 0x10,
    0xF0, 0x80, 0xF0, 0x10, 0xF0,
    0xF0, 0x80, 0xF0, 0x90, 0xF0,
    0xF0, 0x10, 0x20, 0x40, 0x40,
    0xF0, 0x90, 0xF0, 0x90, 0xF0,
    0xF0, 0x90, 0xF0, 0x10, 0xF0,
    0xF0, 0x90, 0xF0, 0x90, 0x90,
    0xE0, 0x90, 0xE0, 0x90, 0xE0,
    0xF0, 0x80, 0x80, 0x80, 0xF0,
    0xE0, 0x90, 0x90, 0x90, 0xE0,
    0xF0, 0x80, 0xF0, 0x80, 0xF0,
    0xF0, 0x80, 0xF0, 0x80, 0x80,
];

/// Memory with every byte zero.
pub open spec fn blank_memory() -> Seq<u8> {
    Seq::new(4096, |a: int| 0u8)
}

/// The content of memory `mem` after the font table and the image `rom` have
/// been written over it: the font at address 0, the image at `START_ROM`,
/// every other byte as before.
pub open spec fn with_image(mem: Seq<u8>, rom: Seq<u8>) -> Seq<u8> {
    Seq::new(
        mem.len(),
        |a: int|
            if a < 80 {
                FONT_DATA@[a]
            } else if 0x200 <= a < 0x200 + rom.len() {
                rom[a - 0x200]
            } else {
                mem[a]
            },
    )
}

/// The machine's byte-addressable memory. Its view is the sequence of its
/// 4096 bytes, indexed by address.
pub struct Memory {
    /// The bytes, indexed by address.
    bytes: [u8; 4096],
}

impl View for Memory {
    type V = Seq<u8>;

    closed spec fn view(&self) -> Seq<u8> {
        self.bytes@
    }
}

impl Memory {
    /// Every memory holds exactly 4096 bytes.
    pub proof fn lemma_len(&self)
        ensures
            self@.len() == 4096,
    {
    }

    /// A memory with every byte zero.
    pub fn new() -> (m: Self)
        ensures
            m@ == blank_memory(),
    {
        let m = Memory { bytes: [0u8; 4096] };
        assert(m.bytes@ =~= blank_memory());
        m
    }

    /// Writes the font table at address 0 and copies `bytes` to `START_ROM`.
    /// An image of more than `ROM_SIZE` bytes is refused and memory is left
    /// as it was.
    pub fn load_rom(&mut self, bytes: &[u8]) -> (res: Result<(), LoadError>)
        ensures
            bytes@.len() > ROM_SIZE ==> res == Err::<(), LoadError>(LoadError::RomTooLarge)
                && final(self)@ == old(self)@,
            bytes@.len() <= ROM_SIZE ==> res is Ok && final(self)@ == with_image(
                old(self)@,
                bytes@,
            ),
    {
        let rom_size: usize = bytes.len();
        if rom_size > ROM_SIZE {
            return Err(LoadError::RomTooLarge);
        }
        let mut a: usize = 0;
        while a < FONT_SIZE
            invariant
                a <= 80,
                forall|k: int| 0 <= k < a ==> self.bytes@[k] == FONT_DATA@[k],
                forall|k: int| a <= k < 4096 ==> self.bytes@[k] == old(self).bytes@[k],
            decreases 80 - a,
        {
            self.bytes[a] = FONT_DATA[a];
            a = a + 1;
        }
        let mut n: usize = 0;
        while n < rom_size
            invariant
                n <= rom_size,
                rom_size == bytes@.len(),
                rom_size <= 3584,
                forall|k: int| 0 <= k < 80 ==> self.bytes@[k] == FONT_DATA@[k],
                forall|k: int| 0x200 <= k < 0x200 + n ==> self.bytes@[k] == bytes@[k - 0x200],
                forall|k: int|
                    80 <= k < 4096 && !(0x200 <= k < 0x200 + n)
                        ==> self.bytes@[k] == old(self).bytes@[k],
            decreases rom_size - n,
        {
            self.bytes[START_ROM + n] = bytes[n];
            n = n + 1;
        }
        assert(self.bytes@ =~= with_image(old(self).bytes@, bytes@));
        Ok(())
    }

    /// The byte at `addr`.
    pub fn get(&self, addr: usize) -> (value: u8)
        requires
            addr < 4096,
        ensures
            value == self@[addr as int],
    {
        self.bytes[addr]
    }

    /// Stores `value` at `addr`.
    pub fn set(&mut self, addr: usize, value: u8)
        requires
            addr < 4096,
        ensures
            final(self)@ == old(self)@.update(addr as int, value),
    {
        self.bytes[addr] = value;
    }

    /// The byte at `addr`, or `AddressOutOfRange` when `addr` is not below
    /// `MEMORY_SIZE`.
    pub fn read_byte(&self, addr: usize) -> (res: Result<u8, StepError>)
        ensures
            addr < 4096 ==> res == Ok::<u8, StepError>(self@[addr as int]),
            addr >= 4096 ==> res == Err::<u8, StepError>(StepError::AddressOutOfRange),
    {
        if addr < MEMORY_SIZE {
            Ok(self.get(addr))
        } else {
            Err(StepError::AddressOutOfRange)
        }
    }

    /// Stores `value` at `addr`, or reports `AddressOutOfRange` and changes
    /// nothing when `addr` is not below `MEMORY_SIZE`.
    pub fn write_byte(&mut self, addr: usize, value: u8) -> (res: Result<(), StepError>)
        ensures
            addr < 4096 ==> res is Ok && final(self)@ == old(self)@.update(addr as int, value),
            addr >= 4096 ==> res == Err::<(), StepError>(StepError::AddressOutOfRange)
                && final(self)@ == old(self)@,
    {
        if addr < MEMORY_SIZE {
            self.set(addr, value);
            Ok(())
        } else {
            Err(StepError::AddressOutOfRange)
        }
    }

    /// The `len` bytes that start at `start`.
    pub fn slice(&self, start: usize, len: usize) -> (s: &[u8])
        requires
            start + len <= 4096,
        ensures
            s@ == self@.subrange(start as int, start + len),
    {
        vstd::slice::slice_subrange(self.bytes.as_slice(), start, start + len)
    }
}

} // verus!
