//! The memory bus and the cartridge bank controllers.
//!
//! The bus owns the cartridge controller and one flat array for every
//! internal region (video RAM, work RAM, OAM, I/O registers, high RAM).
//! Reads and writes below 0x8000 and in 0xA000..0xBFFF go through the
//! controller; the echo region 0xE000..0xFDFF mirrors 0xC000..0xDDFF; all
//! other addresses hit the internal array directly.

use vstd::prelude::*;
use crate::registers::{Registers, RegisterNames, wrap16};

verus! {

#[derive(Debug, Clone, Copy, PartialEq, Eq, Structural)]
pub enum MemoryError {
    /// The cartridge header byte at 0x0147 names a bank controller this
    /// library does not implement, or the image is too short to hold one.
    UnsupportedCartridge,
}

/// Folds the echo region onto the work RAM it mirrors.
pub open spec fn fold_echo(loc: u16) -> u16 {
    if 0xE000 <= loc <= 0xFDFF {
        (loc - 0x2000) as u16
    } else {
        loc
    }
}

/// A ROM byte; indices beyond the image read as 0xFF, like an open bus.
pub open spec fn rom_byte(rom: Seq<u8>, idx: int) -> u8 {
    if 0 <= idx < rom.len() {
        rom[idx]
    } else {
        0xFF
    }
}

/// Cartridge without a bank controller: writes below 0x8000 are ignored;
/// one 8-KiB external RAM area is always accessible and never saved.
#[derive(Debug)]
pub struct ROMOnlyMemory {
    pub rom: Vec<u8>,
    pub ram: Vec<u8>,
}

/// MBC1: 5-bit ROM bank (0 aliased to 1), 2-bit RAM bank, RAM-enable latch,
/// and the 4/32 mode latch.
#[derive(Debug)]
pub struct MBC1Memory {
    pub rom: Vec<u8>,
    pub ram_banks: Vec<u8>,
    pub bank_n: u8,
    pub ram_bank_n: u8,
    pub ram_enabled: bool,
    pub memory_model_is_4_32: bool,
}

/// MBC3: 7-bit ROM bank (0 aliased to 1); the RAM-bank register selects a
/// RAM bank (0..=3) or an RTC register (8..=0x0C), which reads as zero.
#[derive(Debug)]
pub struct MBC3Memory {
    pub rom: Vec<u8>,
    pub ram_banks: Vec<u8>,
    pub bank_n: u8,
    pub ram_bank_n: u8,
    pub ram_enabled: bool,
}

/// MBC5: 9-bit ROM bank (bank 0 is valid), 16 RAM banks; the RAM-bank
/// register keeps the low four bits of what was written.
#[derive(Debug)]
pub struct MBC5Memory {
    pub rom: Vec<u8>,
    pub ram_banks: Vec<u8>,
    pub bank_n: u16,
    pub ram_bank_n: u8,
    pub ram_enabled: bool,
}

#[derive(Debug)]
pub enum Cartridge {
    RomOnly(ROMOnlyMemory),
    Mbc1(MBC1Memory),
    Mbc3(MBC3Memory),
    Mbc5(MBC5Memory),
}

impl ROMOnlyMemory {
    pub open spec fn wf(self) -> bool {
        self.ram@.len() == 0x2000
    }

    pub open spec fn read_spec(self, loc: u16) -> u8 {
        if loc < 0x8000 {
            rom_byte(self.rom@, loc as int)
        } else if 0xA000 <= loc < 0xC000 {
            self.ram@[loc - 0xA000]
        } else {
            0xFF
        }
    }

    /// How one write relates the controller state before to the state after.
    pub open spec fn write_rel(pre: ROMOnlyMemory, post: ROMOnlyMemory, loc: u16, val: u8) -> bool {
        &&& post.rom@ == pre.rom@
        &&& if 0xA000 <= loc < 0xC000 {
            post.ram@ == pre.ram@.update(loc - 0xA000, val)
        } else {
            post.ram@ == pre.ram@
        }
    }

    pub fn set(&mut self, loc: u16, val: u8)
        requires
            old(self).wf(),
            loc < 0x8000 || 0xA000 <= loc < 0xC000,
        ensures
            final(self).wf(),
            ROMOnlyMemory::write_rel(*old(self), *final(self), loc, val),
    {
        if loc >= 0xA000 && loc < 0xC000 {
            self.ram.set((loc - 0xA000) as usize, val);
        }
    }

    pub fn get(&self, loc: u16) -> (r: u8)
        requires
            self.wf(),
            loc < 0x8000 || 0xA000 <= loc < 0xC000,
        ensures
            r == self.read_spec(loc),
    {
        if loc < 0x8000 {
            let idx: usize = loc as usize;
            if idx < self.rom.len() {
                self.rom[idx]
            } else {
                0xFF
            }
        } else {
            self.ram[(loc - 0xA000) as usize]
        }
    }
}

impl MBC1Memory {
    pub open spec fn wf(self) -> bool {
        &&& self.ram_banks@.len() == 0x8000
        &&& 1 <= self.bank_n < 32
        &&& self.ram_bank_n < 4
    }

    pub open spec fn ram_index(self, loc: u16) -> int {
        self.ram_bank_n as int * 0x2000 + (loc - 0xA000)
    }

    pub open spec fn read_spec(self, loc: u16) -> u8 {
        if loc < 0x4000 {
            rom_byte(self.rom@, loc as int)
        } else if loc < 0x8000 {
            rom_byte(self.rom@, self.bank_n as int * 0x4000 + (loc - 0x4000))
        } else if 0xA000 <= loc < 0xC000 {
            if self.ram_enabled {
                self.ram_banks@[self.ram_index(loc)]
            } else {
                0xFF
            }
        } else {
            0xFF
        }
    }

    pub open spec fn write_rel(pre: MBC1Memory, post: MBC1Memory, loc: u16, val: u8) -> bool {
        if loc < 0x2000 {
            post == (MBC1Memory { ram_enabled: val % 16 == 0xA, ..pre })
        } else if loc < 0x4000 {
            post == (MBC1Memory {
                bank_n: if val % 32 == 0 {
                    1
                } else {
                    val % 32
                },
                ..pre
            })
        } else if loc < 0x6000 {
            post == (MBC1Memory { ram_bank_n: val % 4, ..pre })
        } else if loc < 0x8000 {
            post == (MBC1Memory { memory_model_is_4_32: val % 2 == 1, ..pre })
        } else if 0xA000 <= loc < 0xC000 {
            if pre.ram_enabled {
                &&& post.ram_banks@ == pre.ram_banks@.update(pre.ram_index(loc), val)
                &&& post.rom@ == pre.rom@
                &&& post.bank_n == pre.bank_n
                &&& post.ram_bank_n == pre.ram_bank_n
                &&& post.ram_enabled == pre.ram_enabled
                &&& post.memory_model_is_4_32 == pre.memory_model_is_4_32
            } else {
                post == pre
            }
        } else {
            post == pre
        }
    }

    pub fn set(&mut self, loc: u16, val: u8)
        requires
            old(self).wf(),
            loc < 0x8000 || 0xA000 <= loc < 0xC000,
        ensures
            final(self).wf(),
            MBC1Memory::write_rel(*old(self), *final(self), loc, val),
    {
        if loc < 0x2000 {
            self.ram_enabled = val % 16 == 0xA;
        } else if loc < 0x4000 {
            self.bank_n = if val % 32 == 0 {
                1
            } else {
                val % 32
            };
        } else if loc < 0x6000 {
            self.ram_bank_n = val % 4;
        } else if loc < 0x8000 {
            self.memory_model_is_4_32 = val % 2 == 1;
        } else if self.ram_enabled {
            let idx: usize = self.ram_bank_n as usize * 0x2000 + (loc as usize - 0xA000);
            self.ram_banks.set(idx, val);
        }
    }

    pub fn get(&self, loc: u16) -> (r: u8)
        requires
            self.wf(),
            loc < 0x8000 || 0xA000 <= loc < 0xC000,
        ensures
            r == self.read_spec(loc),
    {
        if loc < 0x4000 {
            let idx: usize = loc as usize;
            if idx < self.rom.len() {
                self.rom[idx]
            } else {
                0xFF
            }
        } else if loc < 0x8000 {
            let idx: usize = self.bank_n as usize * 0x4000 + (loc as usize - 0x4000);
            if idx < self.rom.len() {
                self.rom[idx]
            } else {
                0xFF
            }
        } else if self.ram_enabled {
            self.ram_banks[self.ram_bank_n as usize * 0x2000 + (loc as usize - 0xA000)]
        } else {
            0xFF
        }
    }
}

impl MBC3Memory {
    pub open spec fn wf(self) -> bool {
        &&& self.ram_banks@.len() == 0x8000
        &&& 1 <= self.bank_n < 128
    }

    pub open spec fn ram_accessible(self) -> bool {
        self.ram_enabled && self.ram_bank_n <= 3
    }

    pub open spec fn ram_index(self, loc: u16) -> int {
        self.ram_bank_n as int * 0x2000 + (loc - 0xA000)
    }

    pub open spec fn read_spec(self, loc: u16) -> u8 {
        if loc < 0x4000 {
            rom_byte(self.rom@, loc as int)
        } else if loc < 0x8000 {
            rom_byte(self.rom@, self.bank_n as int * 0x4000 + (loc - 0x4000))
        } else if 0xA000 <= loc < 0xC000 {
            if self.ram_accessible() {
                self.ram_banks@[self.ram_index(loc)]
            } else if self.ram_enabled && 0x08 <= self.ram_bank_n <= 0x0C {
                0x00
            } else {
                0xFF
            }
        } else {
            0xFF
        }
    }

    pub open spec fn write_rel(pre: MBC3Memory, post: MBC3Memory, loc: u16, val: u8) -> bool {
        if loc < 0x2000 {
            post == (MBC3Memory { ram_enabled: val % 16 == 0xA, ..pre })
        } else if loc < 0x4000 {
            post == (MBC3Memory {
                bank_n: if val % 128 == 0 {
                    1
                } else {
                    val % 128
                },
                ..pre
            })
        } else if loc < 0x6000 {
            post == (MBC3Memory { ram_bank_n: val, ..pre })
        } else if loc < 0x8000 {
            post == pre
        } else if 0xA000 <= loc < 0xC000 {
            if pre.ram_accessible() {
                &&& post.ram_banks@ == pre.ram_banks@.update(pre.ram_index(loc), val)
                &&& post.rom@ == pre.rom@
                &&& post.bank_n == pre.bank_n
                &&& post.ram_bank_n == pre.ram_bank_n
                &&& post.ram_enabled == pre.ram_enabled
            } else {
                post == pre
            }
        } else {
            post == pre
        }
    }

    pub fn set(&mut self, loc: u16, val: u8)
        requires
            old(self).wf(),
            loc < 0x8000 || 0xA000 <= loc < 0xC000,
        ensures
            final(self).wf(),
            MBC3Memory::write_rel(*old(self), *final(self), loc, val),
    {
        if loc < 0x2000 {
            self.ram_enabled = val % 16 == 0xA;
        } else if loc < 0x4000 {
            self.bank_n = if val % 128 == 0 {
                1
            } else {
                val % 128
            };
        } else if loc < 0x6000 {
            self.ram_bank_n = val;
        } else if loc < 0x8000 {
            // Writes here would latch the real-time clock, which this
            // controller stubs out.
        } else if self.ram_enabled && self.ram_bank_n <= 3 {
            let idx: usize = self.ram_bank_n as usize * 0x2000 + (loc as usize - 0xA000);
            self.ram_banks.set(idx, val);
        }
    }

    pub fn get(&self, loc: u16) -> (r: u8)
        requires
            self.wf(),
            loc < 0x8000 || 0xA000 <= loc < 0xC000,
        ensures
            r == self.read_spec(loc),
    {
        if loc < 0x4000 {
            let idx: usize = loc as usize;
            if idx < self.rom.len() {
                self.rom[idx]
            } else {
                0xFF
            }
        } else if loc < 0x8000 {
            let idx: usize = self.bank_n as usize * 0x4000 + (loc as usize - 0x4000);
            if idx < self.rom.len() {
                self.rom[idx]
            } else {
                0xFF
            }
        } else if self.ram_enabled && self.ram_bank_n <= 3 {
            self.ram_banks[self.ram_bank_n as usize * 0x2000 + (loc as usize - 0xA000)]
        } else if self.ram_enabled && self.ram_bank_n >= 0x08 && self.ram_bank_n <= 0x0C {
            0x00
        } else {
            0xFF
        }
    }
}

impl MBC5Memory {
    pub open spec fn wf(self) -> bool {
        &&& self.ram_banks@.len() == 0x20000
        &&& self.bank_n < 512
        &&& self.ram_bank_n < 16
    }

    pub open spec fn ram_index(self, loc: u16) -> int {
        self.ram_bank_n as int * 0x2000 + (loc - 0xA000)
    }

    pub open spec fn read_spec(self, loc: u16) -> u8 {
        if loc < 0x4000 {
            rom_byte(self.rom@, loc as int)
        } else if loc < 0x8000 {
            rom_byte(self.rom@, self.bank_n as int * 0x4000 + (loc - 0x4000))
        } else if 0xA000 <= loc < 0xC000 {
            if self.ram_enabled {
                self.ram_banks@[self.ram_index(loc)]
            } else {
                0xFF
            }
        } else {
            0xFF
        }
    }

    pub open spec fn write_rel(pre: MBC5Memory, post: MBC5Memory, loc: u16, val: u8) -> bool {
        if loc < 0x2000 {
            post == (MBC5Memory { ram_enabled: val % 16 == 0xA, ..pre })
        } else if loc < 0x3000 {
            post == (MBC5Memory { bank_n: (pre.bank_n / 256 * 256 + val) as u16, ..pre })
        } else if loc < 0x4000 {
            post == (MBC5Memory { bank_n: (pre.bank_n % 256 + (val % 2) * 256) as u16, ..pre })
        } else if loc < 0x6000 {
            post == (MBC5Memory { ram_bank_n: val % 16, ..pre })
        } else if loc < 0x8000 {
            post == pre
        } else if 0xA000 <= loc < 0xC000 {
            if pre.ram_enabled {
                &&& post.ram_banks@ == pre.ram_banks@.update(pre.ram_index(loc), val)
                &&& post.rom@ == pre.rom@
                &&& post.bank_n == pre.bank_n
                &&& post.ram_bank_n == pre.ram_bank_n
                &&& post.ram_enabled == pre.ram_enabled
            } else {
                post == pre
            }
        } else {
            post == pre
        }
    }

    pub fn set(&mut self, loc: u16, val: u8)
        requires
            old(self).wf(),
            loc < 0x8000 || 0xA000 <= loc < 0xC000,
        ensures
            final(self).wf(),
            MBC5Memory::write_rel(*old(self), *final(self), loc, val),
    {
        if loc < 0x2000 {
            self.ram_enabled = val % 16 == 0xA;
        } else if loc < 0x3000 {
            self.bank_n = self.bank_n / 256 * 256 + val as u16;
        } else if loc < 0x4000 {
            self.bank_n = self.bank_n % 256 + (val as u16 % 2) * 256;
        } else if loc < 0x6000 {
            self.ram_bank_n = val % 16;
        } else if loc < 0x8000 {
            // No controller register lives here.
        } else if self.ram_enabled {
            let idx: usize = self.ram_bank_n as usize * 0x2000 + (loc as usize - 0xA000);
            self.ram_banks.set(idx, val);
        }
    }

    pub fn get(&self, loc: u16) -> (r: u8)
        requires
            self.wf(),
            loc < 0x8000 || 0xA000 <= loc < 0xC000,
        ensures
            r == self.read_spec(loc),
    {
        if loc < 0x4000 {
            let idx: usize = loc as usize;
            if idx < self.rom.len() {
                self.rom[idx]
            } else {
                0xFF
            }
        } else if loc < 0x8000 {
            let idx: usize = self.bank_n as usize * 0x4000 + (loc as usize - 0x4000);
            if idx < self.rom.len() {
                self.rom[idx]
            } else {
                0xFF
            }
        } else if self.ram_enabled {
            self.ram_banks[self.ram_bank_n as usize * 0x2000 + (loc as usize - 0xA000)]
        } else {
            0xFF
        }
    }
}

impl Cartridge {
    pub open spec fn wf(self) -> bool {
        match self {
            Cartridge::RomOnly(m) => m.wf(),
            Cartridge::Mbc1(m) => m.wf(),
            Cartridge::Mbc3(m) => m.wf(),
            Cartridge::Mbc5(m) => m.wf(),
        }
    }

    pub open spec fn read_spec(self, loc: u16) -> u8 {
        match self {
            Cartridge::RomOnly(m) => m.read_spec(loc),
            Cartridge::Mbc1(m) => m.read_spec(loc),
            Cartridge::Mbc3(m) => m.read_spec(loc),
            Cartridge::Mbc5(m) => m.read_spec(loc),
        }
    }

    /// Whether a read or write in 0xA000..0xBFFF reaches external RAM.
    pub open spec fn ram_accessible(self) -> bool {
        match self {
            Cartridge::RomOnly(_) => true,
            Cartridge::Mbc1(m) => m.ram_enabled,
            Cartridge::Mbc3(m) => m.ram_accessible(),
            Cartridge::Mbc5(m) => m.ram_enabled,
        }
    }

    pub open spec fn write_rel(pre: Cartridge, post: Cartridge, loc: u16, val: u8) -> bool {
        match (pre, post) {
            (Cartridge::RomOnly(a), Cartridge::RomOnly(b)) => ROMOnlyMemory::write_rel(
                a,
                b,
                loc,
                val,
            ),
            (Cartridge::Mbc1(a), Cartridge::Mbc1(b)) => MBC1Memory::write_rel(a, b, loc, val),
            (Cartridge::Mbc3(a), Cartridge::Mbc3(b)) => MBC3Memory::write_rel(a, b, loc, val),
            (Cartridge::Mbc5(a), Cartridge::Mbc5(b)) => MBC5Memory::write_rel(a, b, loc, val),
            _ => false,
        }
    }

    /// The byte count of one save image: every external RAM bank in order.
    pub open spec fn save_len(self) -> int {
        match self {
            Cartridge::RomOnly(_) => 0,
            Cartridge::Mbc1(_) => 0x8000,
            Cartridge::Mbc3(_) => 0x8000,
            Cartridge::Mbc5(_) => 0x20000,
        }
    }

    /// The save image itself.
    pub open spec fn save_seq(self) -> Seq<u8> {
        match self {
            Cartridge::RomOnly(_) => Seq::<u8>::empty(),
            Cartridge::Mbc1(m) => m.ram_banks@,
            Cartridge::Mbc3(m) => m.ram_banks@,
            Cartridge::Mbc5(m) => m.ram_banks@,
        }
    }
}

/// The memory bus.
#[derive(Debug)]
pub struct Memory {
    pub cart: Cartridge,
    pub ram: Vec<u8>,
}

impl Memory {
    pub open spec fn wf(self) -> bool {
        &&& self.ram@.len() == 0x10000
        &&& self.cart.wf()
    }

    /// Whether the folded address is served by the cartridge controller.
    pub open spec fn cart_handled(loc: u16) -> bool {
        loc < 0x8000 || 0xA000 <= loc < 0xC000
    }

    /// The byte a read of `loc` returns.
    pub open spec fn read_spec(self, loc: u16) -> u8 {
        let a = fold_echo(loc);
        if Memory::cart_handled(a) {
            self.cart.read_spec(a)
        } else {
            self.ram@[a as int]
        }
    }

    pub open spec fn ram_accessible(self) -> bool {
        self.cart.ram_accessible()
    }

    /// How one bus write relates the state before to the state after.
    pub open spec fn write_rel(pre: Memory, post: Memory, loc: u16, val: u8) -> bool {
        let a = fold_echo(loc);
        if Memory::cart_handled(a) {
            &&& Cartridge::write_rel(pre.cart, post.cart, a, val)
            &&& post.ram@ == pre.ram@
        } else {
            &&& post.ram@ == pre.ram@.update(a as int, val)
            &&& post.cart == pre.cart
        }
    }

    pub fn set(&mut self, loc: u16, val: u8)
        requires
            old(self).wf(),
        ensures
            final(self).wf(),
            Memory::write_rel(*old(self), *final(self), loc, val),
    {
        let a: u16 = if loc >= 0xE000 && loc <= 0xFDFF {
            loc - 0x2000
        } else {
            loc
        };
        if a < 0x8000 || (a >= 0xA000 && a < 0xC000) {
            match &mut self.cart {
                Cartridge::RomOnly(m) => m.set(a, val),
                Cartridge::Mbc1(m) => m.set(a, val),
                Cartridge::Mbc3(m) => m.set(a, val),
                Cartridge::Mbc5(m) => m.set(a, val),
            }
        } else {
            self.ram.set(a as usize, val);
        }
    }

    pub fn get(&self, loc: u16) -> (r: u8)
        requires
            self.wf(),
        ensures
            r == self.read_spec(loc),
    {
        let a: u16 = if loc >= 0xE000 && loc <= 0xFDFF {
            loc - 0x2000
        } else {
            loc
        };
        if a < 0x8000 || (a >= 0xA000 && a < 0xC000) {
            match &self.cart {
                Cartridge::RomOnly(m) => m.get(a),
                Cartridge::Mbc1(m) => m.get(a),
                Cartridge::Mbc3(m) => m.get(a),
                Cartridge::Mbc5(m) => m.get(a),
            }
        } else {
            self.ram[a as usize]
        }
    }

    /// Raises one bit in the interrupt-flag register at 0xFF0F.
    pub fn setInterruptFlag(&mut self, flag: u8)
        requires
            old(self).wf(),
            flag < 8,
        ensures
            final(self).wf(),
            Memory::write_rel(
                *old(self),
                *final(self),
                0xFF0F,
                old(self).read_spec(0xFF0F) | (1u8 << flag),
            ),
    {
        let interrupts = self.get(0xFF0F);
        self.set(0xFF0F, interrupts | (1u8 << flag));
    }

    /// Writes a 16-bit value little-endian: low byte at `loc`, high byte at
    /// the following address (wrapping at the top of the address space).
    pub fn setLong(&mut self, loc: u16, val: u16)
        requires
            old(self).wf(),
        ensures
            final(self).wf(),
            exists|mid: Memory|
                mid.wf() && #[trigger] Memory::write_rel(*old(self), mid, loc, (val % 256) as u8)
                    && Memory::write_rel(
                    mid,
                    *final(self),
                    wrap16(loc + 1) as u16,
                    (val / 256) as u8,
                ),
    {
        let low_byte: u8 = (val % 256) as u8;
        let high_byte: u8 = (val / 256) as u8;
        self.set(loc, low_byte);
        let ghost mid = *self;
        let hi_loc: u16 = if loc == 0xFFFF {
            0
        } else {
            loc + 1
        };
        self.set(hi_loc, high_byte);
        proof {
            assert(mid.wf() && Memory::write_rel(*old(self), mid, loc, (val % 256) as u8)
                && Memory::write_rel(mid, *self, wrap16(loc + 1) as u16, (val / 256) as u8));
        }
    }

    /// Pushes a 16-bit value: SP moves down by two, then the value is stored
    /// little-endian at the new SP.
    pub fn push_stack(&mut self, reg: &mut Registers, val: u16)
        requires
            old(self).wf(),
        ensures
            final(self).wf(),
            *final(reg) == old(reg).set_spec(
                RegisterNames::SP,
                wrap16(old(reg).get_spec(RegisterNames::SP) - 2) as u16,
            ),
            exists|mid: Memory|
                mid.wf() && #[trigger] Memory::write_rel(
                    *old(self),
                    mid,
                    wrap16(old(reg).get_spec(RegisterNames::SP) - 2) as u16,
                    (val % 256) as u8,
                ) && Memory::write_rel(
                    mid,
                    *final(self),
                    wrap16(old(reg).get_spec(RegisterNames::SP) - 1) as u16,
                    (val / 256) as u8,
                ),
    {
        let low_byte: u8 = (val % 256) as u8;
        let high_byte: u8 = (val / 256) as u8;
        let sp = reg.get_register(&RegisterNames::SP);
        let down2: u16 = if sp >= 2 {
            sp - 2
        } else {
            (sp + 0xFFFE)
        };
        let down1: u16 = if sp >= 1 {
            sp - 1
        } else {
            0xFFFF
        };
        self.set(down2, low_byte);
        let ghost mid = *self;
        self.set(down1, high_byte);
        reg.set_register(&RegisterNames::SP, down2);
        proof {
            assert(mid.wf() && Memory::write_rel(
                *old(self),
                mid,
                wrap16(old(reg).get_spec(RegisterNames::SP) - 2) as u16,
                (val % 256) as u8,
            ) && Memory::write_rel(
                mid,
                *self,
                wrap16(old(reg).get_spec(RegisterNames::SP) - 1) as u16,
                (val / 256) as u8,
            ));
        }
    }

    /// Pops a 16-bit value: reads little-endian at SP, then SP moves up by
    /// two.
    pub fn pop_stack(&self, reg: &mut Registers) -> (r: u16)
        requires
            self.wf(),
        ensures
            *final(reg) == old(reg).set_spec(
                RegisterNames::SP,
                wrap16(old(reg).get_spec(RegisterNames::SP) + 2) as u16,
            ),
            r == self.read_spec(old(reg).get_spec(RegisterNames::SP)) + self.read_spec(
                wrap16(old(reg).get_spec(RegisterNames::SP) + 1) as u16,
            ) as int * 256,
    {
        let sp = reg.get_register(&RegisterNames::SP);
        let up1: u16 = if sp <= 0xFFFE {
            sp + 1
        } else {
            0
        };
        let up2: u16 = if sp <= 0xFFFD {
            sp + 2
        } else {
            (sp - 0xFFFE)
        };
        let high_byte = self.get(up1) as u16;
        let low_byte = self.get(sp) as u16;
        reg.set_register(&RegisterNames::SP, up2);
        low_byte + high_byte * 256
    }

    /// How a load of a save image relates the bus before to the bus after:
    /// only the external RAM banks change, and they become the image.
    pub open spec fn load_rel(pre: Memory, post: Memory, data: Seq<u8>) -> bool {
        &&& post.ram@ == pre.ram@
        &&& match (pre.cart, post.cart) {
            (Cartridge::RomOnly(p), Cartridge::RomOnly(q)) => q == p,
            (Cartridge::Mbc1(p), Cartridge::Mbc1(q)) => {
                &&& q.ram_banks@ == data
                &&& q.rom@ == p.rom@
                &&& q.bank_n == p.bank_n
                &&& q.ram_bank_n == p.ram_bank_n
                &&& q.ram_enabled == p.ram_enabled
                &&& q.memory_model_is_4_32 == p.memory_model_is_4_32
            },
            (Cartridge::Mbc3(p), Cartridge::Mbc3(q)) => {
                &&& q.ram_banks@ == data
                &&& q.rom@ == p.rom@
                &&& q.bank_n == p.bank_n
                &&& q.ram_bank_n == p.ram_bank_n
                &&& q.ram_enabled == p.ram_enabled
            },
            (Cartridge::Mbc5(p), Cartridge::Mbc5(q)) => {
                &&& q.ram_banks@ == data
                &&& q.rom@ == p.rom@
                &&& q.bank_n == p.bank_n
                &&& q.ram_bank_n == p.ram_bank_n
                &&& q.ram_enabled == p.ram_enabled
            },
            _ => false,
        }
    }

    /// Replaces the external RAM with a save image.
    pub fn load(&mut self, data: Vec<u8>)
        requires
            old(self).wf(),
            data@.len() == old(self).cart.save_len(),
        ensures
            final(self).wf(),
            Memory::load_rel(*old(self), *final(self), data@),
    {
        match &mut self.cart {
            Cartridge::RomOnly(_) => {},
            Cartridge::Mbc1(m) => {
                m.ram_banks = data;
            },
            Cartridge::Mbc3(m) => {
                m.ram_banks = data;
            },
            Cartridge::Mbc5(m) => {
                m.ram_banks = data;
            },
        }
    }

    /// Returns the save image: every external RAM bank in order, or nothing
    /// for a cartridge without battery-backed RAM.
    pub fn save(&self) -> (r: Vec<u8>)
        requires
            self.wf(),
        ensures
            r@ == self.cart.save_seq(),
    {
        match &self.cart {
            Cartridge::RomOnly(_) => Vec::new(),
            Cartridge::Mbc1(m) => clone_bytes(&m.ram_banks),
            Cartridge::Mbc3(m) => clone_bytes(&m.ram_banks),
            Cartridge::Mbc5(m) => clone_bytes(&m.ram_banks),
        }
    }
}

/// Copies a byte vector.
fn clone_bytes(v: &Vec<u8>) -> (r: Vec<u8>)
    ensures
        r@ == v@,
{
    let mut r: Vec<u8> = Vec::new();
    let mut i: usize = 0;
    while i < v.len()
        invariant
            i <= v@.len(),
            r@ == v@.subrange(0, i as int),
        decreases v@.len() - i,
    {
        r.push(v[i]);
        proof {
            assert(r@ =~= v@.subrange(0, i + 1));
        }
        i += 1;
    }
    proof {
        assert(r@ =~= v@);
    }
    r
}

/// Which controller the header byte selects, if any.
pub open spec fn header_kind_supported(header: u8) -> bool {
    header == 0x00 || header == 0x01 || header == 0x02 || header == 0x03 || header == 0x13
        || header == 0x1B
}

/// A freshly made bus: internal RAM and external RAM zeroed, ROM bank 1
/// (0 for MBC5), RAM bank 0, RAM disabled, and the controller the header
/// byte at 0x0147 names.
pub open spec fn fresh_memory(m: Memory, rom: Seq<u8>) -> bool {
    &&& m.ram@ == Seq::<u8>::new(0x10000, |i: int| 0u8)
    &&& match m.cart {
        Cartridge::RomOnly(c) => {
            &&& rom[0x147] == 0x00
            &&& c.rom@ == rom
            &&& c.ram@ == Seq::<u8>::new(0x2000, |i: int| 0u8)
        },
        Cartridge::Mbc1(c) => {
            &&& (rom[0x147] == 0x01 || rom[0x147] == 0x02 || rom[0x147] == 0x03)
            &&& c.rom@ == rom
            &&& c.ram_banks@ == Seq::<u8>::new(0x8000, |i: int| 0u8)
            &&& c.bank_n == 1
            &&& c.ram_bank_n == 0
            &&& !c.ram_enabled
            &&& !c.memory_model_is_4_32
        },
        Cartridge::Mbc3(c) => {
            &&& rom[0x147] == 0x13
            &&& c.rom@ == rom
            &&& c.ram_banks@ == Seq::<u8>::new(0x8000, |i: int| 0u8)
            &&& c.bank_n == 1
            &&& c.ram_bank_n == 0
            &&& !c.ram_enabled
        },
        Cartridge::Mbc5(c) => {
            &&& rom[0x147] == 0x1B
            &&& c.rom@ == rom
            &&& c.ram_banks@ == Seq::<u8>::new(0x20000, |i: int| 0u8)
            &&& c.bank_n == 1
            &&& c.ram_bank_n == 0
            &&& !c.ram_enabled
        },
    }
}

/// Builds the bus for a cartridge image; the header byte at 0x0147 selects
/// the bank controller.
pub fn make_memory(rom: Vec<u8>) -> (r: Result<Memory, MemoryError>)
    ensures
        r is Ok <==> rom@.len() > 0x147 && header_kind_supported(rom@[0x147]),
        r is Err ==> r == Result::<Memory, MemoryError>::Err(MemoryError::UnsupportedCartridge),
        r is Ok ==> r.unwrap().wf() && fresh_memory(r.unwrap(), rom@),
{
    if rom.len() <= 0x147 {
        return Err(MemoryError::UnsupportedCartridge);
    }
    let header = rom[0x147];
    let ram: Vec<u8> = make_zero_bytes(0x10000);
    if header == 0x00 {
        let ext: Vec<u8> = make_zero_bytes(0x2000);
        Ok(Memory { cart: Cartridge::RomOnly(ROMOnlyMemory { rom, ram: ext }), ram })
    } else if header == 0x01 || header == 0x02 || header == 0x03 {
        let banks: Vec<u8> = make_zero_bytes(0x8000);
        Ok(
            Memory {
                cart: Cartridge::Mbc1(
                    MBC1Memory {
                        rom,
                        ram_banks: banks,
                        bank_n: 1,
                        ram_bank_n: 0,
                        ram_enabled: false,
                        memory_model_is_4_32: false,
                    },
                ),
                ram,
            },
        )
    } else if header == 0x13 {
        let banks: Vec<u8> = make_zero_bytes(0x8000);
        Ok(
            Memory {
                cart: Cartridge::Mbc3(
                    MBC3Memory {
                        rom,
                        ram_banks: banks,
                        bank_n: 1,
                        ram_bank_n: 0,
                        ram_enabled: false,
                    },
                ),
                ram,
            },
        )
    } else if header == 0x1B {
        let banks: Vec<u8> = make_zero_bytes(0x20000);
        Ok(
            Memory {
                cart: Cartridge::Mbc5(
                    MBC5Memory {
                        rom,
                        ram_banks: banks,
                        bank_n: 1,
                        ram_bank_n: 0,
                        ram_enabled: false,
                    },
                ),
                ram,
            },
        )
    } else {
        Err(MemoryError::UnsupportedCartridge)
    }
}

/// A vector of `n` zero bytes.
pub(crate) fn make_zero_bytes(n: usize) -> (r: Vec<u8>)
    ensures
        r@ == Seq::<u8>::new(n as nat, |i: int| 0u8),
{
    let mut r: Vec<u8> = Vec::new();
    let mut i: usize = 0;
    while i < n
        invariant
            i <= n,
            r@ == Seq::<u8>::new(i as nat, |j: int| 0u8),
        decreases n - i,
    {
        r.push(0);
        proof {
            assert(r@ =~= Seq::<u8>::new((i + 1) as nat, |j: int| 0u8));
        }
        i += 1;
    }
    r
}

/// After a write to a data address (at or above 0x8000 once the echo region
/// is folded, and reaching external RAM only while that RAM is accessible),
/// a read of any address returns the byte just written where the folded
/// addresses meet, and what it returned before everywhere else.
pub proof fn lemma_read_after_write(pre: Memory, post: Memory, loc: u16, val: u8, x: u16)
    requires
        pre.wf(),
        Memory::write_rel(pre, post, loc, val),
        fold_echo(loc) >= 0x8000,
        0xA000 <= fold_echo(loc) < 0xC000 ==> pre.ram_accessible(),
    ensures
        post.read_spec(x) == if fold_echo(x) == fold_echo(loc) {
            val
        } else {
            pre.read_spec(x)
        },
{
    let a = fold_echo(loc);
    let b = fold_echo(x);
    if 0xA000 <= a < 0xC000 {
        match (pre.cart, post.cart) {
            (Cartridge::RomOnly(p), Cartridge::RomOnly(q)) => {
                assert(q.ram@ == p.ram@.update(a - 0xA000, val));
            },
            (Cartridge::Mbc1(p), Cartridge::Mbc1(q)) => {
                assert(q.ram_banks@ == p.ram_banks@.update(p.ram_index(a), val));
            },
            (Cartridge::Mbc3(p), Cartridge::Mbc3(q)) => {
                assert(q.ram_banks@ == p.ram_banks@.update(p.ram_index(a), val));
            },
            (Cartridge::Mbc5(p), Cartridge::Mbc5(q)) => {
                assert(q.ram_banks@ == p.ram_banks@.update(p.ram_index(a), val));
            },
            _ => {
                assert(false);
            },
        }
    }
}

/// The bus round trip: writing a byte anywhere in 0x8000..=0xFFFE (with
/// external RAM accessible if the address lands there) and reading the same
/// address back returns the byte written, echo mirroring included.
pub proof fn lemma_bus_round_trip(pre: Memory, post: Memory, a: u16, v: u8)
    requires
        pre.wf(),
        Memory::write_rel(pre, post, a, v),
        0x8000 <= a <= 0xFFFE,
        0xA000 <= fold_echo(a) < 0xC000 ==> pre.ram_accessible(),
    ensures
        post.read_spec(a) == v,
{
    lemma_read_after_write(pre, post, a, v, a);
}

} // verus!
