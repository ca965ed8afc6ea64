//! The SM83 interpreter and the orchestrator around it.
//!
//! One step reads the opcode at PC, performs the operation, advances PC and
//! returns the cycle count in T-states; the PPU and timer then advance by
//! exactly that count.  The interrupt arbiter runs at the start of every
//! step.

use vstd::prelude::*;
use crate::clock::Clock;
use crate::gpu::GPU;
use crate::memory::{
    Memory, MemoryError, fold_echo, lemma_read_after_write, make_memory, fresh_memory,
    header_kind_supported,
};
use crate::registers::{Registers, RegisterNames, wrap16, flags_byte, zero_of, cary_of};

verus! {

#[derive(Debug, Clone, Copy)]
pub enum KeyNames {
    A,
    B,
    START,
    SELECT,
    LEFT,
    RIGHT,
    UP,
    DOWN,
}

#[allow(non_camel_case_types)]
#[derive(Debug, Clone, Copy, PartialEq, Eq, Structural)]
pub enum InterruptState {
    ENABLED,
    DISABLED,
    ENABLED_NEXT_OP,
    HALT,
    HALT_NO_INTERRUPT,
}

/// The eight-bit ALU operations, and the four rotate operations: RLC and
/// RRC rotate circularly, RL and RR rotate through the carry flag.
#[derive(Debug, Clone, Copy, PartialEq, Eq, Structural)]
pub enum MathNames {
    ADD,
    ADDC,
    SUB,
    SUBC,
    AND,
    XOR,
    OR,
    CP,
    RR,
    RRC,
    RL,
    RLC,
}

/// The result byte of one eight-bit ALU operation; `cin` is the carry flag
/// going in, used by ADDC, SUBC, RL and RR.
pub open spec fn alu8_res_spec(op: MathNames, a: u8, b: u8, cin: bool) -> u8 {
    let c = if cin {
        1int
    } else {
        0int
    };
    match op {
        MathNames::ADD => ((a + b) % 256) as u8,
        MathNames::ADDC => ((a + b + c) % 256) as u8,
        MathNames::SUB => ((a - b + 256) % 256) as u8,
        MathNames::SUBC => ((a - b - c + 512) % 256) as u8,
        MathNames::AND => a & b,
        MathNames::XOR => a ^ b,
        MathNames::OR => a | b,
        MathNames::CP => a,
        MathNames::RLC => (a % 128 * 2 + a / 128) as u8,
        MathNames::RL => (a % 128 * 2 + c) as u8,
        MathNames::RRC => (a / 2 + a % 2 * 128) as u8,
        MathNames::RR => (a / 2 + c * 128) as u8,
    }
}

/// The zero flag the operation leaves.
pub open spec fn alu8_z_spec(op: MathNames, a: u8, b: u8, cin: bool) -> bool {
    match op {
        MathNames::CP => a == b,
        _ => alu8_res_spec(op, a, b, cin) == 0,
    }
}

/// The subtract flag the operation leaves.
pub open spec fn alu8_n_spec(op: MathNames) -> bool {
    match op {
        MathNames::SUB => true,
        MathNames::SUBC => true,
        MathNames::CP => true,
        _ => false,
    }
}

/// The half-carry flag the operation leaves.
pub open spec fn alu8_h_spec(op: MathNames, a: u8, b: u8, cin: bool) -> bool {
    let c = if cin {
        1int
    } else {
        0int
    };
    match op {
        MathNames::ADD => a % 16 + b % 16 > 15,
        MathNames::ADDC => a % 16 + b % 16 + c > 15,
        MathNames::SUB => a % 16 < b % 16,
        MathNames::SUBC => a % 16 < b % 16 + c,
        MathNames::CP => a % 16 < b % 16,
        MathNames::AND => true,
        _ => false,
    }
}

/// The carry flag the operation leaves.
pub open spec fn alu8_c_spec(op: MathNames, a: u8, b: u8, cin: bool) -> bool {
    let c = if cin {
        1int
    } else {
        0int
    };
    match op {
        MathNames::ADD => a + b > 255,
        MathNames::ADDC => a + b + c > 255,
        MathNames::SUB => a < b,
        MathNames::SUBC => a < b + c,
        MathNames::CP => a < b,
        MathNames::AND => false,
        MathNames::XOR => false,
        MathNames::OR => false,
        MathNames::RLC => a >= 128,
        MathNames::RL => a >= 128,
        MathNames::RRC => a % 2 == 1,
        MathNames::RR => a % 2 == 1,
    }
}

/// Performs one eight-bit ALU operation, returning the result byte and the
/// four flags (zero, subtract, half-carry, carry).
#[verifier::rlimit(100)]
#[verifier::spinoff_prover]
pub fn alu8(op: MathNames, a: u8, b: u8, cin: bool) -> (r: (u8, bool, bool, bool, bool))
    ensures
        r.0 == alu8_res_spec(op, a, b, cin),
        r.1 == alu8_z_spec(op, a, b, cin),
        r.2 == alu8_n_spec(op),
        r.3 == alu8_h_spec(op, a, b, cin),
        r.4 == alu8_c_spec(op, a, b, cin),
{
    let c: u16 = if cin {
        1
    } else {
        0
    };
    match op {
        MathNames::ADD => {
            let t: u16 = a as u16 + b as u16;
            let res: u8 = (t % 256) as u8;
            (res, res == 0, false, a % 16 + b % 16 > 15, t > 255)
        },
        MathNames::ADDC => {
            let t: u16 = a as u16 + b as u16 + c;
            let res: u8 = (t % 256) as u8;
            (res, res == 0, false, a as u16 % 16 + b as u16 % 16 + c > 15, t > 255)
        },
        MathNames::SUB => {
            let t: u16 = (a as u16 + 256) - b as u16;
            let res: u8 = (t % 256) as u8;
            (res, res == 0, true, a % 16 < b % 16, a < b)
        },
        MathNames::SUBC => {
            let t: u16 = (a as u16 + 512) - b as u16 - c;
            let res: u8 = (t % 256) as u8;
            let hb: u16 = (b % 16) as u16 + c;
            let cb: u16 = b as u16 + c;
            (res, res == 0, true, ((a % 16) as u16) < hb, (a as u16) < cb)
        },
        MathNames::AND => {
            let res: u8 = a & b;
            (res, res == 0, false, true, false)
        },
        MathNames::XOR => {
            let res: u8 = a ^ b;
            (res, res == 0, false, false, false)
        },
        MathNames::OR => {
            let res: u8 = a | b;
            (res, res == 0, false, false, false)
        },
        MathNames::CP => {
            let t: u16 = (a as u16 + 256) - b as u16;
            let res: u8 = (t % 256) as u8;
            (a, res == 0, true, a % 16 < b % 16, a < b)
        },
        MathNames::RLC => {
            let res: u8 = a % 128 * 2 + a / 128;
            (res, res == 0, false, false, a >= 128)
        },
        MathNames::RL => {
            let res: u8 = a % 128 * 2 + (c as u8);
            (res, res == 0, false, false, a >= 128)
        },
        MathNames::RRC => {
            let res: u8 = a / 2 + a % 2 * 128;
            (res, res == 0, false, false, a % 2 == 1)
        },
        MathNames::RR => {
            let res: u8 = a / 2 + (c as u8) * 128;
            (res, res == 0, false, false, a % 2 == 1)
        },
    }
}

/// The accumulator after a decimal adjust, and the carry it leaves.  After
/// an addition (`add_flag`) 0x60 and 0x06 are added where the carries or
/// the digit ranges ask for it; after a subtraction they are subtracted
/// where the carries were set.
pub open spec fn daa_res_spec(a: u8, initial_carry: bool, initial_half_carry: bool, add_flag: bool)
    -> u8 {
    if add_flag {
        ((a + if initial_carry || a > 0x99 {
            0x60int
        } else {
            0int
        } + if initial_half_carry || a % 16 > 9 {
            0x06int
        } else {
            0int
        }) % 256) as u8
    } else {
        ((a + 0x100 - (if initial_carry {
            0x60int
        } else {
            0int
        }) - (if initial_half_carry {
            0x06int
        } else {
            0int
        })) % 256) as u8
    }
}

pub open spec fn daa_carry_spec(a: u8, initial_carry: bool, add_flag: bool) -> bool {
    if add_flag {
        initial_carry || a > 0x99
    } else {
        initial_carry
    }
}

#[derive(Debug)]
pub struct ButtonState {
    pub row1: u8,
    pub row2: u8,
}

/// The joypad bit for a key within its row; RIGHT/LEFT/UP/DOWN sit in row
/// 1, A/B/SELECT/START in row 2.
pub open spec fn key_in_row1(key: KeyNames) -> bool {
    match key {
        KeyNames::RIGHT => true,
        KeyNames::LEFT => true,
        KeyNames::UP => true,
        KeyNames::DOWN => true,
        _ => false,
    }
}

pub open spec fn key_mask(key: KeyNames) -> u8 {
    match key {
        KeyNames::RIGHT => 0x01,
        KeyNames::LEFT => 0x02,
        KeyNames::UP => 0x04,
        KeyNames::DOWN => 0x08,
        KeyNames::A => 0x01,
        KeyNames::B => 0x02,
        KeyNames::SELECT => 0x04,
        KeyNames::START => 0x08,
    }
}

/// The byte the joypad register shows for a row selection: bits 4..5 of
/// the old value pick the row, and the row's low nibble is exposed with
/// the selection bits kept high.
pub open spec fn joypad_value_spec(old_val: u8, row1: u8, row2: u8) -> u8 {
    if old_val / 16 % 4 == 1 {
        (row2 % 16 + 0x50) as u8
    } else if old_val / 16 % 4 == 2 {
        (row1 % 16 + 0x60) as u8
    } else {
        0xFF
    }
}

impl ButtonState {
    pub fn create() -> (r: ButtonState)
        ensures
            r == (ButtonState { row1: 0xFu8, row2: 0xFu8 }),
    {
        ButtonState { row1: 0xF, row2: 0xF }
    }

    /// Marks a key released (its bit goes high).  Releases raise no
    /// interrupt: the joypad line fires on high-to-low transitions only.
    pub fn setKeyUp(&mut self, key: KeyNames, memory: &mut Memory)
        requires
            old(memory).wf(),
        ensures
            final(memory).wf(),
            *final(memory) == *old(memory),
            final(self).row1 == if key_in_row1(key) {
                old(self).row1 | key_mask(key)
            } else {
                old(self).row1
            },
            final(self).row2 == if !key_in_row1(key) {
                old(self).row2 | key_mask(key)
            } else {
                old(self).row2
            },
    {
        match key {
            KeyNames::RIGHT => self.row1 = self.row1 | 0x01,
            KeyNames::LEFT => self.row1 = self.row1 | 0x02,
            KeyNames::UP => self.row1 = self.row1 | 0x04,
            KeyNames::DOWN => self.row1 = self.row1 | 0x08,
            KeyNames::A => self.row2 = self.row2 | 0x01,
            KeyNames::B => self.row2 = self.row2 | 0x02,
            KeyNames::SELECT => self.row2 = self.row2 | 0x04,
            KeyNames::START => self.row2 = self.row2 | 0x08,
        }
    }

    /// Marks a key pressed (its bit goes low, the high nibble of the row is
    /// cleared too) and raises the joypad interrupt.
    pub fn setKeyDown(&mut self, key: KeyNames, memory: &mut Memory)
        requires
            old(memory).wf(),
        ensures
            final(memory).wf(),
            Memory::write_rel(
                *old(memory),
                *final(memory),
                0xFF0F,
                old(memory).read_spec(0xFF0F) | (1u8 << 4u8),
            ),
            final(self).row1 == if key_in_row1(key) {
                old(self).row1 & (0x0F ^ key_mask(key))
            } else {
                old(self).row1
            },
            final(self).row2 == if !key_in_row1(key) {
                old(self).row2 & (0x0F ^ key_mask(key))
            } else {
                old(self).row2
            },
    {
        match key {
            KeyNames::RIGHT => self.row1 = self.row1 & (0x0F ^ 0x01),
            KeyNames::LEFT => self.row1 = self.row1 & (0x0F ^ 0x02),
            KeyNames::UP => self.row1 = self.row1 & (0x0F ^ 0x04),
            KeyNames::DOWN => self.row1 = self.row1 & (0x0F ^ 0x08),
            KeyNames::A => self.row2 = self.row2 & (0x0F ^ 0x01),
            KeyNames::B => self.row2 = self.row2 & (0x0F ^ 0x02),
            KeyNames::SELECT => self.row2 = self.row2 & (0x0F ^ 0x04),
            KeyNames::START => self.row2 = self.row2 & (0x0F ^ 0x08),
        }
        memory.setInterruptFlag(4);
    }

    /// Refreshes the joypad register from the stored rows, honoring the row
    /// selection bits the program wrote.
    pub fn updateMemory(&mut self, memory: &mut Memory)
        requires
            old(memory).wf(),
        ensures
            final(memory).wf(),
            *final(self) == *old(self),
            Memory::write_rel(
                *old(memory),
                *final(memory),
                0xFF00,
                joypad_value_spec(old(memory).read_spec(0xFF00), old(self).row1, old(self).row2),
            ),
    {
        let mem = memory.get(0xFF00);
        let sel: u8 = mem / 16 % 4;
        if sel == 1 {
            memory.set(0xFF00, self.row2 % 16 + 0x50);
        } else if sel == 2 {
            memory.set(0xFF00, self.row1 % 16 + 0x60);
        } else {
            memory.set(0xFF00, 0xFF);
        }
    }
}

pub struct Engine {
    pub memory: Memory,
    pub registers: Registers,
    pub enable_interrupt: InterruptState,
    pub gpu: GPU,
    pub clock: Clock,
    pub buttons: ButtonState,
}

/// Adds two 16-bit values, wrapping.
pub fn wrap_add16(a: u16, b: u16) -> (r: u16)
    ensures
        r == wrap16(a + b),
{
    let t: u32 = a as u32 + b as u32;
    if t <= 0xFFFF {
        t as u16
    } else {
        (t - 0x10000) as u16
    }
}

impl Engine {
    pub open spec fn wf(self) -> bool {
        &&& self.memory.wf()
        &&& self.gpu.wf()
        &&& self.clock.wf()
    }

    /// One immediate byte.
    pub fn get_d8(&self, start: u16) -> (r: u8)
        requires
            self.wf(),
        ensures
            r == self.memory.read_spec(start),
    {
        self.memory.get(start)
    }

    /// A little-endian immediate 16-bit value.
    pub fn get_d16(&self, start: u16) -> (r: u16)
        requires
            self.wf(),
        ensures
            r == self.memory.read_spec(start) + self.memory.read_spec(wrap16(start + 1) as u16)
                as int * 256,
    {
        let lo = self.memory.get(start) as u16;
        let hi = self.memory.get(wrap_add16(start, 1)) as u16;
        lo + hi * 256
    }

    /// A signed immediate byte.
    pub fn get_r8(&self, start: u16) -> (r: i8)
        requires
            self.wf(),
        ensures
            r as int == if self.memory.read_spec(start) < 128 {
                self.memory.read_spec(start) as int
            } else {
                self.memory.read_spec(start) - 256
            },
    {
        let b = self.memory.get(start);
        if b < 128 {
            b as i8
        } else {
            ((b as i32) - 256) as i8
        }
    }

    /// A little-endian immediate address.
    pub fn get_a16(&self, start: u16) -> (r: u16)
        requires
            self.wf(),
        ensures
            r == self.memory.read_spec(start) + self.memory.read_spec(wrap16(start + 1) as u16)
                as int * 256,
    {
        self.get_d16(start)
    }

    /// The register's value, or the byte at the address in HL when the
    /// operand row says (HL).
    pub fn get_register_or_hl(&mut self, register: &RegisterNames) -> (r: u16)
        requires
            old(self).wf(),
        ensures
            *final(self) == *old(self),
            r == if *register == RegisterNames::HL {
                old(self).memory.read_spec(old(self).registers.get_spec(RegisterNames::HL)) as u16
            } else {
                old(self).registers.get_spec(*register)
            },
    {
        let reg_val = self.registers.get_register(register);
        match register {
            RegisterNames::HL => self.memory.get(reg_val) as u16,
            _ => reg_val,
        }
    }

    /// Applies an ALU operation to A.
    pub fn math_to_a(&mut self, math_type: MathNames, other_value: u16)
        requires
            old(self).wf(),
            other_value < 256,
        ensures
            final(self).wf(),
            Engine::math_rel(*old(self), *final(self), RegisterNames::A, math_type, other_value),
    {
        self.math_to_reg(&RegisterNames::A, math_type, other_value);
    }

    /// Applies an ALU operation to a register.
    pub fn math_to_reg(&mut self, register: &RegisterNames, math_type: MathNames, other_value: u16)
        requires
            old(self).wf(),
            other_value < 256,
            Engine::single_or_hl(*register),
        ensures
            final(self).wf(),
            Engine::math_rel(*old(self), *final(self), *register, math_type, other_value),
    {
        self.math_to_reg_reshl(register, math_type, other_value, true);
    }

    /// An operand the eight-bit ALU can write back: a single register, or
    /// (HL).
    pub open spec fn single_or_hl(register: RegisterNames) -> bool {
        match register {
            RegisterNames::A => true,
            RegisterNames::B => true,
            RegisterNames::C => true,
            RegisterNames::D => true,
            RegisterNames::E => true,
            RegisterNames::H => true,
            RegisterNames::L => true,
            RegisterNames::HL => true,
            _ => false,
        }
    }

    /// How one eight-bit ALU application relates the machine before to the
    /// machine after: the operand holds the result, F holds the four flags,
    /// and nothing else moves (PC belongs to the caller).
    pub open spec fn math_rel(
        pre: Engine,
        post: Engine,
        register: RegisterNames,
        op: MathNames,
        other_value: u16,
    ) -> bool {
        let cin = cary_of(pre.registers.f);
        let hl_addr = pre.registers.get_spec(RegisterNames::HL);
        let a: u8 = if register == RegisterNames::HL {
            pre.memory.read_spec(hl_addr)
        } else {
            (pre.registers.get_spec(register) % 256) as u8
        };
        let b: u8 = (other_value % 256) as u8;
        let res = alu8_res_spec(op, a, b, cin);
        let newf = flags_byte(
            alu8_z_spec(op, a, b, cin),
            alu8_n_spec(op),
            alu8_h_spec(op, a, b, cin),
            alu8_c_spec(op, a, b, cin),
        );
        &&& post.enable_interrupt == pre.enable_interrupt
        &&& post.gpu == pre.gpu
        &&& post.clock == pre.clock
        &&& post.buttons == pre.buttons
        &&& if register == RegisterNames::HL {
            &&& Memory::write_rel(pre.memory, post.memory, hl_addr, res)
            &&& post.registers == (Registers { f: newf, ..pre.registers })
        } else {
            &&& post.memory == pre.memory
            &&& post.registers == (Registers {
                f: newf,
                ..pre.registers.set_spec(register, res as u16)
            })
        }
    }

    /// Applies an ALU operation to a register or to the byte at (HL); the
    /// four flags land in F.  `resolve_hl` says whether HL means the byte
    /// it addresses.
    pub fn math_to_reg_reshl(
        &mut self,
        register: &RegisterNames,
        math_type: MathNames,
        other_value: u16,
        resolve_hl: bool,
    )
        requires
            old(self).wf(),
            other_value < 256,
            Engine::single_or_hl(*register),
            *register == RegisterNames::HL ==> resolve_hl,
        ensures
            final(self).wf(),
            Engine::math_rel(*old(self), *final(self), *register, math_type, other_value),
    {
        let cin = self.registers.is_cary_flag();
        let is_hl = match register {
            RegisterNames::HL => true,
            _ => false,
        };
        let reg_val = self.registers.get_register(register);
        let a: u8 = if is_hl {
            self.memory.get(reg_val)
        } else {
            (reg_val % 256) as u8
        };
        let b: u8 = (other_value % 256) as u8;
        let (res, z, n, h, c) = alu8(math_type, a, b, cin);
        if is_hl {
            self.memory.set(reg_val, res);
        } else {
            self.registers.set_register(register, res as u16);
        }
        self.registers.set_flags(z, n, h, c);
    }

    /// Decimal-adjusts an addition or subtraction result.
    pub fn daa(a: u16, initial_carry: bool, initial_half_carry: bool, add_flag: bool) -> (r: (
        u16,
        bool,
    ))
        requires
            a < 256,
        ensures
            r.0 == daa_res_spec(a as u8, initial_carry, initial_half_carry, add_flag) as u16,
            r.1 == daa_carry_spec(a as u8, initial_carry, add_flag),
    {
        let mut new_a: u32 = a as u32;
        let mut new_c = false;
        if add_flag {
            if initial_carry || a > 0x99 {
                new_a = new_a + 0x60;
                new_c = true;
            }
            if initial_half_carry || a % 16 > 9 {
                new_a = new_a + 0x6;
            }
        } else {
            new_a = new_a + 0x100;
            if initial_carry {
                new_a = new_a - 0x60;
                new_c = true;
            }
            if initial_half_carry {
                new_a = new_a - 0x06;
            }
        }
        ((new_a % 256) as u16, new_c)
    }
}

/// How many bytes the instruction occupies (the CB prefix counts its
/// operation byte; unrecognized opcodes are skipped as one byte).
pub open spec fn instr_len(op: u8) -> int {
    if op == 0x01 || op == 0x11 || op == 0x21 || op == 0x31 || op == 0x08 || op == 0xC2 || op
        == 0xC3 || op == 0xCA || op == 0xD2 || op == 0xDA || op == 0xC4 || op == 0xCC || op == 0xCD
        || op == 0xD4 || op == 0xDC || op == 0xEA || op == 0xFA {
        3
    } else if op == 0x06 || op == 0x0E || op == 0x16 || op == 0x1E || op == 0x26 || op == 0x2E
        || op == 0x36 || op == 0x3E || op == 0x10 || op == 0x18 || op == 0x20 || op == 0x28 || op
        == 0x30 || op == 0x38 || op == 0xC6 || op == 0xCE || op == 0xD6 || op == 0xDE || op == 0xE6
        || op == 0xEE || op == 0xF6 || op == 0xFE || op == 0xE0 || op == 0xF0 || op == 0xE8 || op
        == 0xF8 || op == 0xCB {
        2
    } else {
        1
    }
}

/// Opcodes that always leave PC somewhere other than the next instruction.
pub open spec fn always_jumps(op: u8) -> bool {
    op == 0x18 || op == 0xC3 || op == 0xC9 || op == 0xCD || op == 0xD9 || op == 0xE9 || op == 0xC7
        || op == 0xCF || op == 0xD7 || op == 0xDF || op == 0xE7 || op == 0xEF || op == 0xF7 || op
        == 0xFF
}

/// Whether a conditional jump, call or return takes its branch under the
/// given flag byte.
pub open spec fn cond_taken(op: u8, f: u8) -> bool {
    if op == 0x28 || op == 0xC8 || op == 0xCA || op == 0xCC {
        zero_of(f)
    } else if op == 0x20 || op == 0xC0 || op == 0xC2 || op == 0xC4 {
        !zero_of(f)
    } else if op == 0x38 || op == 0xD8 || op == 0xDA || op == 0xDC {
        cary_of(f)
    } else if op == 0x30 || op == 0xD0 || op == 0xD2 || op == 0xD4 {
        !cary_of(f)
    } else {
        false
    }
}

/// Whether the instruction simply advances PC by its length: it neither
/// always jumps nor takes a branch under the given flags.
pub open spec fn plain_advance(op: u8, f: u8) -> bool {
    !always_jumps(op) && !cond_taken(op, f)
}

/// The documented cycle cost of one instruction in T-states, given the
/// flag byte (taken conditionals cost more than untaken ones) and, for the
/// CB prefix, the operation byte that follows.
pub open spec fn step_cycles(op: u8, cbop: u8, f: u8) -> int {
    if op == 0x00 {
        4
    } else if op == 0x01 || op == 0x11 || op == 0x21 || op == 0x31 {
        12
    } else if op == 0x03 || op == 0x0B || op == 0x13 || op == 0x1B || op == 0x23 || op == 0x2B
        || op == 0x33 || op == 0x3B {
        8
    } else if op == 0x34 || op == 0x35 {
        12
    } else if op == 0x04 || op == 0x05 || op == 0x0C || op == 0x0D || op == 0x14 || op == 0x15
        || op == 0x1C || op == 0x1D || op == 0x24 || op == 0x25 || op == 0x2C || op == 0x2D || op
        == 0x3C || op == 0x3D {
        4
    } else if op == 0x27 || op == 0x37 || op == 0x2F || op == 0x3F || op == 0x07 || op == 0x17
        || op == 0x0F || op == 0x1F {
        4
    } else if op == 0x02 || op == 0x12 || op == 0x22 || op == 0x32 || op == 0x0A || op == 0x1A
        || op == 0x2A || op == 0x3A {
        8
    } else if op == 0x08 {
        20
    } else if op == 0x09 || op == 0x19 || op == 0x29 || op == 0x39 {
        8
    } else if op == 0x10 {
        8
    } else if op == 0x36 {
        12
    } else if op == 0x06 || op == 0x16 || op == 0x26 || op == 0x0E || op == 0x1E || op == 0x2E
        || op == 0x3E {
        8
    } else if op == 0x18 || op == 0x20 || op == 0x28 || op == 0x30 || op == 0x38 {
        if op == 0x18 || cond_taken(op, f) {
            12
        } else {
            8
        }
    } else if op == 0x76 {
        4
    } else if 0x40 <= op < 0x80 {
        if op % 8 == 6 || 0x70 <= op < 0x78 {
            8
        } else {
            4
        }
    } else if 0x80 <= op < 0xC0 {
        if op % 8 == 6 {
            8
        } else {
            4
        }
    } else if op == 0xC9 || op == 0xD9 {
        16
    } else if op == 0xC0 || op == 0xC8 || op == 0xD0 || op == 0xD8 {
        if cond_taken(op, f) {
            20
        } else {
            8
        }
    } else if op == 0xC1 || op == 0xD1 || op == 0xE1 || op == 0xF1 {
        12
    } else if op == 0xC5 || op == 0xD5 || op == 0xE5 || op == 0xF5 {
        16
    } else if op == 0xC2 || op == 0xCA || op == 0xD2 || op == 0xDA {
        if cond_taken(op, f) {
            16
        } else {
            12
        }
    } else if op == 0xC3 {
        16
    } else if op == 0xE9 {
        4
    } else if op == 0xCB {
        cb_cycles(cbop) as int
    } else if op == 0xCD {
        24
    } else if op == 0xC4 || op == 0xCC || op == 0xD4 || op == 0xDC {
        if cond_taken(op, f) {
            24
        } else {
            12
        }
    } else if op == 0xC6 || op == 0xCE || op == 0xD6 || op == 0xDE || op == 0xE6 || op == 0xEE
        || op == 0xF6 || op == 0xFE {
        8
    } else if is_rst(op) {
        16
    } else if op == 0xE0 || op == 0xF0 {
        12
    } else if op == 0xE2 || op == 0xF2 {
        8
    } else if op == 0xE8 {
        16
    } else if op == 0xF8 {
        12
    } else if op == 0xF9 {
        8
    } else if op == 0xEA || op == 0xFA {
        16
    } else if op == 0xF3 || op == 0xFB {
        4
    } else {
        16
    }
}

pub open spec fn is_rst(op: u8) -> bool {
    op == 0xC7 || op == 0xCF || op == 0xD7 || op == 0xDF || op == 0xE7 || op == 0xEF || op == 0xF7
        || op == 0xFF
}

/// The ALU-with-immediate family 0xC6..0xFE.
pub open spec fn is_alu_d8(op: u8) -> bool {
    op == 0xC6 || op == 0xCE || op == 0xD6 || op == 0xDE || op == 0xE6 || op == 0xEE || op == 0xF6
        || op == 0xFE
}

/// Which ALU operation an immediate-ALU opcode performs.
pub open spec fn alu_d8_op(op: u8) -> MathNames {
    if op == 0xC6 {
        MathNames::ADD
    } else if op == 0xCE {
        MathNames::ADDC
    } else if op == 0xD6 {
        MathNames::SUB
    } else if op == 0xDE {
        MathNames::SUBC
    } else if op == 0xE6 {
        MathNames::AND
    } else if op == 0xEE {
        MathNames::XOR
    } else if op == 0xF6 {
        MathNames::OR
    } else {
        MathNames::CP
    }
}

/// The register-operand ALU family 0x80..0xBF.
pub open spec fn is_alu_reg(op: u8) -> bool {
    0x80 <= op < 0xC0
}

pub open spec fn alu_reg_op(op: u8) -> MathNames {
    if op < 0x88 {
        MathNames::ADD
    } else if op < 0x90 {
        MathNames::ADDC
    } else if op < 0x98 {
        MathNames::SUB
    } else if op < 0xA0 {
        MathNames::SUBC
    } else if op < 0xA8 {
        MathNames::AND
    } else if op < 0xB0 {
        MathNames::XOR
    } else if op < 0xB8 {
        MathNames::OR
    } else {
        MathNames::CP
    }
}

/// The second operand the opcode's low three bits select: a register, or
/// the byte at (HL).
pub open spec fn alu_operand(e: Engine, op: u8) -> u8 {
    let k = op % 8;
    if k == 0 {
        e.registers.b
    } else if k == 1 {
        e.registers.c
    } else if k == 2 {
        e.registers.d
    } else if k == 3 {
        e.registers.e
    } else if k == 4 {
        e.registers.h
    } else if k == 5 {
        e.registers.l
    } else if k == 6 {
        e.memory.read_spec(e.registers.get_spec(RegisterNames::HL))
    } else {
        e.registers.a
    }
}

/// The four accumulator rotates, which always clear the zero flag.
pub open spec fn is_rot_a(op: u8) -> bool {
    op == 0x07 || op == 0x17 || op == 0x0F || op == 0x1F
}

pub open spec fn rot_a_op(op: u8) -> MathNames {
    if op == 0x07 {
        MathNames::RLC
    } else if op == 0x17 {
        MathNames::RL
    } else if op == 0x0F {
        MathNames::RRC
    } else {
        MathNames::RR
    }
}

/// The load-immediate family 0x06..0x3E (without 0x36, which stores to
/// (HL)).
pub open spec fn is_ld_d8(op: u8) -> bool {
    op == 0x06 || op == 0x16 || op == 0x26 || op == 0x0E || op == 0x1E || op == 0x2E || op == 0x3E
}

pub open spec fn ld_d8_target(op: u8) -> RegisterNames {
    if op == 0x06 {
        RegisterNames::B
    } else if op == 0x16 {
        RegisterNames::D
    } else if op == 0x26 {
        RegisterNames::H
    } else if op == 0x0E {
        RegisterNames::C
    } else if op == 0x1E {
        RegisterNames::E
    } else if op == 0x2E {
        RegisterNames::L
    } else {
        RegisterNames::A
    }
}

/// What the per-step housekeeping may touch in memory before the opcode
/// runs: the joypad register is refreshed, a requested OAM DMA is
/// performed and its register cleared; every other address reads as
/// before, and the cartridge state is untouched.
pub open spec fn prelude_mem_rel(pre: Memory, post: Memory) -> bool {
    &&& post.cart == pre.cart
    &&& post.read_spec(0xFF46) == 0
    &&& forall|x: u16|
        fold_echo(x) != 0xFF00 && fold_echo(x) != 0xFF46 && !(0xFE00 <= fold_echo(x) < 0xFEA0)
            ==> #[trigger] post.read_spec(x) == pre.read_spec(x)
}

/// Whether this step reaches the opcode decoder: interrupts disabled, the
/// delayed enable pending, or enabled with no serviceable interrupt.
pub open spec fn reaches_decode(pre: Engine) -> bool {
    let pending = pre.memory.read_spec(0xFF0F) & pre.memory.read_spec(0xFFFF);
    ||| pre.enable_interrupt == InterruptState::DISABLED
    ||| pre.enable_interrupt == InterruptState::ENABLED_NEXT_OP
    ||| (pre.enable_interrupt == InterruptState::ENABLED && pending & 0x1F == 0)
}

/// The interrupt master state the decoder sees: the delayed enable has
/// fired by then.
pub open spec fn ime_at_decode(pre: Engine) -> InterruptState {
    if pre.enable_interrupt == InterruptState::ENABLED_NEXT_OP {
        InterruptState::ENABLED
    } else {
        pre.enable_interrupt
    }
}

/// How one interpreter step relates the machine before to the machine
/// after, with the returned cycle count `c`.  The opcode-specific clauses
/// hold where the opcode is pinned down: interrupts disabled and the
/// instruction fetched from below the OAM region, which the housekeeping
/// of `prelude_mem_rel` may rewrite first.
pub open spec fn cpu_step_rel(pre: Engine, post: Engine, c: u32) -> bool {
    let pc = pre.registers.pc;
    let op = pre.memory.read_spec(pc);
    let d8 = pre.memory.read_spec(wrap16(pc + 1) as u16);
    let f0 = pre.registers.f;
    let a0 = pre.registers.a;
    let cin = cary_of(f0);
    let sp = pre.registers.sp;
    let s2 = wrap16(sp - 2) as u16;
    let s1 = wrap16(sp - 1) as u16;
    let if0 = pre.memory.read_spec(0xFF0F);
    let pending = if0 & pre.memory.read_spec(0xFFFF);
    let stack_ok = s2 >= 0x8000 && s1 >= 0x8000 && (0xA000 <= fold_echo(s2) < 0xC000
        ==> pre.memory.ram_accessible()) && (0xA000 <= fold_echo(s1) < 0xC000
        ==> pre.memory.ram_accessible());
    let fetch_ok = pc + 2 < 0xFE00;
    let dis = pre.enable_interrupt == InterruptState::DISABLED;
    &&& post.wf()
    &&& 4 <= c <= 24
    // A pending, enabled interrupt is serviced: its IF bit cleared, PC
    // pushed, the vector of the lowest pending bit entered, 12 cycles.
    &&& (((pre.enable_interrupt == InterruptState::ENABLED || pre.enable_interrupt
        == InterruptState::HALT) && pending & 0x1F != 0) ==> {
        let b = lowest_pending(pending);
        &&& c == 12
        &&& post.enable_interrupt == InterruptState::DISABLED
        &&& post.registers == (Registers { pc: (0x40 + 8 * b) as u16, sp: s2, ..pre.registers })
        &&& post.memory.read_spec(0xFF0F) == if0 & if_clear_mask(b)
        &&& ((stack_ok && fold_echo(s2) != 0xFF0F && fold_echo(s1) != 0xFF0F) ==> {
            &&& post.memory.read_spec(s2) == pc % 256
            &&& post.memory.read_spec(s1) == pc / 256
        })
    })
    // A parked CPU idles for 4 cycles and changes nothing but the
    // housekeeping.
    &&& (((pre.enable_interrupt == InterruptState::HALT && pending & 0x1F == 0) || (
    pre.enable_interrupt == InterruptState::HALT_NO_INTERRUPT && pending == 0)) ==> {
        &&& c == 4
        &&& post.registers == pre.registers
        &&& post.enable_interrupt == pre.enable_interrupt
        &&& prelude_mem_rel(pre.memory, post.memory)
    })
    // A halt without interrupts wakes on any pending line: 20 cycles, no
    // service, no redirect.
    &&& ((pre.enable_interrupt == InterruptState::HALT_NO_INTERRUPT && pending != 0) ==> {
        &&& c == 20
        &&& post.registers == pre.registers
        &&& post.enable_interrupt == InterruptState::DISABLED
        &&& prelude_mem_rel(pre.memory, post.memory)
    })
    // The interrupt master state after a decoded instruction.
    &&& ((reaches_decode(pre) && fetch_ok) ==> post.enable_interrupt == ime_after(
        op,
        ime_at_decode(pre),
    ))
    // PC advance by instruction length.
    &&& ((dis && fetch_ok && plain_advance(op, f0)) ==> post.registers.pc == pc + instr_len(op))
    // The documented cycle count.
    &&& ((dis && fetch_ok) ==> c == step_cycles(op, d8, f0))
    // The immediate-ALU family.
    &&& ((dis && fetch_ok && is_alu_d8(op)) ==> {
        let aop = alu_d8_op(op);
        &&& post.registers.a == alu8_res_spec(aop, a0, d8, cin)
        &&& post.registers.f == flags_byte(
            alu8_z_spec(aop, a0, d8, cin),
            alu8_n_spec(aop),
            alu8_h_spec(aop, a0, d8, cin),
            alu8_c_spec(aop, a0, d8, cin),
        )
    })
    // The load-immediate family.
    &&& ((dis && fetch_ok && is_ld_d8(op)) ==> post.registers == (Registers {
        pc: (pc + 2) as u16,
        ..pre.registers.set_spec(ld_d8_target(op), d8 as u16)
    }))
    // The register-operand ALU family (register operands; the (HL) operand
    // depends on memory the housekeeping may have rewritten).
    &&& ((dis && fetch_ok && is_alu_reg(op) && op % 8 != 6) ==> {
        let b = alu_operand(pre, op);
        let aop = alu_reg_op(op);
        &&& post.registers.a == alu8_res_spec(aop, a0, b, cin)
        &&& post.registers.f == flags_byte(
            alu8_z_spec(aop, a0, b, cin),
            alu8_n_spec(aop),
            alu8_h_spec(aop, a0, b, cin),
            alu8_c_spec(aop, a0, b, cin),
        )
    })
    // The accumulator rotates.
    &&& ((dis && fetch_ok && is_rot_a(op)) ==> {
        let rop = rot_a_op(op);
        &&& post.registers.a == alu8_res_spec(rop, a0, 0, cin)
        &&& post.registers.f == flags_byte(false, false, false, alu8_c_spec(rop, a0, 0, cin))
    })
    // The 16-bit ADD HL,rr family: HL takes the wrapped sum, N clears, H
    // carries out of bit 11, C out of bit 15, Z is preserved.
    &&& ((dis && fetch_ok && is_add_hl(op)) ==> {
        let hl = pre.registers.get_spec(RegisterNames::HL);
        let rr = pre.registers.get_spec(add_hl_src(op));
        post.registers == (Registers {
            pc: (pc + 1) as u16,
            f: flags_byte(zero_of(f0), false, hl % 4096 + rr % 4096 > 4095, hl + rr > 65535),
            ..pre.registers.set_spec(RegisterNames::HL, ((hl + rr) % 0x10000) as u16)
        })
    })
    // The eight-bit increment/decrement family on registers: Z, N and H
    // from the operation, the carry preserved.
    &&& ((dis && fetch_ok && is_incdec_reg(op)) ==> {
        let target = incdec_target(op);
        let aop = if op % 8 == 4 {
            MathNames::ADD
        } else {
            MathNames::SUB
        };
        let a = (pre.registers.get_spec(target) % 256) as u8;
        post.registers == (Registers {
            pc: (pc + 1) as u16,
            f: flags_byte(
                alu8_z_spec(aop, a, 1, false),
                alu8_n_spec(aop),
                alu8_h_spec(aop, a, 1, false),
                cary_of(f0),
            ),
            ..pre.registers.set_spec(target, alu8_res_spec(aop, a, 1, false) as u16)
        })
    })
    // An undocumented opcode is skipped: PC one ahead, registers otherwise
    // untouched, memory only by the housekeeping.
    &&& ((dis && fetch_ok && is_undocumented(op)) ==> {
        &&& post.registers == (Registers { pc: (pc + 1) as u16, ..pre.registers })
        &&& prelude_mem_rel(pre.memory, post.memory)
    })
    // RST pushes the return address and lands on its vector.
    &&& ((dis && fetch_ok && is_rst(op) && stack_ok) ==> {
        &&& post.registers.sp == s2
        &&& post.registers.pc == rst_vector(op)
        &&& post.memory.read_spec(s2) == (pc + 1) % 256
        &&& post.memory.read_spec(s1) == (pc + 1) / 256
    })
}

/// The engine after the PPU tick of one orchestrator step: the mode
/// machine and the bus move by `gpu_tick_rel`, nothing else does.
pub open spec fn gpu_engine_rel(pre: Engine, post: Engine, ticks: u32) -> bool {
    &&& crate::gpu::gpu_tick_rel(pre.gpu, pre.memory, post.gpu, post.memory, ticks)
    &&& post.registers == pre.registers
    &&& post.enable_interrupt == pre.enable_interrupt
    &&& post.buttons == pre.buttons
    &&& post.clock == pre.clock
}

/// The engine after the timer tick of one orchestrator step.
pub open spec fn clock_engine_rel(pre: Engine, post: Engine, ticks: u32) -> bool {
    &&& crate::clock::clock_tick_rel(pre.clock, pre.memory, post.clock, post.memory, ticks)
    &&& post.registers == pre.registers
    &&& post.enable_interrupt == pre.enable_interrupt
    &&& post.buttons == pre.buttons
    &&& post.gpu == pre.gpu
}

/// One orchestrator step: one interpreter step returning `c` cycles, then
/// the PPU and the timer each advance by exactly those `c` cycles — the
/// shared-cycle invariant that couples the subsystems.
pub open spec fn step_rel(pre: Engine, post: Engine, c: u32) -> bool {
    exists|mid1: Engine, mid2: Engine|
        #![trigger cpu_step_rel(pre, mid1, c), clock_engine_rel(mid2, post, c)]
        cpu_step_rel(pre, mid1, c) && gpu_engine_rel(mid1, mid2, c) && clock_engine_rel(
            mid2,
            post,
            c,
        )
}

/// `n` orchestrator steps lead from `pre` to `post`, their cycle counts
/// summing to `total`.
pub open spec fn steps_rel(pre: Engine, post: Engine, n: int, total: int) -> bool
    decreases n,
{
    if n <= 0 {
        post == pre && total == 0
    } else {
        exists|mid: Engine, c: u32|
            #[trigger] step_rel(mid, post, c) && steps_rel(pre, mid, n - 1, total - c)
    }
}

/// The conditional jumps, calls and returns.
pub open spec fn is_conditional(op: u8) -> bool {
    op == 0x20 || op == 0x28 || op == 0x30 || op == 0x38 || op == 0xC0 || op == 0xC8 || op == 0xD0
        || op == 0xD8 || op == 0xC2 || op == 0xCA || op == 0xD2 || op == 0xDA || op == 0xC4 || op
        == 0xCC || op == 0xD4 || op == 0xDC
}

/// A taken conditional always costs more cycles than the same instruction
/// untaken.
pub proof fn lemma_taken_costs_more(op: u8, cbop: u8, f_taken: u8, f_untaken: u8)
    requires
        is_conditional(op),
        cond_taken(op, f_taken),
        !cond_taken(op, f_untaken),
    ensures
        step_cycles(op, cbop, f_taken) > step_cycles(op, cbop, f_untaken),
{
}

/// The opcodes the SM83 does not document; the interpreter skips them.
pub open spec fn is_undocumented(op: u8) -> bool {
    op == 0xD3 || op == 0xDB || op == 0xDD || op == 0xE3 || op == 0xE4 || op == 0xEB || op == 0xEC
        || op == 0xED || op == 0xF4 || op == 0xFC || op == 0xFD
}

/// The 16-bit ADD HL,rr family.
pub open spec fn is_add_hl(op: u8) -> bool {
    op == 0x09 || op == 0x19 || op == 0x29 || op == 0x39
}

pub open spec fn add_hl_src(op: u8) -> RegisterNames {
    if op == 0x09 {
        RegisterNames::BC
    } else if op == 0x19 {
        RegisterNames::DE
    } else if op == 0x29 {
        RegisterNames::HL
    } else {
        RegisterNames::SP
    }
}

/// The eight-bit increment and decrement opcodes on single registers
/// (the (HL) forms 0x34 and 0x35 are not in this family).
pub open spec fn is_incdec_reg(op: u8) -> bool {
    op == 0x04 || op == 0x05 || op == 0x0C || op == 0x0D || op == 0x14 || op == 0x15 || op == 0x1C
        || op == 0x1D || op == 0x24 || op == 0x25 || op == 0x2C || op == 0x2D || op == 0x3C || op
        == 0x3D
}

pub open spec fn incdec_target(op: u8) -> RegisterNames {
    if op == 0x04 || op == 0x05 {
        RegisterNames::B
    } else if op == 0x0C || op == 0x0D {
        RegisterNames::C
    } else if op == 0x14 || op == 0x15 {
        RegisterNames::D
    } else if op == 0x1C || op == 0x1D {
        RegisterNames::E
    } else if op == 0x24 || op == 0x25 {
        RegisterNames::H
    } else if op == 0x2C || op == 0x2D {
        RegisterNames::L
    } else {
        RegisterNames::A
    }
}

/// The interrupt master state after one decoded instruction: DI disables,
/// EI arms the delayed enable, RETI enables, HALT parks (without
/// interrupts when they were disabled), and every other opcode leaves it.
pub open spec fn ime_after(op: u8, pre: InterruptState) -> InterruptState {
    if op == 0xF3 {
        InterruptState::DISABLED
    } else if op == 0xFB {
        InterruptState::ENABLED_NEXT_OP
    } else if op == 0xD9 {
        InterruptState::ENABLED
    } else if op == 0x76 {
        if pre == InterruptState::DISABLED {
            InterruptState::HALT_NO_INTERRUPT
        } else {
            InterruptState::HALT
        }
    } else {
        pre
    }
}

/// The lowest pending interrupt bit; meaningful when one of bits 0..4 of
/// `p` is set.
pub open spec fn lowest_pending(p: u8) -> int {
    if p & 0x01 != 0 {
        0
    } else if p & 0x02 != 0 {
        1
    } else if p & 0x04 != 0 {
        2
    } else if p & 0x08 != 0 {
        3
    } else {
        4
    }
}

/// The IF byte with the serviced bit cleared.
pub open spec fn if_clear_mask(b: int) -> u8 {
    if b == 0 {
        0xFE
    } else if b == 1 {
        0xFD
    } else if b == 2 {
        0xFB
    } else if b == 3 {
        0xF7
    } else {
        0xEF
    }
}

pub open spec fn rst_vector(op: u8) -> u16 {
    if op == 0xC7 {
        0x0000
    } else if op == 0xCF {
        0x0008
    } else if op == 0xD7 {
        0x0010
    } else if op == 0xDF {
        0x0018
    } else if op == 0xE7 {
        0x0020
    } else if op == 0xEF {
        0x0028
    } else if op == 0xF7 {
        0x0030
    } else {
        0x0038
    }
}

/// The operand column of the CB table.
pub open spec fn cb_target(op: u8) -> RegisterNames {
    let k = op % 8;
    if k == 0 {
        RegisterNames::B
    } else if k == 1 {
        RegisterNames::C
    } else if k == 2 {
        RegisterNames::D
    } else if k == 3 {
        RegisterNames::E
    } else if k == 4 {
        RegisterNames::H
    } else if k == 5 {
        RegisterNames::L
    } else if k == 6 {
        RegisterNames::HL
    } else {
        RegisterNames::A
    }
}

/// The value a CB operation leaves in its operand (BIT rows leave it
/// unchanged).
pub open spec fn cb_res_spec(op: u8, a: u8, cin: bool) -> u8 {
    let c = if cin {
        1int
    } else {
        0int
    };
    if op < 0x08 {
        (a % 128 * 2 + a / 128) as u8
    } else if op < 0x10 {
        (a / 2 + a % 2 * 128) as u8
    } else if op < 0x18 {
        (a % 128 * 2 + c) as u8
    } else if op < 0x20 {
        (a / 2 + c * 128) as u8
    } else if op < 0x28 {
        (a % 128 * 2) as u8
    } else if op < 0x30 {
        (a / 2 + a / 128 * 128) as u8
    } else if op < 0x38 {
        (a % 16 * 16 + a / 16) as u8
    } else if op < 0x40 {
        a / 2
    } else if op < 0x80 {
        a
    } else if op < 0xC0 {
        a & (0xFFu8 ^ (1u8 << (((op - 0x80) / 8) as u8)))
    } else {
        a | (1u8 << (((op - 0xC0) / 8) as u8))
    }
}

/// The carry a CB shift or rotate row leaves.
pub open spec fn cb_c_spec(op: u8, a: u8) -> bool {
    if op < 0x08 {
        a >= 128
    } else if op < 0x10 {
        a % 2 == 1
    } else if op < 0x18 {
        a >= 128
    } else if op < 0x20 {
        a % 2 == 1
    } else if op < 0x28 {
        a >= 128
    } else if op < 0x30 {
        a % 2 == 1
    } else if op < 0x38 {
        false
    } else {
        a % 2 == 1
    }
}

/// The flag byte after a CB operation: shifts and rotates compute all four
/// flags, BIT sets Z/N/H and keeps the carry, RES and SET keep F whole.
pub open spec fn cb_new_f(op: u8, a: u8, cin: bool, old_f: u8) -> u8 {
    if op < 0x40 {
        flags_byte(cb_res_spec(op, a, cin) == 0, false, false, cb_c_spec(op, a))
    } else if op < 0x80 {
        flags_byte((a >> (((op - 0x40) / 8) as u8)) % 2 == 0, false, true, cary_of(old_f))
    } else {
        old_f
    }
}

/// Whether the CB row writes its result back.
pub open spec fn cb_writes(op: u8) -> bool {
    op < 0x40 || op >= 0x80
}

/// CB timing: register forms take 8 cycles, (HL) forms 16, except BIT on
/// (HL) at 12; the four prefix cycles are included.
pub open spec fn cb_cycles(op: u8) -> u32 {
    if cb_target(op) == RegisterNames::HL {
        if 0x40 <= op < 0x80 {
            12
        } else {
            16
        }
    } else {
        8
    }
}

impl Engine {
    /// Adds one to an eight-bit register or to the byte at (HL): Z, N and H
    /// are set by the addition, the carry flag is preserved.
    pub fn inc(&mut self, register: RegisterNames, resolve_hl: bool) -> (r: u32)
        requires
            old(self).wf(),
            Engine::single_or_hl(register),
            (register == RegisterNames::HL) == resolve_hl,
        ensures
            final(self).wf(),
            r == if resolve_hl {
                12int
            } else {
                4int
            },
            Engine::incdec_rel(*old(self), *final(self), register, MathNames::ADD),
    {
        self.incdec_step(register, MathNames::ADD);
        if resolve_hl {
            12
        } else {
            4
        }
    }

    /// Subtracts one from an eight-bit register or from the byte at (HL):
    /// Z, N and H are set by the subtraction, the carry flag is preserved.
    pub fn dec(&mut self, register: RegisterNames, resolve_hl: bool) -> (r: u32)
        requires
            old(self).wf(),
            Engine::single_or_hl(register),
            (register == RegisterNames::HL) == resolve_hl,
        ensures
            final(self).wf(),
            r == if resolve_hl {
                12int
            } else {
                4int
            },
            Engine::incdec_rel(*old(self), *final(self), register, MathNames::SUB),
    {
        self.incdec_step(register, MathNames::SUB);
        if resolve_hl {
            12
        } else {
            4
        }
    }

    /// How an eight-bit increment or decrement relates the machine before
    /// to the machine after: the operand moves by one, F takes Z, N and H
    /// from the operation and keeps the carry, and PC advances by one.
    pub open spec fn incdec_rel(pre: Engine, post: Engine, register: RegisterNames, op: MathNames)
        -> bool {
        let hl_addr = pre.registers.get_spec(RegisterNames::HL);
        let a: u8 = if register == RegisterNames::HL {
            pre.memory.read_spec(hl_addr)
        } else {
            (pre.registers.get_spec(register) % 256) as u8
        };
        let res = alu8_res_spec(op, a, 1, false);
        let newf = flags_byte(
            alu8_z_spec(op, a, 1, false),
            alu8_n_spec(op),
            alu8_h_spec(op, a, 1, false),
            cary_of(pre.registers.f),
        );
        &&& post.enable_interrupt == pre.enable_interrupt
        &&& post.gpu == pre.gpu
        &&& post.clock == pre.clock
        &&& post.buttons == pre.buttons
        &&& if register == RegisterNames::HL {
            &&& Memory::write_rel(pre.memory, post.memory, hl_addr, res)
            &&& post.registers == (Registers {
                f: newf,
                pc: wrap16(pre.registers.pc + 1) as u16,
                ..pre.registers
            })
        } else {
            &&& post.memory == pre.memory
            &&& post.registers == (Registers {
                f: newf,
                pc: wrap16(pre.registers.pc + 1) as u16,
                ..pre.registers.set_spec(register, res as u16)
            })
        }
    }

    fn incdec_step(&mut self, register: RegisterNames, op: MathNames)
        requires
            old(self).wf(),
            Engine::single_or_hl(register),
            op == MathNames::ADD || op == MathNames::SUB,
        ensures
            final(self).wf(),
            Engine::incdec_rel(*old(self), *final(self), register, op),
    {
        let old_cary = self.registers.is_cary_flag();
        let is_hl = match register {
            RegisterNames::HL => true,
            _ => false,
        };
        let reg_val = self.registers.get_register(&register);
        let a: u8 = if is_hl {
            self.memory.get(reg_val)
        } else {
            (reg_val % 256) as u8
        };
        let (res, z, n, h, _c) = alu8(op, a, 1, false);
        if is_hl {
            self.memory.set(reg_val, res);
        } else {
            self.registers.set_register(&register, res as u16);
        }
        self.registers.set_flags(z, n, h, old_cary);
        self.registers.incr_pc(1);
    }

    /// One accumulator rotate: the result and carry come from the ALU, the
    /// other flags are cleared, zero included.
    fn rotate_a(&mut self, op: MathNames) -> (r: u32)
        requires
            old(self).wf(),
            op == MathNames::RLC || op == MathNames::RL || op == MathNames::RRC || op
                == MathNames::RR,
        ensures
            final(self).wf(),
            r == 4,
            final(self).memory == old(self).memory,
            final(self).enable_interrupt == old(self).enable_interrupt,
            final(self).gpu == old(self).gpu,
            final(self).clock == old(self).clock,
            final(self).buttons == old(self).buttons,
            final(self).registers == (Registers {
                pc: wrap16(old(self).registers.pc + 1) as u16,
                f: flags_byte(
                    false,
                    false,
                    false,
                    alu8_c_spec(op, old(self).registers.a, 0, cary_of(old(self).registers.f)),
                ),
                ..old(self).registers.set_spec(
                    RegisterNames::A,
                    alu8_res_spec(op, old(self).registers.a, 0, cary_of(old(self).registers.f))
                        as u16,
                )
            }),
    {
        self.math_to_a(op, 0);
        self.registers.set_zero_flag(false);
        self.registers.incr_pc(1);
        proof {
            let a0 = old(self).registers.a;
            let cin = cary_of(old(self).registers.f);
            let z = alu8_z_spec(op, a0, 0, cin);
            let c = alu8_c_spec(op, a0, 0, cin);
            assert(flags_byte(z, false, false, c) % 128 == flags_byte(false, false, false, c));
        }
        4
    }

    /// Performs the OAM DMA a write to 0xFF46 requested: 160 bytes from the
    /// named page are copied into OAM, then the register is cleared.
    pub fn check_dma_transfer(&mut self)
        requires
            old(self).wf(),
        ensures
            final(self).wf(),
            final(self).registers == old(self).registers,
            final(self).enable_interrupt == old(self).enable_interrupt,
            final(self).gpu == old(self).gpu,
            final(self).clock == old(self).clock,
            final(self).buttons == old(self).buttons,
            final(self).memory.cart == old(self).memory.cart,
            final(self).memory.read_spec(0xFF46) == 0,
            forall|x: u16|
                fold_echo(x) != 0xFF46 && !(0xFE00 <= fold_echo(x) < 0xFEA0)
                    ==> #[trigger] final(self).memory.read_spec(x) == old(self).memory.read_spec(x),
            ({
                let src = old(self).memory.read_spec(0xFF46);
                src != 0 ==> forall|i: int|
                    0 <= i < 160 ==> #[trigger] final(self).memory.read_spec((0xFE00 + i) as u16)
                        == old(self).memory.read_spec((src * 256 + i) as u16)
            }),
            old(self).memory.read_spec(0xFF46) == 0 ==> forall|x: u16|
                fold_echo(x) != 0xFF46 ==> #[trigger] final(self).memory.read_spec(x) == old(
                    self,
                ).memory.read_spec(x),
    {
        let start_addr = self.memory.get(0xFF46) as u16;
        if start_addr > 0 {
            let mut i: u16 = 0;
            while i < 160
                invariant
                    self.memory.wf(),
                    self.memory.cart == old(self).memory.cart,
                    self.registers == old(self).registers,
                    self.enable_interrupt == old(self).enable_interrupt,
                    self.gpu == old(self).gpu,
                    self.clock == old(self).clock,
                    self.buttons == old(self).buttons,
                    i <= 160,
                    0 < start_addr <= 255,
                    start_addr == old(self).memory.read_spec(0xFF46),
                    forall|x: u16|
                        !(0xFE00 <= fold_echo(x) < 0xFE00 + i) ==> #[trigger] self.memory.read_spec(
                            x,
                        ) == old(self).memory.read_spec(x),
                    forall|j: int|
                        0 <= j < i ==> #[trigger] self.memory.read_spec((0xFE00 + j) as u16) == old(
                            self,
                        ).memory.read_spec((start_addr * 256 + j) as u16),
                decreases 160 - i,
            {
                let b = self.memory.get(start_addr * 256 + i);
                let ghost mb = self.memory;
                self.memory.set(0xFE00 + i, b);
                proof {
                    assert forall|x: u16| !(0xFE00 <= fold_echo(x) < 0xFE00 + i + 1) implies
                        #[trigger] self.memory.read_spec(x) == old(self).memory.read_spec(x) by {
                        lemma_read_after_write(mb, self.memory, (0xFE00 + i) as u16, b, x);
                    }
                    assert forall|j: int| 0 <= j < i + 1 implies #[trigger] self.memory
                        .read_spec((0xFE00 + j) as u16) == old(self).memory.read_spec(
                        (start_addr * 256 + j) as u16,
                    ) by {
                        lemma_read_after_write(
                            mb,
                            self.memory,
                            (0xFE00 + i) as u16,
                            b,
                            (0xFE00 + j) as u16,
                        );
                    }
                }
                i = i + 1;
            }
        }
        let ghost m2 = self.memory;
        self.memory.set(0xFF46, 0);
        proof {
            assert forall|x: u16| fold_echo(x) != 0xFF46 implies #[trigger] self.memory.read_spec(
                x,
            ) == m2.read_spec(x) by {
                lemma_read_after_write(m2, self.memory, 0xFF46, 0, x);
            }
            lemma_read_after_write(m2, self.memory, 0xFF46, 0, 0xFF46);
        }
    }

    /// Executes one CB-prefixed operation: a shift or rotate, a bit test,
    /// or a bit clear or set, on a register or on the byte at (HL).
    #[verifier::rlimit(100)]
    #[verifier::spinoff_prover]
    pub fn run_cb(&mut self) -> (r: u32)
        requires
            old(self).wf(),
        ensures
            final(self).wf(),
            ({
                let pc = old(self).registers.pc;
                let op = old(self).memory.read_spec(wrap16(pc + 1) as u16);
                let target = cb_target(op);
                let hl_addr = old(self).registers.get_spec(RegisterNames::HL);
                let a: u8 = if target == RegisterNames::HL {
                    old(self).memory.read_spec(hl_addr)
                } else {
                    (old(self).registers.get_spec(target) % 256) as u8
                };
                let cin = cary_of(old(self).registers.f);
                let res = cb_res_spec(op, a, cin);
                let newf = cb_new_f(op, a, cin, old(self).registers.f);
                &&& r == cb_cycles(op)
                &&& final(self).enable_interrupt == old(self).enable_interrupt
                &&& final(self).gpu == old(self).gpu
                &&& final(self).clock == old(self).clock
                &&& final(self).buttons == old(self).buttons
                &&& final(self).registers.pc == wrap16(pc + 2)
                &&& if target == RegisterNames::HL {
                    &&& final(self).registers == (Registers {
                        f: newf,
                        pc: wrap16(pc + 2) as u16,
                        ..old(self).registers
                    })
                    &&& if cb_writes(op) {
                        Memory::write_rel(old(self).memory, final(self).memory, hl_addr, res)
                    } else {
                        final(self).memory == old(self).memory
                    }
                } else {
                    &&& final(self).memory == old(self).memory
                    &&& final(self).registers == (Registers {
                        f: newf,
                        pc: wrap16(pc + 2) as u16,
                        ..old(self).registers.set_spec(target, res as u16)
                    })
                }
            }),
    {
        self.registers.incr_pc(1);
        let first_byte = self.memory.get(self.registers.pc);
        let second_nibble = first_byte % 8;
        let resolved_register = if second_nibble == 0 {
            RegisterNames::B
        } else if second_nibble == 1 {
            RegisterNames::C
        } else if second_nibble == 2 {
            RegisterNames::D
        } else if second_nibble == 3 {
            RegisterNames::E
        } else if second_nibble == 4 {
            RegisterNames::H
        } else if second_nibble == 5 {
            RegisterNames::L
        } else if second_nibble == 6 {
            RegisterNames::HL
        } else {
            RegisterNames::A
        };
        let is_hl = second_nibble == 6;
        let reg_val = self.registers.get_register(&resolved_register);
        let a: u8 = if is_hl {
            self.memory.get(reg_val)
        } else {
            (reg_val % 256) as u8
        };
        let cin = self.registers.is_cary_flag();
        let cbit: u8 = if cin {
            1
        } else {
            0
        };
        if first_byte < 0x40 {
            let res: u8 = if first_byte < 0x08 {
                a % 128 * 2 + a / 128
            } else if first_byte < 0x10 {
                a / 2 + a % 2 * 128
            } else if first_byte < 0x18 {
                a % 128 * 2 + cbit
            } else if first_byte < 0x20 {
                a / 2 + cbit * 128
            } else if first_byte < 0x28 {
                a % 128 * 2
            } else if first_byte < 0x30 {
                a / 2 + a / 128 * 128
            } else if first_byte < 0x38 {
                a % 16 * 16 + a / 16
            } else {
                a / 2
            };
            let carry_out: bool = if first_byte < 0x08 {
                a >= 128
            } else if first_byte < 0x10 {
                a % 2 == 1
            } else if first_byte < 0x18 {
                a >= 128
            } else if first_byte < 0x20 {
                a % 2 == 1
            } else if first_byte < 0x28 {
                a >= 128
            } else if first_byte < 0x30 {
                a % 2 == 1
            } else if first_byte < 0x38 {
                false
            } else {
                a % 2 == 1
            };
            if is_hl {
                self.memory.set(reg_val, res);
            } else {
                self.registers.set_register(&resolved_register, res as u16);
            }
            self.registers.set_flags(res == 0, false, false, carry_out);
            self.registers.incr_pc(1);
            if is_hl {
                16
            } else {
                8
            }
        } else if first_byte < 0x80 {
            let bit: u8 = (first_byte - 0x40) / 8;
            let z: bool = (a >> bit) % 2 == 0;
            self.registers.set_flags(z, false, true, cin);
            self.registers.incr_pc(1);
            if is_hl {
                12
            } else {
                8
            }
        } else {
            let res: u8 = if first_byte < 0xC0 {
                a & (0xFFu8 ^ (1u8 << ((first_byte - 0x80) / 8)))
            } else {
                a | (1u8 << ((first_byte - 0xC0) / 8))
            };
            if is_hl {
                self.memory.set(reg_val, res);
            } else {
                self.registers.set_register(&resolved_register, res as u16);
            }
            self.registers.incr_pc(1);
            if is_hl {
                16
            } else {
                8
            }
        }
    }

    /// Services one interrupt line: interrupts off, PC pushed, the
    /// matching vector entered, and the bit cleared from the flags byte
    /// written back to IF.
    fn service_interrupt(&mut self, bit: u8, interrupt_flags: u8) -> (r: u32)
        requires
            old(self).wf(),
            bit < 5,
        ensures
            final(self).wf(),
            r == 12,
            final(self).enable_interrupt == InterruptState::DISABLED,
            final(self).gpu == old(self).gpu,
            final(self).clock == old(self).clock,
            final(self).buttons == old(self).buttons,
            final(self).registers == (Registers {
                pc: (0x40 + 8 * bit) as u16,
                sp: wrap16(old(self).registers.sp - 2) as u16,
                ..old(self).registers
            }),
            final(self).memory.read_spec(0xFF0F) == interrupt_flags & if_clear_mask(bit as int),
            ({
                let sp = old(self).registers.sp;
                let s2 = wrap16(sp - 2) as u16;
                let s1 = wrap16(sp - 1) as u16;
                (s2 >= 0x8000 && s1 >= 0x8000 && (0xA000 <= fold_echo(s2) < 0xC000 ==> old(
                    self,
                ).memory.ram_accessible()) && (0xA000 <= fold_echo(s1) < 0xC000 ==> old(
                    self,
                ).memory.ram_accessible()) && fold_echo(s2) != 0xFF0F && fold_echo(s1) != 0xFF0F)
                    ==> {
                    &&& final(self).memory.read_spec(s2) == old(self).registers.pc % 256
                    &&& final(self).memory.read_spec(s1) == old(self).registers.pc / 256
                }
            }),
    {
        self.enable_interrupt = InterruptState::DISABLED;
        let register_val = self.registers.pc;
        let ghost m_pre = self.memory;
        self.memory.push_stack(&mut self.registers, register_val);
        let vector: u16 = 0x40 + 8 * bit as u16;
        self.registers.set_register(&RegisterNames::PC, vector);
        let mask: u8 = if bit == 0 {
            0xFE
        } else if bit == 1 {
            0xFD
        } else if bit == 2 {
            0xFB
        } else if bit == 3 {
            0xF7
        } else {
            0xEF
        };
        let ghost m_mid = self.memory;
        self.memory.set(0xFF0F, interrupt_flags & mask);
        proof {
            lemma_read_after_write(m_mid, self.memory, 0xFF0F, interrupt_flags & mask, 0xFF0F);
            let sp = old(self).registers.sp;
            let s2 = wrap16(sp - 2) as u16;
            let s1 = wrap16(sp - 1) as u16;
            let lo = (register_val % 256) as u8;
            let hi = (register_val / 256) as u8;
            if s2 >= 0x8000 && s1 >= 0x8000 && (0xA000 <= fold_echo(s2) < 0xC000 ==> old(
                self,
            ).memory.ram_accessible()) && (0xA000 <= fold_echo(s1) < 0xC000 ==> old(
                self,
            ).memory.ram_accessible()) && fold_echo(s2) != 0xFF0F && fold_echo(s1) != 0xFF0F {
                let mid = choose|mid: Memory|
                    mid.wf() && #[trigger] Memory::write_rel(m_pre, mid, s2, lo)
                        && Memory::write_rel(mid, m_mid, s1, hi);
                lemma_read_after_write(m_pre, mid, s2, lo, s2);
                lemma_read_after_write(mid, m_mid, s1, hi, s2);
                lemma_read_after_write(mid, m_mid, s1, hi, s1);
                lemma_read_after_write(m_mid, self.memory, 0xFF0F, interrupt_flags & mask, s2);
                lemma_read_after_write(m_mid, self.memory, 0xFF0F, interrupt_flags & mask, s1);
            }
        }
        12
    }

    /// Executes one instruction (or services an interrupt) and returns its
    /// cycle count in T-states.  The whole effect is `cpu_step_rel`: the
    /// interrupt arbiter's service, park and wake outcomes, the interrupt
    /// master transitions, and the per-family laws (PC advance, cycle
    /// table, ALU, loads, rotates, INC/DEC, ADD HL, RST, undocumented
    /// opcodes) under the conditions that pin the opcode down.
    #[verifier::rlimit(100)]
    #[verifier::spinoff_prover]
    pub fn execute_next_instruction(&mut self) -> (r: u32)
        requires
            old(self).wf(),
        ensures
            cpu_step_rel(*old(self), *final(self), r),
    {
        self.buttons.updateMemory(&mut self.memory);
        let ghost m1 = self.memory;
        proof {
            assert forall|x: u16| fold_echo(x) != 0xFF00 implies #[trigger] m1.read_spec(x) == old(
                self,
            ).memory.read_spec(x) by {
                lemma_read_after_write(
                    old(self).memory,
                    m1,
                    0xFF00,
                    joypad_value_spec(
                        old(self).memory.read_spec(0xFF00),
                        old(self).buttons.row1,
                        old(self).buttons.row2,
                    ),
                    x,
                );
            }
        }
        self.check_dma_transfer();
        proof {
            assert forall|x: u16|
                fold_echo(x) != 0xFF00 && fold_echo(x) != 0xFF46 && !(0xFE00 <= fold_echo(x)
                    < 0xFEA0) implies #[trigger] self.memory.read_spec(x) == old(
                self,
            ).memory.read_spec(x) by {
                assert(m1.read_spec(x) == old(self).memory.read_spec(x));
                assert(self.memory.read_spec(x) == m1.read_spec(x));
            }
            assert(prelude_mem_rel(old(self).memory, self.memory));
            assert(self.memory.read_spec(0xFF0F) == old(self).memory.read_spec(0xFF0F));
            assert(self.memory.read_spec(0xFFFF) == old(self).memory.read_spec(0xFFFF));
            if old(self).registers.pc + 2 < 0xFE00 {
                let pc0 = old(self).registers.pc;
                let pc1 = wrap16(pc0 + 1) as u16;
                assert(m1.read_spec(pc0) == old(self).memory.read_spec(pc0));
                assert(self.memory.read_spec(pc0) == m1.read_spec(pc0));
                assert(m1.read_spec(pc1) == old(self).memory.read_spec(pc1));
                assert(self.memory.read_spec(pc1) == m1.read_spec(pc1));
            }
        }

        let interrupt_flags = self.memory.get(0xFF0F);
        if self.enable_interrupt == InterruptState::HALT_NO_INTERRUPT {
            if interrupt_flags & self.memory.get(0xFFFF) > 0 {
                self.enable_interrupt = InterruptState::DISABLED;
                return 20;
            }
        } else if self.enable_interrupt == InterruptState::ENABLED || self.enable_interrupt
            == InterruptState::HALT {
            let pending = interrupt_flags & self.memory.get(0xFFFF);
            proof {
                let p = pending;
                assert((p & 0x01 > 0 || p & 0x02 > 0 || p & 0x04 > 0 || p & 0x08 > 0 || p & 0x10
                    > 0) ==> p & 0x1F != 0) by (bit_vector);
                assert((p & 0x01 == 0 && p & 0x02 == 0 && p & 0x04 == 0 && p & 0x08 == 0 && p
                    & 0x10 == 0) ==> p & 0x1F == 0) by (bit_vector);
            }
            if pending & 0x01 > 0 {
                return self.service_interrupt(0, interrupt_flags);
            } else if pending & 0x02 > 0 {
                return self.service_interrupt(1, interrupt_flags);
            } else if pending & 0x04 > 0 {
                return self.service_interrupt(2, interrupt_flags);
            } else if pending & 0x08 > 0 {
                return self.service_interrupt(3, interrupt_flags);
            } else if pending & 0x10 > 0 {
                return self.service_interrupt(4, interrupt_flags);
            }
        }
        if self.enable_interrupt == InterruptState::HALT || self.enable_interrupt
            == InterruptState::HALT_NO_INTERRUPT {
            // Parked until an interrupt arrives.
            return 4;
        }
        if self.enable_interrupt == InterruptState::ENABLED_NEXT_OP {
            self.enable_interrupt = InterruptState::ENABLED;
        }

        let first_byte = self.memory.get(self.registers.pc);
        return self.dispatch_primary(first_byte);
    }

    /// Executes one already-fetched primary opcode, routing it to the
    /// handler for its quarter of the opcode table.  The contract carries
    /// the same laws as the public step function, without the fetch
    /// conditions: here the opcode is a plain argument.
    #[verifier::rlimit(100)]
    #[verifier::spinoff_prover]
    fn dispatch_primary(&mut self, first_byte: u8) -> (r: u32)
        requires
            old(self).wf(),
        ensures
            final(self).wf(),
            4 <= r <= 24,
            plain_advance(first_byte, old(self).registers.f) ==> final(self).registers.pc
                == wrap16(old(self).registers.pc + instr_len(first_byte)),
            r == step_cycles(
                first_byte,
                old(self).memory.read_spec(wrap16(old(self).registers.pc + 1) as u16),
                old(self).registers.f,
            ),
            ({
                let d8 = old(self).memory.read_spec(wrap16(old(self).registers.pc + 1) as u16);
                let a = old(self).registers.a;
                let cin = cary_of(old(self).registers.f);
                let aop = alu_d8_op(first_byte);
                is_alu_d8(first_byte) ==> final(self).registers.a == alu8_res_spec(aop, a, d8, cin)
                    && final(self).registers.f == flags_byte(
                    alu8_z_spec(aop, a, d8, cin),
                    alu8_n_spec(aop),
                    alu8_h_spec(aop, a, d8, cin),
                    alu8_c_spec(aop, a, d8, cin),
                )
            }),
            ({
                let d8 = old(self).memory.read_spec(wrap16(old(self).registers.pc + 1) as u16);
                is_ld_d8(first_byte) ==> *final(self) == (Engine {
                    registers: Registers {
                        pc: wrap16(old(self).registers.pc + 2) as u16,
                        ..old(self).registers.set_spec(ld_d8_target(first_byte), d8 as u16)
                    },
                    ..*old(self)
                })
            }),
            ({
                let a = old(self).registers.a;
                let cin = cary_of(old(self).registers.f);
                let b = alu_operand(*old(self), first_byte);
                let aop = alu_reg_op(first_byte);
                is_alu_reg(first_byte) ==> final(self).registers.a == alu8_res_spec(aop, a, b, cin)
                    && final(self).registers.f == flags_byte(
                    alu8_z_spec(aop, a, b, cin),
                    alu8_n_spec(aop),
                    alu8_h_spec(aop, a, b, cin),
                    alu8_c_spec(aop, a, b, cin),
                )
            }),
            ({
                let a = old(self).registers.a;
                let cin = cary_of(old(self).registers.f);
                let rop = rot_a_op(first_byte);
                is_rot_a(first_byte) ==> final(self).registers.a == alu8_res_spec(rop, a, 0, cin)
                    && final(self).registers.f == flags_byte(
                    false,
                    false,
                    false,
                    alu8_c_spec(rop, a, 0, cin),
                )
            }),
            final(self).enable_interrupt == ime_after(first_byte, old(self).enable_interrupt),
            ({
                let hl = old(self).registers.get_spec(RegisterNames::HL);
                let rr = old(self).registers.get_spec(add_hl_src(first_byte));
                is_add_hl(first_byte) ==> final(self).memory == old(self).memory
                    && final(self).registers == (Registers {
                    pc: wrap16(old(self).registers.pc + 1) as u16,
                    f: flags_byte(
                        zero_of(old(self).registers.f),
                        false,
                        hl % 4096 + rr % 4096 > 4095,
                        hl + rr > 65535,
                    ),
                    ..old(self).registers.set_spec(RegisterNames::HL, ((hl + rr) % 0x10000) as u16)
                })
            }),
            ({
                let target = incdec_target(first_byte);
                let aop = if first_byte % 8 == 4 {
                    MathNames::ADD
                } else {
                    MathNames::SUB
                };
                let a = (old(self).registers.get_spec(target) % 256) as u8;
                is_incdec_reg(first_byte) ==> final(self).memory == old(self).memory
                    && final(self).registers == (Registers {
                    pc: wrap16(old(self).registers.pc + 1) as u16,
                    f: flags_byte(
                        alu8_z_spec(aop, a, 1, false),
                        alu8_n_spec(aop),
                        alu8_h_spec(aop, a, 1, false),
                        cary_of(old(self).registers.f),
                    ),
                    ..old(self).registers.set_spec(target, alu8_res_spec(aop, a, 1, false) as u16)
                })
            }),
            is_undocumented(first_byte) ==> final(self).memory == old(self).memory
                && final(self).registers == (Registers {
                pc: wrap16(old(self).registers.pc + 1) as u16,
                ..old(self).registers
            }),
            ({
                let pc = old(self).registers.pc;
                let sp = old(self).registers.sp;
                let s2 = wrap16(sp - 2) as u16;
                let s1 = wrap16(sp - 1) as u16;
                (is_rst(first_byte) && s2 >= 0x8000 && s1 >= 0x8000 && (0xA000 <= fold_echo(s2)
                    < 0xC000 ==> old(self).memory.ram_accessible()) && (0xA000 <= fold_echo(s1)
                    < 0xC000 ==> old(self).memory.ram_accessible())) ==> {
                    &&& final(self).registers.sp == s2
                    &&& final(self).registers.pc == rst_vector(first_byte)
                    &&& final(self).memory.read_spec(s2) == wrap16(pc + 1) % 256
                    &&& final(self).memory.read_spec(s1) == (wrap16(pc + 1) as int) / 256
                }
            }),
    {
        if first_byte < 0x40 {
            self.dispatch_misc(first_byte)
        } else if first_byte < 0x80 {
            self.dispatch_ld_block(first_byte)
        } else if first_byte < 0xC0 {
            self.dispatch_alu_block(first_byte)
        } else {
            self.dispatch_control(first_byte)
        }
    }

    /// Executes one primary opcode below 0x40: loads, sixteen-bit and
    /// eight-bit increments, rotates, DAA and the relative jumps.
    #[verifier::rlimit(100)]
    #[verifier::spinoff_prover]
    fn dispatch_misc(&mut self, first_byte: u8) -> (r: u32)
        requires
            first_byte < 0x40,
            old(self).wf(),
        ensures
            final(self).wf(),
            4 <= r <= 24,
            plain_advance(first_byte, old(self).registers.f) ==> final(self).registers.pc
                == wrap16(old(self).registers.pc + instr_len(first_byte)),
            r == step_cycles(
                first_byte,
                old(self).memory.read_spec(wrap16(old(self).registers.pc + 1) as u16),
                old(self).registers.f,
            ),
            ({
                let d8 = old(self).memory.read_spec(wrap16(old(self).registers.pc + 1) as u16);
                let a = old(self).registers.a;
                let cin = cary_of(old(self).registers.f);
                let aop = alu_d8_op(first_byte);
                is_alu_d8(first_byte) ==> final(self).registers.a == alu8_res_spec(aop, a, d8, cin)
                    && final(self).registers.f == flags_byte(
                    alu8_z_spec(aop, a, d8, cin),
                    alu8_n_spec(aop),
                    alu8_h_spec(aop, a, d8, cin),
                    alu8_c_spec(aop, a, d8, cin),
                )
            }),
            ({
                let d8 = old(self).memory.read_spec(wrap16(old(self).registers.pc + 1) as u16);
                is_ld_d8(first_byte) ==> *final(self) == (Engine {
                    registers: Registers {
                        pc: wrap16(old(self).registers.pc + 2) as u16,
                        ..old(self).registers.set_spec(ld_d8_target(first_byte), d8 as u16)
                    },
                    ..*old(self)
                })
            }),
            ({
                let a = old(self).registers.a;
                let cin = cary_of(old(self).registers.f);
                let b = alu_operand(*old(self), first_byte);
                let aop = alu_reg_op(first_byte);
                is_alu_reg(first_byte) ==> final(self).registers.a == alu8_res_spec(aop, a, b, cin)
                    && final(self).registers.f == flags_byte(
                    alu8_z_spec(aop, a, b, cin),
                    alu8_n_spec(aop),
                    alu8_h_spec(aop, a, b, cin),
                    alu8_c_spec(aop, a, b, cin),
                )
            }),
            ({
                let a = old(self).registers.a;
                let cin = cary_of(old(self).registers.f);
                let rop = rot_a_op(first_byte);
                is_rot_a(first_byte) ==> final(self).registers.a == alu8_res_spec(rop, a, 0, cin)
                    && final(self).registers.f == flags_byte(
                    false,
                    false,
                    false,
                    alu8_c_spec(rop, a, 0, cin),
                )
            }),
            final(self).enable_interrupt == ime_after(first_byte, old(self).enable_interrupt),
            ({
                let hl = old(self).registers.get_spec(RegisterNames::HL);
                let rr = old(self).registers.get_spec(add_hl_src(first_byte));
                is_add_hl(first_byte) ==> final(self).memory == old(self).memory
                    && final(self).registers == (Registers {
                    pc: wrap16(old(self).registers.pc + 1) as u16,
                    f: flags_byte(
                        zero_of(old(self).registers.f),
                        false,
                        hl % 4096 + rr % 4096 > 4095,
                        hl + rr > 65535,
                    ),
                    ..old(self).registers.set_spec(RegisterNames::HL, ((hl + rr) % 0x10000) as u16)
                })
            }),
            ({
                let target = incdec_target(first_byte);
                let aop = if first_byte % 8 == 4 {
                    MathNames::ADD
                } else {
                    MathNames::SUB
                };
                let a = (old(self).registers.get_spec(target) % 256) as u8;
                is_incdec_reg(first_byte) ==> final(self).memory == old(self).memory
                    && final(self).registers == (Registers {
                    pc: wrap16(old(self).registers.pc + 1) as u16,
                    f: flags_byte(
                        alu8_z_spec(aop, a, 1, false),
                        alu8_n_spec(aop),
                        alu8_h_spec(aop, a, 1, false),
                        cary_of(old(self).registers.f),
                    ),
                    ..old(self).registers.set_spec(target, alu8_res_spec(aop, a, 1, false) as u16)
                })
            }),
            is_undocumented(first_byte) ==> final(self).memory == old(self).memory
                && final(self).registers == (Registers {
                pc: wrap16(old(self).registers.pc + 1) as u16,
                ..old(self).registers
            }),
            ({
                let pc = old(self).registers.pc;
                let sp = old(self).registers.sp;
                let s2 = wrap16(sp - 2) as u16;
                let s1 = wrap16(sp - 1) as u16;
                (is_rst(first_byte) && s2 >= 0x8000 && s1 >= 0x8000 && (0xA000 <= fold_echo(s2)
                    < 0xC000 ==> old(self).memory.ram_accessible()) && (0xA000 <= fold_echo(s1)
                    < 0xC000 ==> old(self).memory.ram_accessible())) ==> {
                    &&& final(self).registers.sp == s2
                    &&& final(self).registers.pc == rst_vector(first_byte)
                    &&& final(self).memory.read_spec(s2) == wrap16(pc + 1) % 256
                    &&& final(self).memory.read_spec(s1) == (wrap16(pc + 1) as int) / 256
                }
            }),
    {
        match first_byte {
            0x00 => {
                self.registers.incr_pc(1);
                return 4;
            },
            0x01 | 0x11 | 0x21 | 0x31 => {
                let resolved_register = match first_byte {
                    0x01 => RegisterNames::BC,
                    0x11 => RegisterNames::DE,
                    0x21 => RegisterNames::HL,
                    _ => RegisterNames::SP,
                };
                let pcv = self.registers.pc;
                let d16 = self.get_d16(wrap_add16(pcv, 1));
                self.registers.set_register(&resolved_register, d16);
                self.registers.incr_pc(3);
                return 12;
            },
            0x03 | 0x0B | 0x13 | 0x1B | 0x23 | 0x2B | 0x33 | 0x3B => {
                let resolved_register = match first_byte {
                    0x03 | 0x0B => RegisterNames::BC,
                    0x13 | 0x1B => RegisterNames::DE,
                    0x23 | 0x2B => RegisterNames::HL,
                    _ => RegisterNames::SP,
                };
                if first_byte % 16 == 3 {
                    self.registers.change_register(resolved_register, 1);
                } else {
                    self.registers.change_register(resolved_register, -1);
                }
                self.registers.incr_pc(1);
                return 8;
            },
            0x04 => {
                return self.inc(RegisterNames::B, false);
            },
            0x05 => {
                return self.dec(RegisterNames::B, false);
            },
            0x0C => {
                return self.inc(RegisterNames::C, false);
            },
            0x0D => {
                return self.dec(RegisterNames::C, false);
            },
            0x14 => {
                return self.inc(RegisterNames::D, false);
            },
            0x15 => {
                return self.dec(RegisterNames::D, false);
            },
            0x1C => {
                return self.inc(RegisterNames::E, false);
            },
            0x1D => {
                return self.dec(RegisterNames::E, false);
            },
            0x24 => {
                return self.inc(RegisterNames::H, false);
            },
            0x25 => {
                return self.dec(RegisterNames::H, false);
            },
            0x2C => {
                return self.inc(RegisterNames::L, false);
            },
            0x2D => {
                return self.dec(RegisterNames::L, false);
            },
            0x34 => {
                return self.inc(RegisterNames::HL, true);
            },
            0x35 => {
                return self.dec(RegisterNames::HL, true);
            },
            0x3C => {
                return self.inc(RegisterNames::A, false);
            },
            0x3D => {
                return self.dec(RegisterNames::A, false);
            },
            0x27 => {
                let old_sub = self.registers.is_subtract_flag();
                let a = self.registers.get_register(&RegisterNames::A);
                let carry = self.registers.is_cary_flag();
                let half = self.registers.is_half_cary_flag();
                let (a2, c2) = Engine::daa(a, carry, half, !old_sub);
                self.registers.set_register(&RegisterNames::A, a2);
                self.registers.set_flags(a2 == 0, old_sub, false, c2);
                self.registers.incr_pc(1);
                return 4;
            },
            0x37 => {
                let zero_flag = self.registers.is_zero_flag();
                self.registers.set_flags(zero_flag, false, false, true);
                self.registers.incr_pc(1);
                return 4;
            },
            0x2F => {
                let old_z = self.registers.is_zero_flag();
                let carry = self.registers.is_cary_flag();
                let old_a = self.registers.get_register(&RegisterNames::A);
                self.registers.set_register(&RegisterNames::A, 255 - old_a % 256);
                self.registers.set_flags(old_z, true, true, carry);
                self.registers.incr_pc(1);
                return 4;
            },
            0x3F => {
                let old_z = self.registers.is_zero_flag();
                let carry = self.registers.is_cary_flag();
                self.registers.set_flags(old_z, false, false, !carry);
                self.registers.incr_pc(1);
                return 4;
            },
            0x02 | 0x12 | 0x22 | 0x32 | 0x0A | 0x1A | 0x2A | 0x3A => {
                let memory_loc = match first_byte / 16 {
                    0 => self.registers.get_register(&RegisterNames::BC),
                    1 => self.registers.get_register(&RegisterNames::DE),
                    _ => self.registers.get_register(&RegisterNames::HL),
                };
                if first_byte % 16 == 2 {
                    let aval = self.registers.get_register(&RegisterNames::A);
                    self.memory.set(memory_loc, (aval % 256) as u8);
                } else {
                    let memory_val = self.memory.get(memory_loc);
                    self.registers.set_register(&RegisterNames::A, memory_val as u16);
                }
                match first_byte {
                    0x22 | 0x2A => self.registers.change_register(RegisterNames::HL, 1),
                    0x32 | 0x3A => self.registers.change_register(RegisterNames::HL, -1),
                    _ => {},
                }
                self.registers.incr_pc(1);
                return 8;
            },
            0x08 => {
                let pcv = self.registers.pc;
                let target = self.get_a16(wrap_add16(pcv, 1));
                let spv = self.registers.get_register(&RegisterNames::SP);
                self.memory.setLong(target, spv);
                self.registers.incr_pc(3);
                return 20;
            },
            0x09 | 0x19 | 0x29 | 0x39 => {
                let other_val = match first_byte {
                    0x09 => self.registers.get_register(&RegisterNames::BC),
                    0x19 => self.registers.get_register(&RegisterNames::DE),
                    0x29 => self.registers.get_register(&RegisterNames::HL),
                    _ => self.registers.get_register(&RegisterNames::SP),
                };
                let hl = self.registers.get_register(&RegisterNames::HL);
                let old_z = self.registers.is_zero_flag();
                let t: u32 = hl as u32 + other_val as u32;
                self.registers.set_register(&RegisterNames::HL, (t % 0x10000) as u16);
                self.registers.set_flags(
                    old_z,
                    false,
                    hl % 4096 + other_val % 4096 > 4095,
                    t > 0xFFFF,
                );
                self.registers.incr_pc(1);
                return 8;
            },
            0x10 => {
                self.registers.incr_pc(2);
                return 8;
            },
            0x36 => {
                let memory_loc = self.registers.get_register(&RegisterNames::HL);
                let pcv = self.registers.pc;
                let d8 = self.get_d8(wrap_add16(pcv, 1));
                self.memory.set(memory_loc, d8);
                self.registers.incr_pc(2);
                return 12;
            },
            0x06 | 0x16 | 0x26 | 0x0E | 0x1E | 0x2E | 0x3E => {
                let target_register = match first_byte {
                    0x06 => RegisterNames::B,
                    0x16 => RegisterNames::D,
                    0x26 => RegisterNames::H,
                    0x0E => RegisterNames::C,
                    0x1E => RegisterNames::E,
                    0x2E => RegisterNames::L,
                    _ => RegisterNames::A,
                };
                let pcv = self.registers.pc;
                let source_value = self.get_d8(wrap_add16(pcv, 1));
                self.registers.set_register(&target_register, source_value as u16);
                self.registers.incr_pc(2);
                return 8;
            },
            0x07 => {
                return self.rotate_a(MathNames::RLC);
            },
            0x17 => {
                return self.rotate_a(MathNames::RL);
            },
            0x0F => {
                return self.rotate_a(MathNames::RRC);
            },
            0x1F => {
                return self.rotate_a(MathNames::RR);
            },
            0x18 | 0x20 | 0x28 | 0x30 | 0x38 => {
                let decide_to_jump = match first_byte {
                    0x18 => true,
                    0x20 => !self.registers.is_zero_flag(),
                    0x28 => self.registers.is_zero_flag(),
                    0x30 => !self.registers.is_cary_flag(),
                    _ => self.registers.is_cary_flag(),
                };
                if !decide_to_jump {
                    self.registers.incr_pc(2);
                    return 8;
                } else {
                    let pcv = self.registers.pc;
                    let to_increase = self.get_r8(wrap_add16(pcv, 1));
                    self.registers.incr_pc(to_increase as i32 + 2);
                    return 12;
                }
            },
            _ => {
                // Every opcode below 0x40 is matched above.
                self.registers.incr_pc(1);
                return 16;
            },
        }
    }

    /// Executes one opcode of the load block 0x40..0x7F; 0x76 is HALT.
    #[verifier::rlimit(100)]
    #[verifier::spinoff_prover]
    fn dispatch_ld_block(&mut self, first_byte: u8) -> (r: u32)
        requires
            0x40 <= first_byte < 0x80,
            old(self).wf(),
        ensures
            final(self).wf(),
            4 <= r <= 24,
            plain_advance(first_byte, old(self).registers.f) ==> final(self).registers.pc
                == wrap16(old(self).registers.pc + instr_len(first_byte)),
            r == step_cycles(
                first_byte,
                old(self).memory.read_spec(wrap16(old(self).registers.pc + 1) as u16),
                old(self).registers.f,
            ),
            ({
                let d8 = old(self).memory.read_spec(wrap16(old(self).registers.pc + 1) as u16);
                let a = old(self).registers.a;
                let cin = cary_of(old(self).registers.f);
                let aop = alu_d8_op(first_byte);
                is_alu_d8(first_byte) ==> final(self).registers.a == alu8_res_spec(aop, a, d8, cin)
                    && final(self).registers.f == flags_byte(
                    alu8_z_spec(aop, a, d8, cin),
                    alu8_n_spec(aop),
                    alu8_h_spec(aop, a, d8, cin),
                    alu8_c_spec(aop, a, d8, cin),
                )
            }),
            ({
                let d8 = old(self).memory.read_spec(wrap16(old(self).registers.pc + 1) as u16);
                is_ld_d8(first_byte) ==> *final(self) == (Engine {
                    registers: Registers {
                        pc: wrap16(old(self).registers.pc + 2) as u16,
                        ..old(self).registers.set_spec(ld_d8_target(first_byte), d8 as u16)
                    },
                    ..*old(self)
                })
            }),
            ({
                let a = old(self).registers.a;
                let cin = cary_of(old(self).registers.f);
                let b = alu_operand(*old(self), first_byte);
                let aop = alu_reg_op(first_byte);
                is_alu_reg(first_byte) ==> final(self).registers.a == alu8_res_spec(aop, a, b, cin)
                    && final(self).registers.f == flags_byte(
                    alu8_z_spec(aop, a, b, cin),
                    alu8_n_spec(aop),
                    alu8_h_spec(aop, a, b, cin),
                    alu8_c_spec(aop, a, b, cin),
                )
            }),
            ({
                let a = old(self).registers.a;
                let cin = cary_of(old(self).registers.f);
                let rop = rot_a_op(first_byte);
                is_rot_a(first_byte) ==> final(self).registers.a == alu8_res_spec(rop, a, 0, cin)
                    && final(self).registers.f == flags_byte(
                    false,
                    false,
                    false,
                    alu8_c_spec(rop, a, 0, cin),
                )
            }),
            final(self).enable_interrupt == ime_after(first_byte, old(self).enable_interrupt),
            ({
                let hl = old(self).registers.get_spec(RegisterNames::HL);
                let rr = old(self).registers.get_spec(add_hl_src(first_byte));
                is_add_hl(first_byte) ==> final(self).memory == old(self).memory
                    && final(self).registers == (Registers {
                    pc: wrap16(old(self).registers.pc + 1) as u16,
                    f: flags_byte(
                        zero_of(old(self).registers.f),
                        false,
                        hl % 4096 + rr % 4096 > 4095,
                        hl + rr > 65535,
                    ),
                    ..old(self).registers.set_spec(RegisterNames::HL, ((hl + rr) % 0x10000) as u16)
                })
            }),
            ({
                let target = incdec_target(first_byte);
                let aop = if first_byte % 8 == 4 {
                    MathNames::ADD
                } else {
                    MathNames::SUB
                };
                let a = (old(self).registers.get_spec(target) % 256) as u8;
                is_incdec_reg(first_byte) ==> final(self).memory == old(self).memory
                    && final(self).registers == (Registers {
                    pc: wrap16(old(self).registers.pc + 1) as u16,
                    f: flags_byte(
                        alu8_z_spec(aop, a, 1, false),
                        alu8_n_spec(aop),
                        alu8_h_spec(aop, a, 1, false),
                        cary_of(old(self).registers.f),
                    ),
                    ..old(self).registers.set_spec(target, alu8_res_spec(aop, a, 1, false) as u16)
                })
            }),
            is_undocumented(first_byte) ==> final(self).memory == old(self).memory
                && final(self).registers == (Registers {
                pc: wrap16(old(self).registers.pc + 1) as u16,
                ..old(self).registers
            }),
            ({
                let pc = old(self).registers.pc;
                let sp = old(self).registers.sp;
                let s2 = wrap16(sp - 2) as u16;
                let s1 = wrap16(sp - 1) as u16;
                (is_rst(first_byte) && s2 >= 0x8000 && s1 >= 0x8000 && (0xA000 <= fold_echo(s2)
                    < 0xC000 ==> old(self).memory.ram_accessible()) && (0xA000 <= fold_echo(s1)
                    < 0xC000 ==> old(self).memory.ram_accessible())) ==> {
                    &&& final(self).registers.sp == s2
                    &&& final(self).registers.pc == rst_vector(first_byte)
                    &&& final(self).memory.read_spec(s2) == wrap16(pc + 1) % 256
                    &&& final(self).memory.read_spec(s1) == (wrap16(pc + 1) as int) / 256
                }
            }),
    {
        let second_nibble = first_byte % 8;
        let resolved_second_register = if second_nibble == 0 {
            RegisterNames::B
        } else if second_nibble == 1 {
            RegisterNames::C
        } else if second_nibble == 2 {
            RegisterNames::D
        } else if second_nibble == 3 {
            RegisterNames::E
        } else if second_nibble == 4 {
            RegisterNames::H
        } else if second_nibble == 5 {
            RegisterNames::L
        } else if second_nibble == 6 {
            RegisterNames::HL
        } else {
            RegisterNames::A
        };

        if first_byte == 0x76 {
            self.registers.incr_pc(1);
            if self.enable_interrupt == InterruptState::DISABLED {
                self.enable_interrupt = InterruptState::HALT_NO_INTERRUPT;
            } else {
                self.enable_interrupt = InterruptState::HALT;
            }
            return 4;
        }
        let row = first_byte / 8;
        let resolved_first_register = if row == 8 {
            RegisterNames::B
        } else if row == 9 {
            RegisterNames::C
        } else if row == 10 {
            RegisterNames::D
        } else if row == 11 {
            RegisterNames::E
        } else if row == 12 {
            RegisterNames::H
        } else if row == 13 {
            RegisterNames::L
        } else if row == 14 {
            RegisterNames::HL
        } else {
            RegisterNames::A
        };
        let mut initial = self.registers.get_register(&resolved_second_register);
        if resolved_second_register == RegisterNames::HL {
            initial = self.memory.get(initial) as u16;
        }
        if resolved_first_register == RegisterNames::HL {
            let hl_val = self.registers.get_register(&RegisterNames::HL);
            self.memory.set(hl_val, (initial % 256) as u8);
        } else {
            self.registers.set_register(&resolved_first_register, initial);
        }
        self.registers.incr_pc(1);
        if resolved_first_register == RegisterNames::HL || resolved_second_register
            == RegisterNames::HL {
            return 8;
        }
        return 4;
    }

    /// Executes one opcode of the register-operand ALU block 0x80..0xBF,
    /// deriving the family clauses none of its opcodes can trigger.
    #[verifier::rlimit(100)]
    #[verifier::spinoff_prover]
    fn dispatch_alu_block(&mut self, first_byte: u8) -> (r: u32)
        requires
            0x80 <= first_byte < 0xC0,
            old(self).wf(),
        ensures
            final(self).wf(),
            4 <= r <= 24,
            plain_advance(first_byte, old(self).registers.f) ==> final(self).registers.pc
                == wrap16(old(self).registers.pc + instr_len(first_byte)),
            r == step_cycles(
                first_byte,
                old(self).memory.read_spec(wrap16(old(self).registers.pc + 1) as u16),
                old(self).registers.f,
            ),
            ({
                let d8 = old(self).memory.read_spec(wrap16(old(self).registers.pc + 1) as u16);
                let a = old(self).registers.a;
                let cin = cary_of(old(self).registers.f);
                let aop = alu_d8_op(first_byte);
                is_alu_d8(first_byte) ==> final(self).registers.a == alu8_res_spec(aop, a, d8, cin)
                    && final(self).registers.f == flags_byte(
                    alu8_z_spec(aop, a, d8, cin),
                    alu8_n_spec(aop),
                    alu8_h_spec(aop, a, d8, cin),
                    alu8_c_spec(aop, a, d8, cin),
                )
            }),
            ({
                let d8 = old(self).memory.read_spec(wrap16(old(self).registers.pc + 1) as u16);
                is_ld_d8(first_byte) ==> *final(self) == (Engine {
                    registers: Registers {
                        pc: wrap16(old(self).registers.pc + 2) as u16,
                        ..old(self).registers.set_spec(ld_d8_target(first_byte), d8 as u16)
                    },
                    ..*old(self)
                })
            }),
            ({
                let a = old(self).registers.a;
                let cin = cary_of(old(self).registers.f);
                let b = alu_operand(*old(self), first_byte);
                let aop = alu_reg_op(first_byte);
                is_alu_reg(first_byte) ==> final(self).registers.a == alu8_res_spec(aop, a, b, cin)
                    && final(self).registers.f == flags_byte(
                    alu8_z_spec(aop, a, b, cin),
                    alu8_n_spec(aop),
                    alu8_h_spec(aop, a, b, cin),
                    alu8_c_spec(aop, a, b, cin),
                )
            }),
            ({
                let a = old(self).registers.a;
                let cin = cary_of(old(self).registers.f);
                let rop = rot_a_op(first_byte);
                is_rot_a(first_byte) ==> final(self).registers.a == alu8_res_spec(rop, a, 0, cin)
                    && final(self).registers.f == flags_byte(
                    false,
                    false,
                    false,
                    alu8_c_spec(rop, a, 0, cin),
                )
            }),
            final(self).enable_interrupt == ime_after(first_byte, old(self).enable_interrupt),
            ({
                let hl = old(self).registers.get_spec(RegisterNames::HL);
                let rr = old(self).registers.get_spec(add_hl_src(first_byte));
                is_add_hl(first_byte) ==> final(self).memory == old(self).memory
                    && final(self).registers == (Registers {
                    pc: wrap16(old(self).registers.pc + 1) as u16,
                    f: flags_byte(
                        zero_of(old(self).registers.f),
                        false,
                        hl % 4096 + rr % 4096 > 4095,
                        hl + rr > 65535,
                    ),
                    ..old(self).registers.set_spec(RegisterNames::HL, ((hl + rr) % 0x10000) as u16)
                })
            }),
            ({
                let target = incdec_target(first_byte);
                let aop = if first_byte % 8 == 4 {
                    MathNames::ADD
                } else {
                    MathNames::SUB
                };
                let a = (old(self).registers.get_spec(target) % 256) as u8;
                is_incdec_reg(first_byte) ==> final(self).memory == old(self).memory
                    && final(self).registers == (Registers {
                    pc: wrap16(old(self).registers.pc + 1) as u16,
                    f: flags_byte(
                        alu8_z_spec(aop, a, 1, false),
                        alu8_n_spec(aop),
                        alu8_h_spec(aop, a, 1, false),
                        cary_of(old(self).registers.f),
                    ),
                    ..old(self).registers.set_spec(target, alu8_res_spec(aop, a, 1, false) as u16)
                })
            }),
            is_undocumented(first_byte) ==> final(self).memory == old(self).memory
                && final(self).registers == (Registers {
                pc: wrap16(old(self).registers.pc + 1) as u16,
                ..old(self).registers
            }),
            ({
                let pc = old(self).registers.pc;
                let sp = old(self).registers.sp;
                let s2 = wrap16(sp - 2) as u16;
                let s1 = wrap16(sp - 1) as u16;
                (is_rst(first_byte) && s2 >= 0x8000 && s1 >= 0x8000 && (0xA000 <= fold_echo(s2)
                    < 0xC000 ==> old(self).memory.ram_accessible()) && (0xA000 <= fold_echo(s1)
                    < 0xC000 ==> old(self).memory.ram_accessible())) ==> {
                    &&& final(self).registers.sp == s2
                    &&& final(self).registers.pc == rst_vector(first_byte)
                    &&& final(self).memory.read_spec(s2) == wrap16(pc + 1) % 256
                    &&& final(self).memory.read_spec(s1) == (wrap16(pc + 1) as int) / 256
                }
            }),
    {
        proof {
            assert(!is_add_hl(first_byte) && !is_incdec_reg(first_byte) && !is_undocumented(
                first_byte,
            ) && ime_after(first_byte, old(self).enable_interrupt) == old(
                self,
            ).enable_interrupt);
        }
        self.dispatch_alu_body(first_byte)
    }

    /// The shared body of the ALU block: resolves the operand (register
    /// or (HL)), applies the operation to A, and advances PC.
    #[verifier::rlimit(100)]
    #[verifier::spinoff_prover]
    fn dispatch_alu_body(&mut self, first_byte: u8) -> (r: u32)
        requires
            0x80 <= first_byte < 0xC0,
            old(self).wf(),
        ensures
            final(self).wf(),
            4 <= r <= 24,
            plain_advance(first_byte, old(self).registers.f) ==> final(self).registers.pc
                == wrap16(old(self).registers.pc + instr_len(first_byte)),
            r == step_cycles(
                first_byte,
                old(self).memory.read_spec(wrap16(old(self).registers.pc + 1) as u16),
                old(self).registers.f,
            ),
            ({
                let d8 = old(self).memory.read_spec(wrap16(old(self).registers.pc + 1) as u16);
                let a = old(self).registers.a;
                let cin = cary_of(old(self).registers.f);
                let aop = alu_d8_op(first_byte);
                is_alu_d8(first_byte) ==> final(self).registers.a == alu8_res_spec(aop, a, d8, cin)
                    && final(self).registers.f == flags_byte(
                    alu8_z_spec(aop, a, d8, cin),
                    alu8_n_spec(aop),
                    alu8_h_spec(aop, a, d8, cin),
                    alu8_c_spec(aop, a, d8, cin),
                )
            }),
            ({
                let d8 = old(self).memory.read_spec(wrap16(old(self).registers.pc + 1) as u16);
                is_ld_d8(first_byte) ==> *final(self) == (Engine {
                    registers: Registers {
                        pc: wrap16(old(self).registers.pc + 2) as u16,
                        ..old(self).registers.set_spec(ld_d8_target(first_byte), d8 as u16)
                    },
                    ..*old(self)
                })
            }),
            ({
                let a = old(self).registers.a;
                let cin = cary_of(old(self).registers.f);
                let b = alu_operand(*old(self), first_byte);
                let aop = alu_reg_op(first_byte);
                is_alu_reg(first_byte) ==> final(self).registers.a == alu8_res_spec(aop, a, b, cin)
                    && final(self).registers.f == flags_byte(
                    alu8_z_spec(aop, a, b, cin),
                    alu8_n_spec(aop),
                    alu8_h_spec(aop, a, b, cin),
                    alu8_c_spec(aop, a, b, cin),
                )
            }),
            ({
                let a = old(self).registers.a;
                let cin = cary_of(old(self).registers.f);
                let rop = rot_a_op(first_byte);
                is_rot_a(first_byte) ==> final(self).registers.a == alu8_res_spec(rop, a, 0, cin)
                    && final(self).registers.f == flags_byte(
                    false,
                    false,
                    false,
                    alu8_c_spec(rop, a, 0, cin),
                )
            }),
            ({
                let pc = old(self).registers.pc;
                let sp = old(self).registers.sp;
                let s2 = wrap16(sp - 2) as u16;
                let s1 = wrap16(sp - 1) as u16;
                (is_rst(first_byte) && s2 >= 0x8000 && s1 >= 0x8000 && (0xA000 <= fold_echo(s2)
                    < 0xC000 ==> old(self).memory.ram_accessible()) && (0xA000 <= fold_echo(s1)
                    < 0xC000 ==> old(self).memory.ram_accessible())) ==> {
                    &&& final(self).registers.sp == s2
                    &&& final(self).registers.pc == rst_vector(first_byte)
                    &&& final(self).memory.read_spec(s2) == wrap16(pc + 1) % 256
                    &&& final(self).memory.read_spec(s1) == (wrap16(pc + 1) as int) / 256
                }
            }),
            final(self).enable_interrupt == old(self).enable_interrupt,
    {
        let second_nibble = first_byte % 8;
        let resolved_second_register = if second_nibble == 0 {
            RegisterNames::B
        } else if second_nibble == 1 {
            RegisterNames::C
        } else if second_nibble == 2 {
            RegisterNames::D
        } else if second_nibble == 3 {
            RegisterNames::E
        } else if second_nibble == 4 {
            RegisterNames::H
        } else if second_nibble == 5 {
            RegisterNames::L
        } else if second_nibble == 6 {
            RegisterNames::HL
        } else {
            RegisterNames::A
        };
        let other_value = self.get_register_or_hl(&resolved_second_register);
        let row = first_byte / 8;
        let math_type = if row == 16 {
            MathNames::ADD
        } else if row == 17 {
            MathNames::ADDC
        } else if row == 18 {
            MathNames::SUB
        } else if row == 19 {
            MathNames::SUBC
        } else if row == 20 {
            MathNames::AND
        } else if row == 21 {
            MathNames::XOR
        } else if row == 22 {
            MathNames::OR
        } else {
            MathNames::CP
        };
        proof {
            assert(math_type == alu_reg_op(first_byte));
            assert(other_value == alu_operand(*old(self), first_byte) as u16);
        }
        self.math_to_a(math_type, other_value);
        self.registers.incr_pc(1);
        if second_nibble == 6 {
            return 8;
        }
        return 4;
    }

    /// Executes one primary opcode at or above 0xC0: stack operations,
    /// jumps, calls, returns, RST, the CB prefix, the high-page loads and
    /// the interrupt-enable instructions.
    #[verifier::rlimit(100)]
    #[verifier::spinoff_prover]
    fn dispatch_control(&mut self, first_byte: u8) -> (r: u32)
        requires
            first_byte >= 0xC0,
            old(self).wf(),
        ensures
            final(self).wf(),
            4 <= r <= 24,
            plain_advance(first_byte, old(self).registers.f) ==> final(self).registers.pc
                == wrap16(old(self).registers.pc + instr_len(first_byte)),
            r == step_cycles(
                first_byte,
                old(self).memory.read_spec(wrap16(old(self).registers.pc + 1) as u16),
                old(self).registers.f,
            ),
            ({
                let d8 = old(self).memory.read_spec(wrap16(old(self).registers.pc + 1) as u16);
                let a = old(self).registers.a;
                let cin = cary_of(old(self).registers.f);
                let aop = alu_d8_op(first_byte);
                is_alu_d8(first_byte) ==> final(self).registers.a == alu8_res_spec(aop, a, d8, cin)
                    && final(self).registers.f == flags_byte(
                    alu8_z_spec(aop, a, d8, cin),
                    alu8_n_spec(aop),
                    alu8_h_spec(aop, a, d8, cin),
                    alu8_c_spec(aop, a, d8, cin),
                )
            }),
            ({
                let d8 = old(self).memory.read_spec(wrap16(old(self).registers.pc + 1) as u16);
                is_ld_d8(first_byte) ==> *final(self) == (Engine {
                    registers: Registers {
                        pc: wrap16(old(self).registers.pc + 2) as u16,
                        ..old(self).registers.set_spec(ld_d8_target(first_byte), d8 as u16)
                    },
                    ..*old(self)
                })
            }),
            ({
                let a = old(self).registers.a;
                let cin = cary_of(old(self).registers.f);
                let b = alu_operand(*old(self), first_byte);
                let aop = alu_reg_op(first_byte);
                is_alu_reg(first_byte) ==> final(self).registers.a == alu8_res_spec(aop, a, b, cin)
                    && final(self).registers.f == flags_byte(
                    alu8_z_spec(aop, a, b, cin),
                    alu8_n_spec(aop),
                    alu8_h_spec(aop, a, b, cin),
                    alu8_c_spec(aop, a, b, cin),
                )
            }),
            ({
                let a = old(self).registers.a;
                let cin = cary_of(old(self).registers.f);
                let rop = rot_a_op(first_byte);
                is_rot_a(first_byte) ==> final(self).registers.a == alu8_res_spec(rop, a, 0, cin)
                    && final(self).registers.f == flags_byte(
                    false,
                    false,
                    false,
                    alu8_c_spec(rop, a, 0, cin),
                )
            }),
            final(self).enable_interrupt == ime_after(first_byte, old(self).enable_interrupt),
            ({
                let hl = old(self).registers.get_spec(RegisterNames::HL);
                let rr = old(self).registers.get_spec(add_hl_src(first_byte));
                is_add_hl(first_byte) ==> final(self).memory == old(self).memory
                    && final(self).registers == (Registers {
                    pc: wrap16(old(self).registers.pc + 1) as u16,
                    f: flags_byte(
                        zero_of(old(self).registers.f),
                        false,
                        hl % 4096 + rr % 4096 > 4095,
                        hl + rr > 65535,
                    ),
                    ..old(self).registers.set_spec(RegisterNames::HL, ((hl + rr) % 0x10000) as u16)
                })
            }),
            ({
                let target = incdec_target(first_byte);
                let aop = if first_byte % 8 == 4 {
                    MathNames::ADD
                } else {
                    MathNames::SUB
                };
                let a = (old(self).registers.get_spec(target) % 256) as u8;
                is_incdec_reg(first_byte) ==> final(self).memory == old(self).memory
                    && final(self).registers == (Registers {
                    pc: wrap16(old(self).registers.pc + 1) as u16,
                    f: flags_byte(
                        alu8_z_spec(aop, a, 1, false),
                        alu8_n_spec(aop),
                        alu8_h_spec(aop, a, 1, false),
                        cary_of(old(self).registers.f),
                    ),
                    ..old(self).registers.set_spec(target, alu8_res_spec(aop, a, 1, false) as u16)
                })
            }),
            is_undocumented(first_byte) ==> final(self).memory == old(self).memory
                && final(self).registers == (Registers {
                pc: wrap16(old(self).registers.pc + 1) as u16,
                ..old(self).registers
            }),
            ({
                let pc = old(self).registers.pc;
                let sp = old(self).registers.sp;
                let s2 = wrap16(sp - 2) as u16;
                let s1 = wrap16(sp - 1) as u16;
                (is_rst(first_byte) && s2 >= 0x8000 && s1 >= 0x8000 && (0xA000 <= fold_echo(s2)
                    < 0xC000 ==> old(self).memory.ram_accessible()) && (0xA000 <= fold_echo(s1)
                    < 0xC000 ==> old(self).memory.ram_accessible())) ==> {
                    &&& final(self).registers.sp == s2
                    &&& final(self).registers.pc == rst_vector(first_byte)
                    &&& final(self).memory.read_spec(s2) == wrap16(pc + 1) % 256
                    &&& final(self).memory.read_spec(s1) == (wrap16(pc + 1) as int) / 256
                }
            }),
    {
        match first_byte {
            0xC0 | 0xC8 | 0xC9 | 0xD0 | 0xD8 | 0xD9 => {
                let decide_to_jump = match first_byte {
                    0xC9 | 0xD9 => true,
                    0xC0 => !self.registers.is_zero_flag(),
                    0xC8 => self.registers.is_zero_flag(),
                    0xD0 => !self.registers.is_cary_flag(),
                    _ => self.registers.is_cary_flag(),
                };
                if first_byte == 0xD9 {
                    self.enable_interrupt = InterruptState::ENABLED;
                }
                self.registers.incr_pc(1);
                if !decide_to_jump {
                    return 8;
                } else {
                    let new_pc = self.memory.pop_stack(&mut self.registers);
                    self.registers.set_register(&RegisterNames::PC, new_pc);
                    if first_byte == 0xC9 || first_byte == 0xD9 {
                        return 16;
                    } else {
                        return 20;
                    }
                }
            },
            0xC1 | 0xC5 | 0xD1 | 0xD5 | 0xE1 | 0xE5 | 0xF1 | 0xF5 => {
                let reg = match first_byte {
                    0xC1 | 0xC5 => RegisterNames::BC,
                    0xD1 | 0xD5 => RegisterNames::DE,
                    0xE1 | 0xE5 => RegisterNames::HL,
                    _ => RegisterNames::AF,
                };
                self.registers.incr_pc(1);
                if first_byte % 16 == 1 {
                    let new_reg = self.memory.pop_stack(&mut self.registers);
                    self.registers.set_register(&reg, new_reg);
                    return 12;
                } else {
                    let register_val = self.registers.get_register(&reg);
                    self.memory.push_stack(&mut self.registers, register_val);
                    return 16;
                }
            },
            0xC2 | 0xCA | 0xD2 | 0xDA => {
                let decide_to_jump = match first_byte {
                    0xC2 => !self.registers.is_zero_flag(),
                    0xCA => self.registers.is_zero_flag(),
                    0xD2 => !self.registers.is_cary_flag(),
                    _ => self.registers.is_cary_flag(),
                };
                let pcv = self.registers.pc;
                let a16 = self.get_a16(wrap_add16(pcv, 1));
                self.registers.incr_pc(3);
                if !decide_to_jump {
                    return 12;
                }
                self.registers.set_register(&RegisterNames::PC, a16);
                return 16;
            },
            0xC3 => {
                let pcv = self.registers.pc;
                let target = self.get_a16(wrap_add16(pcv, 1));
                self.registers.set_register(&RegisterNames::PC, target);
                return 16;
            },
            0xE9 => {
                let target = self.registers.get_register(&RegisterNames::HL);
                self.registers.set_register(&RegisterNames::PC, target);
                return 4;
            },
            0xCB => {
                return self.run_cb();
            },
            0xC4 | 0xCC | 0xCD | 0xD4 | 0xDC => {
                let decide_to_jump = match first_byte {
                    0xCD => true,
                    0xC4 => !self.registers.is_zero_flag(),
                    0xCC => self.registers.is_zero_flag(),
                    0xD4 => !self.registers.is_cary_flag(),
                    _ => self.registers.is_cary_flag(),
                };
                let pcv = self.registers.pc;
                let a16 = self.get_a16(wrap_add16(pcv, 1));
                self.registers.incr_pc(3);
                if !decide_to_jump {
                    return 12;
                }
                let old_pc = self.registers.get_register(&RegisterNames::PC);
                self.memory.push_stack(&mut self.registers, old_pc);
                self.registers.set_register(&RegisterNames::PC, a16);
                return 24;
            },
            0xC6 | 0xCE | 0xD6 | 0xDE | 0xE6 | 0xEE | 0xF6 | 0xFE => {
                let math_type = match first_byte {
                    0xC6 => MathNames::ADD,
                    0xCE => MathNames::ADDC,
                    0xD6 => MathNames::SUB,
                    0xDE => MathNames::SUBC,
                    0xE6 => MathNames::AND,
                    0xEE => MathNames::XOR,
                    0xF6 => MathNames::OR,
                    _ => MathNames::CP,
                };
                let pcv = self.registers.pc;
                let other_value = self.get_d8(wrap_add16(pcv, 1)) as u16;
                self.math_to_a(math_type, other_value);
                self.registers.incr_pc(2);
                return 8;
            },
            0xC7 | 0xCF | 0xD7 | 0xDF | 0xE7 | 0xEF | 0xF7 | 0xFF => {
                let ghost m_pre = self.memory;
                let pcv = self.registers.pc;
                let old_pc = wrap_add16(pcv, 1);
                self.memory.push_stack(&mut self.registers, old_pc);
                let new_pc: u16 = match first_byte {
                    0xC7 => 0x0000,
                    0xCF => 0x0008,
                    0xD7 => 0x0010,
                    0xDF => 0x0018,
                    0xE7 => 0x0020,
                    0xEF => 0x0028,
                    0xF7 => 0x0030,
                    _ => 0x0038,
                };
                self.registers.set_register(&RegisterNames::PC, new_pc);
                proof {
                    let sp = old(self).registers.sp;
                    let s2 = wrap16(sp - 2) as u16;
                    let s1 = wrap16(sp - 1) as u16;
                    let lo = (old_pc % 256) as u8;
                    let hi = (old_pc / 256) as u8;
                    if s2 >= 0x8000 && s1 >= 0x8000 && (0xA000 <= fold_echo(s2) < 0xC000
                        ==> old(self).memory.ram_accessible()) && (0xA000 <= fold_echo(s1) < 0xC000
                        ==> old(self).memory.ram_accessible()) {
                        let mid = choose|mid: Memory|
                            mid.wf() && #[trigger] Memory::write_rel(m_pre, mid, s2, lo)
                                && Memory::write_rel(mid, self.memory, s1, hi);
                        lemma_read_after_write(m_pre, mid, s2, lo, s2);
                        lemma_read_after_write(mid, self.memory, s1, hi, s2);
                        lemma_read_after_write(mid, self.memory, s1, hi, s1);
                    }
                }
                return 16;
            },
            0xE0 => {
                let pcv = self.registers.pc;
                let target = self.get_d8(wrap_add16(pcv, 1)) as u16 + 0xFF00;
                let aval = self.registers.get_register(&RegisterNames::A);
                self.memory.set(target, (aval % 256) as u8);
                self.registers.incr_pc(2);
                return 12;
            },
            0xE2 => {
                let target = self.registers.get_register(&RegisterNames::C) + 0xFF00;
                let aval = self.registers.get_register(&RegisterNames::A);
                self.memory.set(target, (aval % 256) as u8);
                self.registers.incr_pc(1);
                return 8;
            },
            0xE8 => {
                let pcv = self.registers.pc;
                let b = self.get_d8(wrap_add16(pcv, 1));
                let spv = self.registers.get_register(&RegisterNames::SP);
                let e: i32 = if b < 128 {
                    b as i32
                } else {
                    b as i32 - 256
                };
                let t: i32 = spv as i32 + e;
                let w: i32 = if t < 0 {
                    t + 0x10000
                } else if t >= 0x10000 {
                    t - 0x10000
                } else {
                    t
                };
                self.registers.set_register(&RegisterNames::SP, w as u16);
                self.registers.set_flags(
                    false,
                    false,
                    spv % 16 + (b % 16) as u16 > 15,
                    spv % 256 + b as u16 > 255,
                );
                self.registers.incr_pc(2);
                return 16;
            },
            0xEA => {
                let pcv = self.registers.pc;
                let target = self.get_a16(wrap_add16(pcv, 1));
                let aval = self.registers.get_register(&RegisterNames::A);
                self.memory.set(target, (aval % 256) as u8);
                self.registers.incr_pc(3);
                return 16;
            },
            0xF0 => {
                let pcv = self.registers.pc;
                let target = self.get_d8(wrap_add16(pcv, 1)) as u16 + 0xFF00;
                let res = self.memory.get(target);
                self.registers.set_register(&RegisterNames::A, res as u16);
                self.registers.incr_pc(2);
                return 12;
            },
            0xF2 => {
                let loc = self.registers.get_register(&RegisterNames::C) + 0xFF00;
                let target = self.memory.get(loc);
                self.registers.set_register(&RegisterNames::A, target as u16);
                self.registers.incr_pc(1);
                return 8;
            },
            0xF3 => {
                self.enable_interrupt = InterruptState::DISABLED;
                self.registers.incr_pc(1);
                return 4;
            },
            0xFB => {
                self.enable_interrupt = InterruptState::ENABLED_NEXT_OP;
                self.registers.incr_pc(1);
                return 4;
            },
            0xF8 => {
                let pcv = self.registers.pc;
                let b = self.get_d8(wrap_add16(pcv, 1));
                let spv = self.registers.get_register(&RegisterNames::SP);
                let e: i32 = if b < 128 {
                    b as i32
                } else {
                    b as i32 - 256
                };
                let t: i32 = spv as i32 + e;
                let w: i32 = if t < 0 {
                    t + 0x10000
                } else if t >= 0x10000 {
                    t - 0x10000
                } else {
                    t
                };
                self.registers.set_register(&RegisterNames::HL, w as u16);
                self.registers.set_flags(
                    false,
                    false,
                    spv % 16 + (b % 16) as u16 > 15,
                    spv % 256 + b as u16 > 255,
                );
                self.registers.incr_pc(2);
                return 12;
            },
            0xF9 => {
                let target = self.registers.get_register(&RegisterNames::HL);
                self.registers.set_register(&RegisterNames::SP, target);
                self.registers.incr_pc(1);
                return 8;
            },
            0xFA => {
                let pcv = self.registers.pc;
                let target = self.get_a16(wrap_add16(pcv, 1));
                let res = self.memory.get(target);
                self.registers.set_register(&RegisterNames::A, res as u16);
                self.registers.incr_pc(3);
                return 16;
            },
            _ => {
                // An opcode the SM83 does not document: skip it and move on.
                self.registers.incr_pc(1);
                return 16;
            },
        }
    }

    /// Runs a bounded number of instructions, advancing the PPU and the
    /// timer by each instruction's cycle count; returns the total cycles.
    /// The contract says exactly that: `itrs` orchestrator steps lead from
    /// the old state to the final one (`steps_rel`), each coupling the
    /// subsystems through one shared cycle count, and the result is their
    /// sum.
    pub fn run_limited(&mut self, itrs: u64) -> (r: u64)
        requires
            old(self).wf(),
            itrs <= 0x0100_0000_0000_0000,
        ensures
            final(self).wf(),
            steps_rel(*old(self), *final(self), itrs as int, r as int),
            4 * itrs <= r <= 24 * itrs,
    {
        let mut total_steps: u64 = 0;
        let mut i: u64 = 0;
        while i < itrs
            invariant
                self.wf(),
                i <= itrs,
                itrs <= 0x0100_0000_0000_0000,
                4 * i <= total_steps <= 24 * i,
                steps_rel(*old(self), *self, i as int, total_steps as int),
            decreases itrs - i,
        {
            let ghost pre_iter = *self;
            let wait_time = self.execute_next_instruction();
            let ghost e1 = *self;
            self.gpu.tick(&mut self.memory, wait_time);
            let ghost e2 = *self;
            self.clock.tick(&mut self.memory, wait_time);
            proof {
                assert(cpu_step_rel(pre_iter, e1, wait_time));
                assert(gpu_engine_rel(e1, e2, wait_time));
                assert(clock_engine_rel(e2, *self, wait_time));
                assert(step_rel(pre_iter, *self, wait_time));
                assert(steps_rel(*old(self), *self, i + 1, total_steps + wait_time));
                assert((i + 1) * 24 == i * 24 + 24) by (nonlinear_arith);
                assert((i + 1) * 4 == i * 4 + 4) by (nonlinear_arith);
                assert(i + 1 <= 0x0100_0000_0000_0000 ==> (i + 1) * 24 <= 0x1800_0000_0000_0000)
                    by (nonlinear_arith);
            }
            total_steps = total_steps + wait_time as u64;
            i = i + 1;
        }
        total_steps
    }
}

/// Builds a machine around a cartridge image: the bus for its controller,
/// boot-state registers, interrupts disabled, a fresh PPU and timer, and
/// LCDC set to 0x91 as the boot ROM leaves it.
pub fn make_engine(rom: Vec<u8>) -> (r: Result<Engine, MemoryError>)
    ensures
        r is Ok <==> rom@.len() > 0x147 && header_kind_supported(rom@[0x147]),
        r is Err ==> r == Result::<Engine, MemoryError>::Err(MemoryError::UnsupportedCartridge),
        r is Ok ==> ({
            let eng = r.unwrap();
            &&& eng.wf()
            &&& eng.registers == (Registers {
                pc: 0x100u16,
                sp: 0xFFFEu16,
                a: 0x11u8,
                b: 0u8,
                c: 0u8,
                d: 0u8,
                e: 0x08u8,
                f: 0x80u8,
                h: 0u8,
                l: 0x7Cu8,
            })
            &&& eng.enable_interrupt == InterruptState::DISABLED
            &&& eng.clock.time == 0 && eng.clock.div_clock == 0
            &&& eng.buttons.row1 == 0xF && eng.buttons.row2 == 0xF
            &&& eng.gpu.mode == crate::gpu::GpuState::H_BLANK && eng.gpu.line == 0 && eng.gpu.time
                == 0
            &&& eng.gpu.time_to_draw
            &&& eng.gpu.lcd@ == Seq::<u8>::new(23040, |i: int| 0u8)
            &&& exists|m0: Memory|
                #[trigger] fresh_memory(m0, rom@) && Memory::write_rel(m0, eng.memory, 0xFF40, 0x91)
        }),
{
    match make_memory(rom) {
        Result::Err(e) => Result::Err(e),
        Result::Ok(mut memory) => {
            let ghost m0 = memory;
            memory.set(0xFF40, 0x91);
            proof {
                assert(fresh_memory(m0, rom@) && Memory::write_rel(m0, memory, 0xFF40, 0x91));
            }
            Result::Ok(
                Engine {
                    memory,
                    registers: Registers::make_registers(),
                    enable_interrupt: InterruptState::DISABLED,
                    gpu: GPU::make_gpu(),
                    clock: Clock::make_clock(),
                    buttons: ButtonState::create(),
                },
            )
        },
    }
}

} // verus!
