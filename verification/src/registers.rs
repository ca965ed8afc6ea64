//! The SM83 register file: eight 8-bit registers viewable as four 16-bit
//! pairs, plus the 16-bit PC and SP.  The flag byte F keeps its low nibble
//! zero at every write.

use vstd::prelude::*;

verus! {

/// Wraps an integer into the 16-bit range.  The piecewise form is exact for
/// every argument within one wrap of the range, which covers all uses here.
pub open spec fn wrap16(x: int) -> int {
    if x < 0 {
        x + 0x10000
    } else if x >= 0x10000 {
        x - 0x10000
    } else {
        x
    }
}

/// Flag byte layout: bit 7 zero, bit 6 subtract, bit 5 half-carry, bit 4
/// carry; the low nibble is always zero.
pub open spec fn flags_byte(zero: bool, subtract: bool, half_cary: bool, cary: bool) -> u8 {
    ((if zero { 128int } else { 0int }) + (if subtract { 64int } else { 0int })
        + (if half_cary { 32int } else { 0int }) + (if cary { 16int } else { 0int })) as u8
}

pub open spec fn zero_of(f: u8) -> bool {
    f / 128 % 2 == 1
}

pub open spec fn subtract_of(f: u8) -> bool {
    f / 64 % 2 == 1
}

pub open spec fn half_cary_of(f: u8) -> bool {
    f / 32 % 2 == 1
}

pub open spec fn cary_of(f: u8) -> bool {
    f / 16 % 2 == 1
}

/// Each flag query reads back exactly the flag that `flags_byte` packed.
pub proof fn lemma_flags_byte_bits(zero: bool, subtract: bool, half_cary: bool, cary: bool)
    ensures
        zero_of(flags_byte(zero, subtract, half_cary, cary)) == zero,
        subtract_of(flags_byte(zero, subtract, half_cary, cary)) == subtract,
        half_cary_of(flags_byte(zero, subtract, half_cary, cary)) == half_cary,
        cary_of(flags_byte(zero, subtract, half_cary, cary)) == cary,
{
    let zb: u8 = if zero { 1 } else { 0 };
    let nb: u8 = if subtract { 1 } else { 0 };
    let hb: u8 = if half_cary { 1 } else { 0 };
    let cb: u8 = if cary { 1 } else { 0 };
    assert(flags_byte(zero, subtract, half_cary, cary) == zb * 128 + nb * 64 + hb * 32 + cb * 16);
    assert(zb <= 1 && nb <= 1 && hb <= 1 && cb <= 1 ==> {
        let f = zb * 128 + nb * 64 + hb * 32 + cb * 16;
        (f / 128 % 2 == 1 <==> zb == 1) && (f / 64 % 2 == 1 <==> nb == 1)
            && (f / 32 % 2 == 1 <==> hb == 1) && (f / 16 % 2 == 1 <==> cb == 1)
    }) by (bit_vector);
}

#[derive(Debug, Clone, Copy)]
pub struct Registers {
    pub pc: u16,
    pub sp: u16,
    pub a: u8,
    pub b: u8,
    pub c: u8,
    pub d: u8,
    pub e: u8,
    pub f: u8,
    pub h: u8,
    pub l: u8,
}

#[derive(Debug, Clone, Copy, PartialEq, Eq, Structural)]
pub enum RegisterNames {
    A,
    B,
    C,
    D,
    E,
    F,
    H,
    L,
    AF,
    BC,
    DE,
    HL,
    PC,
    SP,
}

impl Registers {
    /// The value a read of the given register returns; pairs combine the
    /// high register times 256 with the low register.
    pub open spec fn get_spec(self, register: RegisterNames) -> u16 {
        match register {
            RegisterNames::A => self.a as u16,
            RegisterNames::B => self.b as u16,
            RegisterNames::C => self.c as u16,
            RegisterNames::D => self.d as u16,
            RegisterNames::E => self.e as u16,
            RegisterNames::F => self.f as u16,
            RegisterNames::H => self.h as u16,
            RegisterNames::L => self.l as u16,
            RegisterNames::AF => (self.f as int + self.a as int * 256) as u16,
            RegisterNames::BC => (self.c as int + self.b as int * 256) as u16,
            RegisterNames::DE => (self.e as int + self.d as int * 256) as u16,
            RegisterNames::HL => (self.l as int + self.h as int * 256) as u16,
            RegisterNames::PC => self.pc,
            RegisterNames::SP => self.sp,
        }
    }

    /// The register file after a write: single registers take the low byte,
    /// pairs split high/low, and every write into F clears its low nibble.
    pub open spec fn set_spec(self, register: RegisterNames, value: u16) -> Registers {
        match register {
            RegisterNames::A => Registers { a: (value % 256) as u8, ..self },
            RegisterNames::B => Registers { b: (value % 256) as u8, ..self },
            RegisterNames::C => Registers { c: (value % 256) as u8, ..self },
            RegisterNames::D => Registers { d: (value % 256) as u8, ..self },
            RegisterNames::E => Registers { e: (value % 256) as u8, ..self },
            RegisterNames::F => Registers { f: (value % 256 / 16 * 16) as u8, ..self },
            RegisterNames::H => Registers { h: (value % 256) as u8, ..self },
            RegisterNames::L => Registers { l: (value % 256) as u8, ..self },
            RegisterNames::AF => Registers {
                a: (value / 256) as u8,
                f: (value % 256 / 16 * 16) as u8,
                ..self
            },
            RegisterNames::BC => Registers {
                b: (value / 256) as u8,
                c: (value % 256) as u8,
                ..self
            },
            RegisterNames::DE => Registers {
                d: (value / 256) as u8,
                e: (value % 256) as u8,
                ..self
            },
            RegisterNames::HL => Registers {
                h: (value / 256) as u8,
                l: (value % 256) as u8,
                ..self
            },
            RegisterNames::PC => Registers { pc: value, ..self },
            RegisterNames::SP => Registers { sp: value, ..self },
        }
    }

    /// Power-on state matching the DMG boot-ROM exit: PC=0x0100, SP=0xFFFE,
    /// AF=0x1180, BC=0x0000, DE=0x0008, HL=0x007C.
    pub fn make_registers() -> (r: Registers)
        ensures
            r == (Registers {
                pc: 0x100u16,
                sp: 0xFFFEu16,
                a: 0x11u8,
                b: 0u8,
                c: 0u8,
                d: 0u8,
                e: 0x08u8,
                f: 0x80u8,
                h: 0u8,
                l: 0x7Cu8,
            }),
    {
        Registers {
            pc: 0x100,
            sp: 0xFFFE,
            a: 0x11,
            b: 0x00,
            c: 0x00,
            d: 0x00,
            e: 0x08,
            f: 0x80,
            h: 0x00,
            l: 0x7C,
        }
    }

    pub fn make_flags(zero: bool, subtract: bool, half_cary: bool, cary: bool) -> (res: u16)
        ensures
            res == flags_byte(zero, subtract, half_cary, cary) as u16,
    {
        let mut res: u16 = 0;
        if zero {
            res += 128;
        }
        if subtract {
            res += 64;
        }
        if half_cary {
            res += 32;
        }
        if cary {
            res += 16;
        }
        res
    }

    /// Moves PC by a signed delta, wrapping in 16 bits.
    pub fn incr_pc(&mut self, amount: i32)
        requires
            -0x8000 <= amount < 0x8000,
        ensures
            *final(self) == (Registers { pc: wrap16(old(self).pc + amount) as u16, ..*old(self) }),
    {
        let t: i32 = self.pc as i32 + amount;
        let w: i32 = if t < 0 {
            t + 0x10000
        } else if t >= 0x10000 {
            t - 0x10000
        } else {
            t
        };
        self.pc = w as u16;
    }

    /// Adds a signed delta to a register, wrapping in 16 bits; the result is
    /// stored through the same masking rules as any other write.
    pub fn change_register(&mut self, register: RegisterNames, delta: i32)
        requires
            -0x8000 <= delta < 0x8000,
        ensures
            *final(self) == old(self).set_spec(
                register,
                wrap16(old(self).get_spec(register) + delta) as u16,
            ),
    {
        let initial = self.get_register(&register);
        let t: i32 = initial as i32 + delta;
        let w: i32 = if t < 0 {
            t + 0x10000
        } else if t >= 0x10000 {
            t - 0x10000
        } else {
            t
        };
        self.set_register(&register, w as u16);
    }

    pub fn is_zero_flag(&mut self) -> (r: bool)
        ensures
            *final(self) == *old(self),
            r == zero_of(old(self).f),
    {
        self.f / 128 % 2 == 1
    }

    pub fn set_zero_flag(&mut self, val: bool)
        ensures
            *final(self) == (Registers {
                f: (old(self).f % 128 + if val { 128int } else { 0int }) as u8,
                ..*old(self)
            }),
    {
        let low: u8 = self.f % 128;
        self.f = if val {
            low + 128
        } else {
            low
        };
    }

    pub fn is_subtract_flag(&mut self) -> (r: bool)
        ensures
            *final(self) == *old(self),
            r == subtract_of(old(self).f),
    {
        self.f / 64 % 2 == 1
    }

    pub fn is_half_cary_flag(&mut self) -> (r: bool)
        ensures
            *final(self) == *old(self),
            r == half_cary_of(old(self).f),
    {
        self.f / 32 % 2 == 1
    }

    pub fn is_cary_flag(&mut self) -> (r: bool)
        ensures
            *final(self) == *old(self),
            r == cary_of(old(self).f),
    {
        self.f / 16 % 2 == 1
    }

    /// Replaces the whole flag byte; the low nibble comes out zero.
    pub fn set_flags(&mut self, zero: bool, subtract: bool, half_cary: bool, cary: bool)
        ensures
            *final(self) == (Registers {
                f: flags_byte(zero, subtract, half_cary, cary),
                ..*old(self)
            }),
    {
        let packed = Registers::make_flags(zero, subtract, half_cary, cary);
        self.set_register(&RegisterNames::F, packed);
        proof {
            lemma_flags_byte_bits(zero, subtract, half_cary, cary);
            assert(flags_byte(zero, subtract, half_cary, cary) % 16 == 0) by {
                let zb: u8 = if zero { 1 } else { 0 };
                let nb: u8 = if subtract { 1 } else { 0 };
                let hb: u8 = if half_cary { 1 } else { 0 };
                let cb: u8 = if cary { 1 } else { 0 };
                assert(zb <= 1 && nb <= 1 && hb <= 1 && cb <= 1 ==> (zb * 128 + nb * 64 + hb * 32
                    + cb * 16) % 16 == 0 && (zb * 128 + nb * 64 + hb * 32 + cb * 16) % 256 / 16 * 16
                    == (zb * 128 + nb * 64 + hb * 32 + cb * 16)) by (bit_vector);
            }
        }
    }

    pub fn set_register(&mut self, register: &RegisterNames, value: u16)
        ensures
            *final(self) == old(self).set_spec(*register, value),
    {
        match register {
            RegisterNames::A => self.a = (value % 256) as u8,
            RegisterNames::B => self.b = (value % 256) as u8,
            RegisterNames::C => self.c = (value % 256) as u8,
            RegisterNames::D => self.d = (value % 256) as u8,
            RegisterNames::E => self.e = (value % 256) as u8,
            RegisterNames::F => self.f = (value % 256 / 16 * 16) as u8,
            RegisterNames::H => self.h = (value % 256) as u8,
            RegisterNames::L => self.l = (value % 256) as u8,
            RegisterNames::AF => {
                self.a = (value / 256) as u8;
                self.f = (value % 256 / 16 * 16) as u8;
            },
            RegisterNames::BC => {
                self.b = (value / 256) as u8;
                self.c = (value % 256) as u8;
            },
            RegisterNames::DE => {
                self.d = (value / 256) as u8;
                self.e = (value % 256) as u8;
            },
            RegisterNames::HL => {
                self.h = (value / 256) as u8;
                self.l = (value % 256) as u8;
            },
            RegisterNames::PC => self.pc = value,
            RegisterNames::SP => self.sp = value,
        }
    }

    pub fn get_register(&self, register: &RegisterNames) -> (r: u16)
        ensures
            r == self.get_spec(*register),
    {
        match register {
            RegisterNames::A => self.a as u16,
            RegisterNames::B => self.b as u16,
            RegisterNames::C => self.c as u16,
            RegisterNames::D => self.d as u16,
            RegisterNames::E => self.e as u16,
            RegisterNames::F => self.f as u16,
            RegisterNames::H => self.h as u16,
            RegisterNames::L => self.l as u16,
            RegisterNames::AF => self.f as u16 + self.a as u16 * 256,
            RegisterNames::BC => self.c as u16 + self.b as u16 * 256,
            RegisterNames::DE => self.e as u16 + self.d as u16 * 256,
            RegisterNames::HL => self.l as u16 + self.h as u16 * 256,
            RegisterNames::PC => self.pc,
            RegisterNames::SP => self.sp,
        }
    }
}

/// The low nibble of F is zero after every way of writing it: a write to
/// F, a write to AF, or a packed flag byte.
pub proof fn lemma_f_low_nibble_zero(
    regs: Registers,
    value: u16,
    zero: bool,
    subtract: bool,
    half_cary: bool,
    cary: bool,
)
    ensures
        regs.set_spec(RegisterNames::F, value).f % 16 == 0,
        regs.set_spec(RegisterNames::AF, value).f % 16 == 0,
        flags_byte(zero, subtract, half_cary, cary) % 16 == 0,
{
    let v: u16 = value;
    assert(v % 256 / 16 * 16 % 16 == 0) by (bit_vector);
    let zb: u8 = if zero { 1 } else { 0 };
    let nb: u8 = if subtract { 1 } else { 0 };
    let hb: u8 = if half_cary { 1 } else { 0 };
    let cb: u8 = if cary { 1 } else { 0 };
    assert(zb <= 1 && nb <= 1 && hb <= 1 && cb <= 1 ==> (zb * 128 + nb * 64 + hb * 32 + cb * 16)
        % 16 == 0) by (bit_vector);
}

/// Writing a 16-bit value to a register pair and reading the pair back
/// returns the value written, except that a write through AF clears the low
/// nibble of F; the two halves read back as the high and low byte.
pub proof fn lemma_pair_round_trip(regs: Registers, pair: RegisterNames, v: u16)
    requires
        pair == RegisterNames::AF || pair == RegisterNames::BC || pair == RegisterNames::DE
            || pair == RegisterNames::HL,
    ensures
        pair != RegisterNames::AF ==> regs.set_spec(pair, v).get_spec(pair) == v,
        pair == RegisterNames::AF ==> regs.set_spec(pair, v).get_spec(pair) == v & 0xFFF0,
        pair == RegisterNames::AF ==> regs.set_spec(pair, v).get_spec(RegisterNames::A) == v / 256
            && regs.set_spec(pair, v).get_spec(RegisterNames::F) == (v & 0xFFF0) % 256,
        pair == RegisterNames::BC ==> regs.set_spec(pair, v).get_spec(RegisterNames::B) == v / 256
            && regs.set_spec(pair, v).get_spec(RegisterNames::C) == v % 256,
        pair == RegisterNames::DE ==> regs.set_spec(pair, v).get_spec(RegisterNames::D) == v / 256
            && regs.set_spec(pair, v).get_spec(RegisterNames::E) == v % 256,
        pair == RegisterNames::HL ==> regs.set_spec(pair, v).get_spec(RegisterNames::H) == v / 256
            && regs.set_spec(pair, v).get_spec(RegisterNames::L) == v % 256,
{
    assert(v % 256 + v / 256 * 256 == v) by (bit_vector);
    assert(v % 256 / 16 * 16 + v / 256 * 256 == v & 0xFFF0) by (bit_vector);
    assert(v % 256 / 16 * 16 == (v & 0xFFF0) % 256) by (bit_vector);
}

} // verus!
