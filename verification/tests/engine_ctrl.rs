use rustboy::engine::{make_engine, InterruptState};
use rustboy::registers::RegisterNames;

fn engine_with(bytes: &[(u16, u8)]) -> rustboy::engine::Engine {
    let mut rom = vec![0u8; 0x8000];
    for (addr, val) in bytes {
        rom[*addr as usize] = *val;
    }
    make_engine(rom).unwrap()
}

#[test]
fn test_branch_timing() {
    // An untaken conditional costs less than a taken one.
    let mut eng = engine_with(&[(0x100, 0x20)]);
    // Boot flags have Z set: JR NZ is untaken.
    assert_eq!(8, eng.execute_next_instruction());

    let mut eng = engine_with(&[(0x100, 0x28)]);
    // JR Z is taken.
    assert_eq!(12, eng.execute_next_instruction());

    let mut eng = engine_with(&[(0x100, 0xC3)]);
    assert_eq!(16, eng.execute_next_instruction());

    let mut eng = engine_with(&[(0x100, 0xCD)]);
    assert_eq!(24, eng.execute_next_instruction());

    let mut eng = engine_with(&[(0x100, 0xC9)]);
    assert_eq!(16, eng.execute_next_instruction());

    let mut eng = engine_with(&[(0x100, 0xD8)]);
    eng.registers.set_register(&RegisterNames::F, 0x10);
    assert_eq!(20, eng.execute_next_instruction());
}

#[test]
fn test_pop_af_masks_low_nibble() {
    let mut eng = engine_with(&[(0x100, 0xF1)]);
    eng.memory.set(0xFFFE, 0xFF);
    eng.memory.set(0xFFFF, 0x12);

    eng.execute_next_instruction();

    assert_eq!(0x12, eng.registers.a);
    assert_eq!(0xF0, eng.registers.f);
    assert_eq!(0x0000, eng.registers.sp);
}

#[test]
fn test_ei_takes_effect_after_next_instruction() {
    let mut eng = engine_with(&[(0x100, 0xFB), (0x101, 0x00)]);
    eng.memory.set(0xFFFF, 0x01);
    eng.memory.set(0xFF0F, 0x01);

    eng.execute_next_instruction();
    assert_eq!(0x0101, eng.registers.pc);

    // The instruction after EI still runs before the pending interrupt.
    eng.execute_next_instruction();
    assert_eq!(0x0102, eng.registers.pc);

    let cycles = eng.execute_next_instruction();
    assert_eq!(12, cycles);
    assert_eq!(0x0040, eng.registers.pc);
    assert_eq!(0x00, eng.memory.get(0xFF0F) & 0x01);
}

#[test]
fn test_interrupt_service_pushes_pc() {
    let mut eng = engine_with(&[(0x100, 0x00)]);
    eng.enable_interrupt = InterruptState::ENABLED;
    eng.memory.set(0xFFFF, 0x04);
    eng.memory.set(0xFF0F, 0x04);

    let cycles = eng.execute_next_instruction();

    assert_eq!(12, cycles);
    assert_eq!(0x0050, eng.registers.pc);
    assert_eq!(0xFFFC, eng.registers.sp);
    assert_eq!(0x00, eng.memory.get(0xFFFC));
    assert_eq!(0x01, eng.memory.get(0xFFFD));
    assert_eq!(InterruptState::DISABLED, eng.enable_interrupt);
}

#[test]
fn test_ld_through_hl() {
    let mut eng = engine_with(&[(0x100, 0x70), (0x101, 0x46)]);
    eng.registers.set_register(&RegisterNames::HL, 0xC000);
    eng.registers.set_register(&RegisterNames::B, 0x05);

    assert_eq!(8, eng.execute_next_instruction());
    assert_eq!(0x05, eng.memory.get(0xC000));

    eng.registers.set_register(&RegisterNames::B, 0x00);
    eng.memory.set(0xC000, 0x99);
    assert_eq!(8, eng.execute_next_instruction());
    assert_eq!(0x99, eng.registers.b);
}

#[test]
fn test_ldh_high_page() {
    let mut eng = engine_with(&[(0x100, 0xE0), (0x101, 0x80), (0x102, 0xF0), (0x103, 0x80)]);
    eng.registers.set_register(&RegisterNames::A, 0x3C);

    eng.execute_next_instruction();
    assert_eq!(0x3C, eng.memory.get(0xFF80));

    eng.registers.set_register(&RegisterNames::A, 0x00);
    eng.execute_next_instruction();
    assert_eq!(0x3C, eng.registers.a);
}

#[test]
fn test_jp_hl() {
    let mut eng = engine_with(&[(0x100, 0xE9)]);
    eng.registers.set_register(&RegisterNames::HL, 0x1234);

    assert_eq!(4, eng.execute_next_instruction());
    assert_eq!(0x1234, eng.registers.pc);
}

#[test]
fn test_add_sp_signed() {
    let mut eng = engine_with(&[(0x100, 0xE8), (0x101, 0xFE)]);

    // SP 0xFFFE plus -2.
    assert_eq!(16, eng.execute_next_instruction());
    assert_eq!(0xFFFC, eng.registers.sp);

    let mut eng = engine_with(&[(0x100, 0xF8), (0x101, 0x02)]);
    assert_eq!(12, eng.execute_next_instruction());
    assert_eq!(0x0000, eng.registers.get_register(&RegisterNames::HL));
}

#[test]
fn test_unknown_opcode_skipped() {
    let mut eng = engine_with(&[(0x100, 0xD3)]);

    assert_eq!(16, eng.execute_next_instruction());
    assert_eq!(0x0101, eng.registers.pc);
}
