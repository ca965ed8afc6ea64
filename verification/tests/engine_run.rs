use rustboy::engine::make_engine;
use rustboy::registers::RegisterNames;

#[test]
fn test_dec_c() {
    let mut rom = vec![0; 0xFFFF];

    rom[0x0100] = 0x0D;
    rom[0x0101] = 0x0D;

    let mut eng = make_engine(rom).unwrap();
    eng.registers.set_register(&RegisterNames::C, 0x10);
    eng.registers.set_register(&RegisterNames::F, 0x00);

    eng.run_limited(1);

    println!("{:?}", eng.registers);

    assert_eq!(0x0F, eng.registers.c);
    assert_eq!(0x60, eng.registers.f);

    eng.registers.set_register(&RegisterNames::C, 0xF0);
    eng.registers.set_register(&RegisterNames::F, 0x00);

    eng.run_limited(1);

    println!("{:?}", eng.registers);

    assert_eq!(0xEF, eng.registers.c);
    assert_eq!(0x60, eng.registers.f);
}

#[test]
fn test_dec_c_underflow() {
    let mut rom = vec![0; 0xFFFF];

    rom[0x0100] = 0x0D;

    let mut eng = make_engine(rom).unwrap();
    eng.registers.set_register(&RegisterNames::C, 0x00);
    eng.registers.set_register(&RegisterNames::F, 0x00);

    eng.run_limited(1);

    assert_eq!(0xFF, eng.registers.c);
    // Z clear, N and H set, carry untouched.
    assert_eq!(0x60, eng.registers.f);
}

#[test]
fn test_xor_a() {
    let mut rom = vec![0; 0xFFFF];

    rom[0x0100] = 0xAF;

    let mut eng = make_engine(rom).unwrap();
    eng.registers.set_register(&RegisterNames::A, 0x01);

    eng.run_limited(1);

    println!("{:?}", eng.registers);

    assert_eq!(0x00, eng.registers.a);
    assert_eq!(0x80, eng.registers.f);
}

#[test]
fn test_addc_a() {
    let mut rom = vec![0; 0xFFFF];

    rom[0x0100] = 0xCE;
    rom[0x0101] = 0x01;

    let mut eng = make_engine(rom).unwrap();
    eng.registers.set_register(&RegisterNames::A, 0xFF);
    eng.registers.set_register(&RegisterNames::F, 0x00);

    eng.run_limited(1);

    println!("{:?}", eng.registers);

    assert_eq!(0x00, eng.registers.a);
    assert_eq!(0xB0, eng.registers.f);
}

#[test]
fn test_rr_a_1() {
    let mut rom = vec![0; 0xFFFF];

    rom[0x0100] = 0x1F;

    let mut eng = make_engine(rom).unwrap();
    eng.registers.set_register(&RegisterNames::A, 0xFE);
    eng.registers.set_register(&RegisterNames::F, 0x70);

    eng.run_limited(1);

    println!("{:?}", eng.registers);

    assert_eq!(0xFF, eng.registers.a);
    assert_eq!(0x00, eng.registers.f);
}

#[test]
fn test_rr_a_2() {
    let mut rom = vec![0; 0xFFFF];

    rom[0x0100] = 0x1F;

    let mut eng = make_engine(rom).unwrap();
    eng.registers.set_register(&RegisterNames::A, 0xEB);
    eng.registers.set_register(&RegisterNames::F, 0x00);

    eng.run_limited(1);

    println!("{:?}", eng.registers);

    assert_eq!(0x75, eng.registers.a);
    assert_eq!(0x10, eng.registers.f);
}

#[test]
fn test_jump_and_return() {
    // Call a subroutine that adds 10 to A five times, then return and load
    // 42 into C; check every register the routine was supposed to leave.
    let mut rom = vec![0; 0xFFFF];

    rom[0x0100] = 0xCD;
    rom[0x0101] = 0x00;
    rom[0x0102] = 0x11;
    rom[0x0103] = 0x0E;
    rom[0x0104] = 42;

    rom[0x1100] = 0x3E;
    rom[0x1101] = 0x01;
    rom[0x1102] = 0x06;
    rom[0x1103] = 0x05;
    rom[0x1104] = 0;
    rom[0x1105] = 0xC6;
    rom[0x1106] = 10;
    rom[0x1107] = 0x05;
    rom[0x1108] = 0xC2;
    rom[0x1109] = 0x04;
    rom[0x110A] = 0x11;
    rom[0x110B] = 0xC8;

    let mut eng = make_engine(rom).unwrap();
    eng.run_limited(100);

    println!("{:?}", eng.registers);

    assert_eq!(0, eng.registers.b);
    assert_eq!(51, eng.registers.a);
    assert_eq!(42, eng.registers.c);
}

#[test]
fn test_rst_pushes_return_address() {
    let mut rom = vec![0; 0x8000];

    rom[0x0100] = 0xCF;

    let mut eng = make_engine(rom).unwrap();
    eng.execute_next_instruction();

    assert_eq!(0xFFFC, eng.registers.sp);
    assert_eq!(0x0008, eng.registers.pc);
    assert_eq!(0x01, eng.memory.get(0xFFFC));
    assert_eq!(0x01, eng.memory.get(0xFFFD));
}

#[test]
fn test_add_hl_flags() {
    let mut rom = vec![0; 0x8000];

    rom[0x0100] = 0x09;

    let mut eng = make_engine(rom).unwrap();
    eng.registers.set_register(&RegisterNames::HL, 0x0FFF);
    eng.registers.set_register(&RegisterNames::BC, 0x0001);
    eng.registers.set_register(&RegisterNames::F, 0x80);

    eng.execute_next_instruction();

    assert_eq!(0x1000, eng.registers.get_register(&RegisterNames::HL));
    // Z preserved, N clear, H set on the bit-11 carry, C clear.
    assert_eq!(0xA0, eng.registers.f);
}

#[test]
fn test_daa_after_add() {
    let mut rom = vec![0; 0x8000];

    rom[0x0100] = 0x3E;
    rom[0x0101] = 0x15;
    rom[0x0102] = 0xC6;
    rom[0x0103] = 0x27;
    rom[0x0104] = 0x27;

    let mut eng = make_engine(rom).unwrap();
    eng.run_limited(3);

    assert_eq!(0x42, eng.registers.a);
    assert!(!eng.registers.is_cary_flag());
}

#[test]
fn test_cb_swap() {
    let mut rom = vec![0; 0x8000];

    rom[0x0100] = 0xCB;
    rom[0x0101] = 0x37;

    let mut eng = make_engine(rom).unwrap();
    eng.registers.set_register(&RegisterNames::A, 0xF0);

    let cycles = eng.execute_next_instruction();

    assert_eq!(0x0F, eng.registers.a);
    assert_eq!(0x00, eng.registers.f);
    assert_eq!(8, cycles);
    assert_eq!(0x0102, eng.registers.pc);
}

#[test]
fn test_cb_bit_test() {
    let mut rom = vec![0; 0x8000];

    rom[0x0100] = 0xCB;
    rom[0x0101] = 0x47;

    let mut eng = make_engine(rom).unwrap();
    eng.registers.set_register(&RegisterNames::A, 0x00);
    eng.registers.set_register(&RegisterNames::F, 0x10);

    eng.execute_next_instruction();

    // Bit 0 of A is clear: Z set, N clear, H set, carry preserved.
    assert_eq!(0xB0, eng.registers.f);
}

#[test]
fn test_dma_transfer() {
    let mut rom = vec![0; 0x8000];

    rom[0x0100] = 0x00;

    let mut eng = make_engine(rom).unwrap();
    for i in 0..160u16 {
        eng.memory.set(0xC000 + i, (i % 256) as u8);
    }
    eng.memory.set(0xFF46, 0xC0);

    eng.execute_next_instruction();

    assert_eq!(0, eng.memory.get(0xFE00));
    assert_eq!(159, eng.memory.get(0xFE9F));
    assert_eq!(0, eng.memory.get(0xFF46));
}

#[test]
fn test_pc_advance_untaken() {
    // Every opcode whose branch is not taken from the boot state (Z set,
    // carry clear) advances PC by its documented byte count.
    let len3 = [
        0x01u8, 0x11, 0x21, 0x31, 0x08, 0xC2, 0xC3, 0xCA, 0xD2, 0xDA, 0xC4, 0xCC, 0xCD, 0xD4,
        0xDC, 0xEA, 0xFA,
    ];
    let len2 = [
        0x06u8, 0x0E, 0x16, 0x1E, 0x26, 0x2E, 0x36, 0x3E, 0x10, 0x18, 0x20, 0x28, 0x30, 0x38,
        0xC6, 0xCE, 0xD6, 0xDE, 0xE6, 0xEE, 0xF6, 0xFE, 0xE0, 0xF0, 0xE8, 0xF8, 0xCB,
    ];
    // Always-taken jumps, plus the branches the boot flags take: the zero
    // flag is set and the carry flag is clear after power-on.
    let skipped = [
        0x18u8, 0xC3, 0xC9, 0xCD, 0xD9, 0xE9, 0xC7, 0xCF, 0xD7, 0xDF, 0xE7, 0xEF, 0xF7, 0xFF,
        0x28, 0xC8, 0xCA, 0xCC, 0x30, 0xD0, 0xD2, 0xD4,
    ];
    for opv in 0..=255u16 {
        let op = opv as u8;
        if skipped.contains(&op) {
            continue;
        }
        let len: u16 = if len3.contains(&op) {
            3
        } else if len2.contains(&op) {
            2
        } else {
            1
        };
        let mut rom = vec![0; 0x8000];
        rom[0x0100] = op;
        let mut eng = make_engine(rom).unwrap();
        eng.execute_next_instruction();
        assert_eq!(0x0100 + len, eng.registers.pc, "opcode {:#04x}", op);
    }
}

#[test]
fn test_halt_wakes_on_interrupt() {
    let mut rom = vec![0; 0x8000];

    rom[0x0100] = 0x76;

    let mut eng = make_engine(rom).unwrap();
    eng.execute_next_instruction();
    // Parked: PC stays put and each idle step costs 4 cycles.
    let idle = eng.execute_next_instruction();
    assert_eq!(4, idle);
    assert_eq!(0x0101, eng.registers.pc);

    // A pending, enabled interrupt releases the halt.
    eng.memory.set(0xFFFF, 0x01);
    eng.memory.set(0xFF0F, 0x01);
    let wake = eng.execute_next_instruction();
    assert_eq!(20, wake);
}
