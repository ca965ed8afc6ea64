use rustboy::memory::{make_memory, MemoryError};
use rustboy::registers::{Registers, RegisterNames};

fn rom_with_header(banks: usize, header: u8) -> Vec<u8> {
    let mut rom = vec![0u8; 0x4000 * banks];
    rom[0x147] = header;
    rom
}

#[test]
fn test_bus_round_trip() {
    let mut mem = make_memory(rom_with_header(2, 0x00)).unwrap();
    let addrs = [0x8000u16, 0x9FFF, 0xA000, 0xBFFF, 0xC000, 0xDFFF, 0xFE00, 0xFF80, 0xFFFE];
    let mut v: u8 = 1;
    for a in addrs {
        mem.set(a, v);
        assert_eq!(v, mem.get(a), "address {:#06x}", a);
        v = v.wrapping_add(37);
    }
}

#[test]
fn test_echo_mirror() {
    let mut mem = make_memory(rom_with_header(2, 0x00)).unwrap();

    mem.set(0xE000, 0xAB);
    assert_eq!(0xAB, mem.get(0xC000));
    assert_eq!(0xAB, mem.get(0xE000));

    mem.set(0xC123, 0x77);
    assert_eq!(0x77, mem.get(0xE123));
}

#[test]
fn test_rom_writes_ignored() {
    let mut mem = make_memory(rom_with_header(2, 0x00)).unwrap();
    mem.set(0x0100, 0x55);
    assert_eq!(0x00, mem.get(0x0100));
}

#[test]
fn test_stack_push_pop() {
    let mem_rom = rom_with_header(2, 0x00);
    let mut mem = make_memory(mem_rom).unwrap();
    let mut reg = Registers::make_registers();

    mem.push_stack(&mut reg, 0x1234);
    assert_eq!(0xFFFC, reg.get_register(&RegisterNames::SP));
    assert_eq!(0x34, mem.get(0xFFFC));
    assert_eq!(0x12, mem.get(0xFFFD));

    let popped = mem.pop_stack(&mut reg);
    assert_eq!(0x1234, popped);
    assert_eq!(0xFFFE, reg.get_register(&RegisterNames::SP));
}

#[test]
fn test_unsupported_cartridge() {
    let rom = rom_with_header(2, 0x05);
    assert_eq!(Err(MemoryError::UnsupportedCartridge), make_memory(rom).map(|_| ()));

    let short = vec![0u8; 0x100];
    assert_eq!(Err(MemoryError::UnsupportedCartridge), make_memory(short).map(|_| ()));
}

#[test]
fn test_mbc1_bank_switch() {
    let mut rom = rom_with_header(3, 0x01);
    rom[0x4000 * 2] = 0x42;
    let mut mem = make_memory(rom).unwrap();

    mem.set(0x0000, 0x0A);
    mem.set(0x2100, 0x02);

    assert_eq!(0x42, mem.get(0x4000));
}

#[test]
fn test_mbc1_bank_zero_aliases_to_one() {
    let mut rom = rom_with_header(3, 0x01);
    rom[0x4000] = 0x99;
    let mut mem = make_memory(rom).unwrap();

    mem.set(0x2000, 0x00);
    assert_eq!(0x99, mem.get(0x4000));
}

#[test]
fn test_mbc1_ram_enable_and_save() {
    let rom = rom_with_header(2, 0x01);
    let mut mem = make_memory(rom.clone()).unwrap();

    // Disabled external RAM reads 0xFF and swallows writes.
    assert_eq!(0xFF, mem.get(0xA000));
    mem.set(0xA000, 0x12);
    assert_eq!(0xFF, mem.get(0xA000));

    mem.set(0x0000, 0x0A);
    mem.set(0x4000, 0x01);
    mem.set(0xA000, 0x99);
    assert_eq!(0x99, mem.get(0xA000));

    let sav = mem.save();
    assert_eq!(0x8000, sav.len());
    assert_eq!(0x99, sav[0x2000]);

    let mut mem2 = make_memory(rom).unwrap();
    mem2.load(sav);
    mem2.set(0x0000, 0x0A);
    mem2.set(0x4000, 0x01);
    assert_eq!(0x99, mem2.get(0xA000));
}

#[test]
fn test_rom_only_save_is_empty() {
    let mem = make_memory(rom_with_header(2, 0x00)).unwrap();
    assert_eq!(0, mem.save().len());
}

#[test]
fn test_mbc3_rtc_stub() {
    let rom = rom_with_header(2, 0x13);
    let mut mem = make_memory(rom).unwrap();

    mem.set(0x0000, 0x0A);
    mem.set(0x4000, 0x08);
    assert_eq!(0x00, mem.get(0xA000));

    mem.set(0x4000, 0x00);
    mem.set(0xA000, 0x31);
    assert_eq!(0x31, mem.get(0xA000));
}

#[test]
fn test_mbc3_bank_switch() {
    let mut rom = rom_with_header(4, 0x13);
    rom[0x4000 * 3 + 5] = 0x66;
    let mut mem = make_memory(rom).unwrap();

    mem.set(0x2000, 0x03);
    assert_eq!(0x66, mem.get(0x4005));
}

#[test]
fn test_mbc5_bank_switch() {
    let mut rom = rom_with_header(4, 0x1B);
    rom[0x0000] = 0x55;
    rom[0x4000 * 3] = 0x77;
    let mut mem = make_memory(rom).unwrap();

    mem.set(0x2000, 0x03);
    assert_eq!(0x77, mem.get(0x4000));

    // Bank 0 is a valid selection on MBC5.
    mem.set(0x2000, 0x00);
    assert_eq!(0x55, mem.get(0x4000));
}

#[test]
fn test_mbc5_ram_bank() {
    let rom = rom_with_header(2, 0x1B);
    let mut mem = make_memory(rom).unwrap();

    mem.set(0x0000, 0x0A);
    mem.set(0x4000, 0x05);
    mem.set(0xA000, 0x21);
    mem.set(0x4000, 0x06);
    assert_eq!(0x00, mem.get(0xA000));
    mem.set(0x4000, 0x05);
    assert_eq!(0x21, mem.get(0xA000));

    let sav = mem.save();
    assert_eq!(0x20000, sav.len());
    assert_eq!(0x21, sav[0x2000 * 5]);
}
