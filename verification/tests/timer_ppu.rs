use rustboy::clock::Clock;
use rustboy::engine::{make_engine, ButtonState, KeyNames};
use rustboy::gpu::{GpuState, GPU};
use rustboy::memory::make_memory;

fn plain_rom() -> Vec<u8> {
    vec![0u8; 0x8000]
}

#[test]
fn test_timer_overflow() {
    let mut mem = make_memory(plain_rom()).unwrap();
    let mut clock = Clock::make_clock();

    mem.set(0xFF07, 0x04);
    mem.set(0xFF05, 0x00);

    for _ in 0..(1024 * 256 / 4) {
        clock.tick(&mut mem, 4);
    }

    // TIMA overflowed and was reloaded from TMA (zero); interrupt bit 2 is
    // up.
    assert_eq!(0x00, mem.get(0xFF05));
    assert_ne!(0, mem.get(0xFF0F) & 0x04);
}

#[test]
fn test_timer_disabled_holds_tima() {
    let mut mem = make_memory(plain_rom()).unwrap();
    let mut clock = Clock::make_clock();

    mem.set(0xFF07, 0x00);
    mem.set(0xFF05, 0x07);

    for _ in 0..4096 {
        clock.tick(&mut mem, 16);
    }

    assert_eq!(0x07, mem.get(0xFF05));
    // DIV keeps counting regardless: 65536 cycles are 256 DIV steps.
    assert_eq!(0x00, mem.get(0xFF04));
}

#[test]
fn test_timer_rate_16() {
    let mut mem = make_memory(plain_rom()).unwrap();
    let mut clock = Clock::make_clock();

    mem.set(0xFF07, 0x05);

    for _ in 0..16 {
        clock.tick(&mut mem, 4);
    }

    // 64 cycles at rate 16 give exactly four TIMA steps.
    assert_eq!(0x04, mem.get(0xFF05));
}

#[test]
fn test_frame_round_trip() {
    let mut mem = make_memory(plain_rom()).unwrap();
    let mut gpu = GPU::make_gpu();

    assert_eq!(0, gpu.line);
    assert!(gpu.mode == GpuState::H_BLANK);

    for _ in 0..(70224 / 4) {
        gpu.tick(&mut mem, 4);
    }

    assert_eq!(0, gpu.line);
    assert!(gpu.mode == GpuState::H_BLANK || gpu.mode == GpuState::SCAN_OAM);
}

#[test]
fn test_vblank_interrupt_and_ly() {
    let mut mem = make_memory(plain_rom()).unwrap();
    let mut gpu = GPU::make_gpu();

    // Run most of a frame: V_BLANK must have been entered, raising
    // interrupt bit 0, and LY tracks the line counter.
    for _ in 0..(70000 / 4) {
        gpu.tick(&mut mem, 4);
    }

    assert_ne!(0, mem.get(0xFF0F) & 0x01);
    assert_eq!(gpu.line, mem.get(0xFF44));
}

#[test]
fn test_background_renders_white() {
    // LCDC 0x91: background on, unsigned tile data, all tiles zero, BGP
    // zero: every rendered pixel resolves to shade 255.
    let mut eng = make_engine(plain_rom()).unwrap();

    for _ in 0..(2 * 70224 / 4) {
        eng.gpu.tick(&mut eng.memory, 4);
    }

    assert_eq!(255, eng.gpu.lcd[0]);
    assert_eq!(255, eng.gpu.lcd[142 * 160 + 159]);
}

#[test]
fn test_joypad_rows() {
    let mut mem = make_memory(plain_rom()).unwrap();
    let mut buttons = ButtonState::create();

    mem.set(0xFF00, 0x10);
    buttons.setKeyDown(KeyNames::A, &mut mem);
    assert_ne!(0, mem.get(0xFF0F) & 0x10);

    buttons.updateMemory(&mut mem);
    assert_eq!(0x5E, mem.get(0xFF00));

    buttons.setKeyUp(KeyNames::A, &mut mem);
    buttons.updateMemory(&mut mem);
    assert_eq!(0x5F, mem.get(0xFF00));
}
