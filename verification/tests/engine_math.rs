use rustboy::clock::Clock;
use rustboy::engine::{ButtonState, Engine, InterruptState, MathNames};
use rustboy::gpu::GPU;
use rustboy::memory::make_memory;
use rustboy::registers::{Registers, RegisterNames};

fn fresh_engine() -> Engine {
    Engine {
        memory: make_memory(vec![0; 0xFFFF]).unwrap(),
        registers: Registers::make_registers(),
        enable_interrupt: InterruptState::DISABLED,
        gpu: GPU::make_gpu(),
        clock: Clock::make_clock(),
        buttons: ButtonState::create(),
    }
}

#[test]
fn test_math_sub() {
    let mut eng = fresh_engine();

    eng.registers.set_register(&RegisterNames::A, 0);
    eng.math_to_a(MathNames::SUB, 1);

    assert_eq!(0xFF, eng.registers.get_register(&RegisterNames::A));
    assert!(eng.registers.is_cary_flag());
    assert!(!eng.registers.is_zero_flag());

    eng.registers.set_register(&RegisterNames::A, 20);
    eng.math_to_a(MathNames::SUB, 1);

    assert_eq!(19, eng.registers.get_register(&RegisterNames::A));
    assert!(!eng.registers.is_cary_flag());
    assert!(!eng.registers.is_zero_flag());

    eng.registers.set_register(&RegisterNames::A, 20);
    eng.math_to_a(MathNames::SUB, 20);

    assert_eq!(0, eng.registers.get_register(&RegisterNames::A));
    assert!(!eng.registers.is_cary_flag());
    assert!(eng.registers.is_zero_flag());
}

#[test]
fn test_math_subc() {
    let mut eng = fresh_engine();

    eng.registers.set_register(&RegisterNames::A, 0);
    eng.registers.set_register(&RegisterNames::F, 0);

    eng.math_to_a(MathNames::SUBC, 1);

    assert_eq!(0xFF, eng.registers.get_register(&RegisterNames::A));
    assert!(eng.registers.is_cary_flag());
    assert!(!eng.registers.is_zero_flag());

    eng.registers.set_register(&RegisterNames::A, 20);
    eng.math_to_a(MathNames::SUBC, 1);

    assert_eq!(18, eng.registers.get_register(&RegisterNames::A));
    assert!(!eng.registers.is_cary_flag());
    assert!(!eng.registers.is_zero_flag());

    eng.registers.set_register(&RegisterNames::A, 20);
    eng.math_to_a(MathNames::SUBC, 20);

    assert_eq!(0, eng.registers.get_register(&RegisterNames::A));
    assert!(!eng.registers.is_cary_flag());
    assert!(eng.registers.is_zero_flag());
}

#[test]
fn test_math_add() {
    let mut eng = fresh_engine();

    eng.registers.set_register(&RegisterNames::A, 0xFF);
    eng.math_to_a(MathNames::ADD, 1);

    assert_eq!(0, eng.registers.get_register(&RegisterNames::A));
    assert!(eng.registers.is_cary_flag());
    assert!(eng.registers.is_zero_flag());

    eng.registers.set_register(&RegisterNames::A, 20);
    eng.math_to_a(MathNames::ADD, 1);

    assert_eq!(21, eng.registers.get_register(&RegisterNames::A));
    assert!(!eng.registers.is_cary_flag());
    assert!(!eng.registers.is_zero_flag());

    eng.registers.set_register(&RegisterNames::A, 0);
    eng.math_to_a(MathNames::ADD, 0);

    assert_eq!(0, eng.registers.get_register(&RegisterNames::A));
    assert!(!eng.registers.is_cary_flag());
    assert!(eng.registers.is_zero_flag());
}

#[test]
fn test_math_add_c() {
    let mut eng = fresh_engine();

    eng.registers.set_register(&RegisterNames::A, 0xFF);
    eng.registers.set_register(&RegisterNames::F, 0);
    eng.math_to_a(MathNames::ADDC, 1);

    assert_eq!(0, eng.registers.get_register(&RegisterNames::A));
    assert!(eng.registers.is_cary_flag());
    assert!(eng.registers.is_zero_flag());

    eng.registers.set_register(&RegisterNames::A, 20);
    eng.math_to_a(MathNames::ADDC, 1);

    assert_eq!(22, eng.registers.get_register(&RegisterNames::A));
    assert!(!eng.registers.is_cary_flag());
    assert!(!eng.registers.is_zero_flag());

    eng.registers.set_register(&RegisterNames::A, 0);
    eng.math_to_a(MathNames::ADDC, 0);

    assert_eq!(0, eng.registers.get_register(&RegisterNames::A));
    assert!(!eng.registers.is_cary_flag());
    assert!(eng.registers.is_zero_flag());
}
