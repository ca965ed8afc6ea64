use rustboy::registers::{Registers, RegisterNames};

#[test]
fn test_flags() {
    let mut reg = Registers::make_registers();

    reg.set_flags(true, false, false, false);
    assert!(!reg.is_cary_flag());
    assert!(reg.is_zero_flag());

    reg.set_flags(false, false, false, true);
    assert!(reg.is_cary_flag());
    assert!(!reg.is_zero_flag());

    reg.set_flags(true, false, true, true);
    assert!(reg.is_cary_flag());
    assert!(reg.is_zero_flag());

    println!("{:?}", reg);
}

#[test]
fn test_af() {
    let mut reg = Registers::make_registers();

    reg.set_register(&RegisterNames::AF, 8512);

    assert_eq!(8512, reg.get_register(&RegisterNames::AF));
    assert_eq!(33, reg.get_register(&RegisterNames::A));
    assert_eq!(64, reg.get_register(&RegisterNames::F));

    reg.set_register(&RegisterNames::AF, 0);

    assert_eq!(0, reg.get_register(&RegisterNames::AF));
    assert_eq!(0, reg.get_register(&RegisterNames::A));
    assert_eq!(0, reg.get_register(&RegisterNames::F));
}

#[test]
fn test_bc() {
    let mut reg = Registers::make_registers();

    reg.set_register(&RegisterNames::BC, 8512);

    assert_eq!(8512, reg.get_register(&RegisterNames::BC));
    assert_eq!(64, reg.get_register(&RegisterNames::C));

    reg.set_register(&RegisterNames::BC, 0);

    assert_eq!(0, reg.get_register(&RegisterNames::BC));
    assert_eq!(0, reg.get_register(&RegisterNames::C));
}

#[test]
fn test_de() {
    let mut reg = Registers::make_registers();

    reg.set_register(&RegisterNames::DE, 8512);

    assert_eq!(8512, reg.get_register(&RegisterNames::DE));
    assert_eq!(64, reg.get_register(&RegisterNames::E));

    reg.set_register(&RegisterNames::DE, 0);

    assert_eq!(0, reg.get_register(&RegisterNames::DE));
    assert_eq!(0, reg.get_register(&RegisterNames::E));
}

#[test]
fn test_hl() {
    let mut reg = Registers::make_registers();

    reg.set_register(&RegisterNames::HL, 8512);

    assert_eq!(8512, reg.get_register(&RegisterNames::HL));
    assert_eq!(64, reg.get_register(&RegisterNames::L));

    reg.set_register(&RegisterNames::HL, 0);

    assert_eq!(0, reg.get_register(&RegisterNames::HL));
    assert_eq!(0, reg.get_register(&RegisterNames::L));
}

#[test]
fn test_af_masks_low_nibble() {
    let mut reg = Registers::make_registers();

    reg.set_register(&RegisterNames::AF, 0x12FF);

    assert_eq!(0x12F0, reg.get_register(&RegisterNames::AF));
    assert_eq!(0x12, reg.get_register(&RegisterNames::A));
    assert_eq!(0xF0, reg.get_register(&RegisterNames::F));
}

#[test]
fn test_pc_wraps() {
    let mut reg = Registers::make_registers();

    reg.set_register(&RegisterNames::PC, 0xFFFF);
    reg.incr_pc(2);
    assert_eq!(1, reg.get_register(&RegisterNames::PC));

    reg.set_register(&RegisterNames::PC, 0x0000);
    reg.incr_pc(-1);
    assert_eq!(0xFFFF, reg.get_register(&RegisterNames::PC));
}
