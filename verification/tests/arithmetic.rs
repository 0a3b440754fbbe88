use chip8_core::Emulator;

fn run(emu: &mut Emulator, ticks: usize) {
    for _ in 0..ticks {
        emu.tick().unwrap();
    }
}

#[test]
fn program_adds_registers() {
    // Set V0 = 5, V1 = 3, then V0 += V1.
    let mut emu = Emulator::new();
    let prog: Vec<u8> = vec![0x60, 0x05, 0x61, 0x03, 0x80, 0x14];
    emu.load(&prog);
    run(&mut emu, 3);
    assert_eq!(emu.v_reg[0], 8);
    assert_eq!(emu.v_reg[0xF], 0);
    assert_eq!(emu.pc, 0x206);
}

#[test]
fn add_wraps_and_sets_carry() {
    // 200 + 100 = 300: result 44, carry 1.
    let mut emu = Emulator::new();
    let prog: Vec<u8> = vec![0x60, 0xC8, 0x61, 0x64, 0x80, 0x14];
    emu.load(&prog);
    run(&mut emu, 3);
    assert_eq!(emu.v_reg[0], 44);
    assert_eq!(emu.v_reg[0xF], 1);
}

#[test]
fn add_immediate_wraps_without_flag() {
    let mut emu = Emulator::new();
    let prog: Vec<u8> = vec![0x60, 0xFF, 0x70, 0x02];
    emu.load(&prog);
    run(&mut emu, 2);
    assert_eq!(emu.v_reg[0], 1);
    assert_eq!(emu.v_reg[0xF], 0);
}

#[test]
fn sub_without_borrow_sets_flag() {
    // V0 = 5 - 3 = 2, no borrow: VF = 1.
    let mut emu = Emulator::new();
    let prog: Vec<u8> = vec![0x60, 0x05, 0x61, 0x03, 0x80, 0x15];
    emu.load(&prog);
    run(&mut emu, 3);
    assert_eq!(emu.v_reg[0], 2);
    assert_eq!(emu.v_reg[0xF], 1);
}

#[test]
fn sub_with_borrow_wraps_and_clears_flag() {
    // V0 = 3 - 5 = 254 mod 256, borrow: VF = 0.
    let mut emu = Emulator::new();
    let prog: Vec<u8> = vec![0x60, 0x03, 0x61, 0x05, 0x80, 0x15];
    emu.load(&prog);
    run(&mut emu, 3);
    assert_eq!(emu.v_reg[0], 254);
    assert_eq!(emu.v_reg[0xF], 0);
}

#[test]
fn reversed_sub_stores_into_vy() {
    // V1 = V0 - V1 = 7 - 2 = 5, no borrow: VF = 1.
    let mut emu = Emulator::new();
    let prog: Vec<u8> = vec![0x60, 0x07, 0x61, 0x02, 0x80, 0x17];
    emu.load(&prog);
    run(&mut emu, 3);
    assert_eq!(emu.v_reg[0], 7);
    assert_eq!(emu.v_reg[1], 5);
    assert_eq!(emu.v_reg[0xF], 1);
}

#[test]
fn left_shift_captures_high_bit() {
    let mut emu = Emulator::new();
    let prog: Vec<u8> = vec![0x60, 0x81, 0x80, 0x0E];
    emu.load(&prog);
    run(&mut emu, 2);
    assert_eq!(emu.v_reg[0], 0x02);
    assert_eq!(emu.v_reg[0xF], 1);
}

#[test]
fn right_shift_captures_low_bit() {
    let mut emu = Emulator::new();
    let prog: Vec<u8> = vec![0x60, 0x05, 0x80, 0x06];
    emu.load(&prog);
    run(&mut emu, 2);
    assert_eq!(emu.v_reg[0], 2);
    assert_eq!(emu.v_reg[0xF], 1);
}

#[test]
fn shift_left_then_right_restores_low_bits() {
    // V0 = 0xAB; after << then >>, the low seven bits return and the flag
    // holds the high bit that fell out.
    let mut emu = Emulator::new();
    let prog: Vec<u8> = vec![0x60, 0xAB, 0x80, 0x0E, 0x80, 0x06];
    emu.load(&prog);
    run(&mut emu, 2);
    let high_bit = emu.v_reg[0xF];
    assert_eq!(high_bit, 1);
    run(&mut emu, 1);
    assert_eq!(emu.v_reg[0], 0xAB & 0x7F);
    assert_eq!((emu.v_reg[0] as u16) + 128 * (high_bit as u16), 0xAB);
}

#[test]
fn bitwise_or_and_xor_and_assign() {
    let mut emu = Emulator::new();
    let prog: Vec<u8> = vec![0x60, 0x0C, 0x61, 0x0A, 0x80, 0x11];
    emu.load(&prog);
    run(&mut emu, 3);
    assert_eq!(emu.v_reg[0], 0x0E);

    let mut emu = Emulator::new();
    let prog: Vec<u8> = vec![0x60, 0x0C, 0x61, 0x0A, 0x80, 0x12];
    emu.load(&prog);
    run(&mut emu, 3);
    assert_eq!(emu.v_reg[0], 0x08);

    let mut emu = Emulator::new();
    let prog: Vec<u8> = vec![0x60, 0x0C, 0x61, 0x0A, 0x80, 0x13];
    emu.load(&prog);
    run(&mut emu, 3);
    assert_eq!(emu.v_reg[0], 0x06);

    let mut emu = Emulator::new();
    let prog: Vec<u8> = vec![0x60, 0x0C, 0x61, 0x0A, 0x80, 0x10];
    emu.load(&prog);
    run(&mut emu, 3);
    assert_eq!(emu.v_reg[0], 0x0A);
}

#[test]
fn bcd_of_zero() {
    bcd_case(0, [0, 0, 0]);
}

#[test]
fn bcd_of_nine() {
    bcd_case(9, [0, 0, 9]);
}

#[test]
fn bcd_of_ninety_nine() {
    bcd_case(99, [0, 9, 9]);
}

#[test]
fn bcd_of_two_fifty_five() {
    bcd_case(255, [2, 5, 5]);
}

fn bcd_case(value: u8, digits: [u8; 3]) {
    let mut emu = Emulator::new();
    let prog: Vec<u8> = vec![0x60, value, 0xA3, 0x00, 0xF0, 0x33];
    emu.load(&prog);
    run(&mut emu, 3);
    assert_eq!(emu.ram[0x300], digits[0]);
    assert_eq!(emu.ram[0x301], digits[1]);
    assert_eq!(emu.ram[0x302], digits[2]);
}

#[test]
fn random_masked_with_zero_is_zero() {
    // V0 = random byte AND 0x00 must always be zero, whatever was drawn.
    let mut emu = Emulator::new();
    let prog: Vec<u8> = vec![0x60, 0xAA, 0xC0, 0x00];
    emu.load(&prog);
    run(&mut emu, 2);
    assert_eq!(emu.v_reg[0], 0);
}

#[test]
fn random_masked_stays_within_mask() {
    let mut emu = Emulator::new();
    let prog: Vec<u8> = vec![0xC0, 0x0F];
    emu.load(&prog);
    run(&mut emu, 1);
    assert!(emu.v_reg[0] <= 0x0F);
}
