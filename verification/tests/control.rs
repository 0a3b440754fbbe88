use chip8_core::Emulator;
use chip8_core::Fault;

fn run(emu: &mut Emulator, ticks: usize) {
    for _ in 0..ticks {
        emu.tick().unwrap();
    }
}

#[test]
fn jump_redirects_the_program_counter() {
    let mut emu = Emulator::new();
    let prog: Vec<u8> = vec![0x13, 0x45];
    emu.load(&prog);
    run(&mut emu, 1);
    assert_eq!(emu.pc, 0x345);
}

#[test]
fn jump_with_offset_adds_v0() {
    let mut emu = Emulator::new();
    let prog: Vec<u8> = vec![0x60, 0x04, 0xB2, 0x06];
    emu.load(&prog);
    run(&mut emu, 2);
    assert_eq!(emu.pc, 0x20A);
}

#[test]
fn call_and_return_restore_pc_and_stack_pointer() {
    // 0x200: call 0x204.  0x204: return.
    let mut emu = Emulator::new();
    let prog: Vec<u8> = vec![0x22, 0x04, 0x00, 0x00, 0x00, 0xEE];
    emu.load(&prog);

    emu.tick().unwrap();
    assert_eq!(emu.pc, 0x204);
    assert_eq!(emu.stack_ptr, 1);
    assert_eq!(emu.stack[0], 0x202);

    emu.tick().unwrap();
    assert_eq!(emu.pc, 0x202);
    assert_eq!(emu.stack_ptr, 0);
}

#[test]
fn skip_if_equal_immediate() {
    let mut emu = Emulator::new();
    let prog: Vec<u8> = vec![0x30, 0x00];
    emu.load(&prog);
    run(&mut emu, 1);
    assert_eq!(emu.pc, 0x204);

    let mut emu = Emulator::new();
    let prog: Vec<u8> = vec![0x30, 0x01];
    emu.load(&prog);
    run(&mut emu, 1);
    assert_eq!(emu.pc, 0x202);
}

#[test]
fn skip_if_not_equal_immediate() {
    let mut emu = Emulator::new();
    let prog: Vec<u8> = vec![0x40, 0x01];
    emu.load(&prog);
    run(&mut emu, 1);
    assert_eq!(emu.pc, 0x204);
}

#[test]
fn skip_on_register_comparison() {
    // V0 == V1 (both zero): 5XY0 skips.
    let mut emu = Emulator::new();
    let prog: Vec<u8> = vec![0x50, 0x10];
    emu.load(&prog);
    run(&mut emu, 1);
    assert_eq!(emu.pc, 0x204);

    // V0 != V1: 9XY0 skips.
    let mut emu = Emulator::new();
    let prog: Vec<u8> = vec![0x60, 0x07, 0x90, 0x10];
    emu.load(&prog);
    run(&mut emu, 2);
    assert_eq!(emu.pc, 0x206);
}

#[test]
fn skip_when_key_pressed_uses_low_nibble() {
    // V0 = 0x13 names key 3.
    let mut emu = Emulator::new();
    let prog: Vec<u8> = vec![0x60, 0x13, 0xE0, 0x9E];
    emu.load(&prog);
    emu.set_key(3, true);
    run(&mut emu, 2);
    assert_eq!(emu.pc, 0x206);

    let mut emu = Emulator::new();
    let prog: Vec<u8> = vec![0x60, 0x13, 0xE0, 0x9E];
    emu.load(&prog);
    run(&mut emu, 2);
    assert_eq!(emu.pc, 0x204);
}

#[test]
fn skip_when_key_not_pressed() {
    let mut emu = Emulator::new();
    let prog: Vec<u8> = vec![0xE0, 0xA1];
    emu.load(&prog);
    run(&mut emu, 1);
    assert_eq!(emu.pc, 0x204);

    let mut emu = Emulator::new();
    let prog: Vec<u8> = vec![0xE0, 0xA1];
    emu.load(&prog);
    emu.set_key(0, true);
    run(&mut emu, 1);
    assert_eq!(emu.pc, 0x202);
}

#[test]
fn wait_for_key_blocks_until_a_press() {
    let mut emu = Emulator::new();
    let prog: Vec<u8> = vec![0xF5, 0x0A];
    emu.load(&prog);

    emu.tick().unwrap();
    assert_eq!(emu.pc, 0x200);

    emu.tick().unwrap();
    assert_eq!(emu.pc, 0x200);

    emu.set_key(7, true);
    emu.tick().unwrap();
    assert_eq!(emu.pc, 0x202);
    assert_eq!(emu.v_reg[5], 7);
}

#[test]
fn wait_for_key_takes_the_lowest_pressed_index() {
    let mut emu = Emulator::new();
    let prog: Vec<u8> = vec![0xF5, 0x0A];
    emu.load(&prog);
    emu.set_key(7, true);
    emu.set_key(3, true);
    emu.tick().unwrap();
    assert_eq!(emu.v_reg[5], 3);
}

#[test]
fn delay_timer_round_trip() {
    let mut emu = Emulator::new();
    let prog: Vec<u8> = vec![0x60, 0x0A, 0xF0, 0x15, 0xF1, 0x07];
    emu.load(&prog);
    run(&mut emu, 3);
    assert_eq!(emu.delay_timer, 10);
    assert_eq!(emu.v_reg[1], 10);
}

#[test]
fn unknown_opcode_is_reported_and_changes_nothing() {
    let mut emu = Emulator::new();
    let prog: Vec<u8> = vec![0x00, 0x01];
    emu.load(&prog);
    let r = emu.tick();
    assert_eq!(r, Err(Fault::UnknownOpcode));
    assert_eq!(emu.pc, 0x200);
}

#[test]
fn return_with_empty_stack_underflows() {
    let mut emu = Emulator::new();
    let prog: Vec<u8> = vec![0x00, 0xEE];
    emu.load(&prog);
    let r = emu.tick();
    assert_eq!(r, Err(Fault::StackUnderflow));
    assert_eq!(emu.pc, 0x200);
    assert_eq!(emu.stack_ptr, 0);
}

#[test]
fn seventeen_nested_calls_overflow_the_stack() {
    // The call at 0x200 targets itself, so every tick pushes once.
    let mut emu = Emulator::new();
    let prog: Vec<u8> = vec![0x22, 0x00];
    emu.load(&prog);
    for _ in 0..16 {
        emu.tick().unwrap();
    }
    assert_eq!(emu.stack_ptr, 16);
    let r = emu.tick();
    assert_eq!(r, Err(Fault::StackOverflow));
    assert_eq!(emu.stack_ptr, 16);
    assert_eq!(emu.pc, 0x200);
}

#[test]
fn fetch_outside_memory_is_reported() {
    let mut emu = Emulator::new();
    let prog: Vec<u8> = vec![0x1F, 0xFF];
    emu.load(&prog);
    emu.tick().unwrap();
    assert_eq!(emu.pc, 0xFFF);
    let r = emu.tick();
    assert_eq!(r, Err(Fault::MemoryOutOfBounds));
    assert_eq!(emu.pc, 0xFFF);
}

#[test]
fn bcd_store_outside_memory_is_reported() {
    let mut emu = Emulator::new();
    let prog: Vec<u8> = vec![0xAF, 0xFF, 0xF0, 0x33];
    emu.load(&prog);
    emu.tick().unwrap();
    let r = emu.tick();
    assert_eq!(r, Err(Fault::MemoryOutOfBounds));
    assert_eq!(emu.pc, 0x202);
    assert_eq!(emu.ram[0xFFF], 0);
}

#[test]
fn register_store_outside_memory_is_reported() {
    let mut emu = Emulator::new();
    let prog: Vec<u8> = vec![0xAF, 0xFF, 0xF1, 0x55];
    emu.load(&prog);
    emu.tick().unwrap();
    let r = emu.tick();
    assert_eq!(r, Err(Fault::MemoryOutOfBounds));
}
