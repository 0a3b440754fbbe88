use chip8_core::Emulator;
use chip8_core::SCREEN_WIDTH;

fn run(emu: &mut Emulator, ticks: usize) {
    for _ in 0..ticks {
        emu.tick().unwrap();
    }
}

fn pixel(emu: &Emulator, x: usize, y: usize) -> bool {
    emu.screen[x + SCREEN_WIDTH * y]
}

#[test]
fn draw_puts_the_font_glyph_on_screen() {
    // Draw the five-row glyph for 0 (at address 0) at (10, 5).
    let mut emu = Emulator::new();
    let prog: Vec<u8> = vec![0x60, 0x0A, 0x61, 0x05, 0xA0, 0x00, 0xD0, 0x15];
    emu.load(&prog);
    run(&mut emu, 4);
    // Top row of the glyph is 0xF0: four lit pixels.
    assert!(pixel(&emu, 10, 5));
    assert!(pixel(&emu, 11, 5));
    assert!(pixel(&emu, 12, 5));
    assert!(pixel(&emu, 13, 5));
    assert!(!pixel(&emu, 14, 5));
    // Second row is 0x90: ends lit, middle dark.
    assert!(pixel(&emu, 10, 6));
    assert!(!pixel(&emu, 11, 6));
    assert!(!pixel(&emu, 12, 6));
    assert!(pixel(&emu, 13, 6));
    assert_eq!(emu.v_reg[0xF], 0);
}

#[test]
fn drawing_twice_erases_and_reports_collision() {
    let mut emu = Emulator::new();
    let prog: Vec<u8> = vec![0x60, 0x0A, 0x61, 0x05, 0xA0, 0x00, 0xD0, 0x15, 0xD0, 0x15];
    emu.load(&prog);
    run(&mut emu, 4);
    assert_eq!(emu.v_reg[0xF], 0);
    assert!(pixel(&emu, 10, 5));

    run(&mut emu, 1);
    assert_eq!(emu.v_reg[0xF], 1);
    assert!(emu.screen.iter().all(|&p| !p));
}

#[test]
fn sprite_wraps_at_the_right_and_bottom_edges() {
    // A two-row sprite of 0xC0 bytes (two lit columns) drawn at (63, 31):
    // its cells wrap onto all four screen corners.
    let mut emu = Emulator::new();
    let prog: Vec<u8> = vec![0x60, 0x3F, 0x61, 0x1F, 0xA2, 0x08, 0xD0, 0x12, 0xC0, 0xC0];
    emu.load(&prog);
    run(&mut emu, 4);
    assert!(pixel(&emu, 63, 31));
    assert!(pixel(&emu, 0, 31));
    assert!(pixel(&emu, 63, 0));
    assert!(pixel(&emu, 0, 0));
    assert_eq!(emu.v_reg[0xF], 0);
    assert_eq!(emu.screen.iter().filter(|&&p| p).count(), 4);
}

#[test]
fn clear_screen_darkens_everything() {
    let mut emu = Emulator::new();
    let prog: Vec<u8> = vec![0xA0, 0x00, 0xD0, 0x15, 0x00, 0xE0];
    emu.load(&prog);
    run(&mut emu, 2);
    assert!(emu.screen.iter().any(|&p| p));
    run(&mut emu, 1);
    assert!(emu.screen.iter().all(|&p| !p));
}

#[test]
fn partial_overlap_collides_without_erasing_everything() {
    // Draw the glyph for 0, then draw a one-row sprite across its top row.
    let mut emu = Emulator::new();
    let prog: Vec<u8> = vec![0xA0, 0x00, 0xD0, 0x15, 0xD0, 0x11];
    emu.load(&prog);
    run(&mut emu, 2);
    assert_eq!(emu.v_reg[0xF], 0);
    run(&mut emu, 1);
    // The second draw re-toggled only the top row.
    assert_eq!(emu.v_reg[0xF], 1);
    assert!(!pixel(&emu, 0, 0));
    assert!(pixel(&emu, 0, 1));
}

#[test]
fn zero_row_sprite_draws_nothing() {
    let mut emu = Emulator::new();
    let prog: Vec<u8> = vec![0xA0, 0x00, 0xD0, 0x10];
    emu.load(&prog);
    run(&mut emu, 2);
    assert!(emu.screen.iter().all(|&p| !p));
    assert_eq!(emu.v_reg[0xF], 0);
}

#[test]
fn fifteen_row_sprite_lights_every_row() {
    // Fifteen 0x80 rows starting at the program's data byte: one pixel per
    // row in column 20.
    let mut emu = Emulator::new();
    let mut prog: Vec<u8> = vec![0x60, 0x14, 0x61, 0x00, 0xA2, 0x08, 0xD0, 0x1F];
    for _ in 0..15 {
        prog.push(0x80);
    }
    emu.load(&prog);
    run(&mut emu, 4);
    for y in 0..15 {
        assert!(pixel(&emu, 20, y));
    }
    assert!(!pixel(&emu, 20, 15));
    assert_eq!(emu.screen.iter().filter(|&&p| p).count(), 15);
}

#[test]
fn font_address_uses_the_low_nibble() {
    let mut emu = Emulator::new();
    let prog: Vec<u8> = vec![0x60, 0x0B, 0xF0, 0x29];
    emu.load(&prog);
    run(&mut emu, 2);
    assert_eq!(emu.i_reg, 55);

    let mut emu = Emulator::new();
    let prog: Vec<u8> = vec![0x60, 0x1B, 0xF0, 0x29];
    emu.load(&prog);
    run(&mut emu, 2);
    assert_eq!(emu.i_reg, 55);
}

#[test]
fn index_register_arithmetic() {
    let mut emu = Emulator::new();
    let prog: Vec<u8> = vec![0xA0, 0x10, 0x60, 0xFF, 0xF0, 0x1E];
    emu.load(&prog);
    run(&mut emu, 3);
    assert_eq!(emu.i_reg, 0x10F);
}

#[test]
fn store_and_load_register_blocks() {
    let mut emu = Emulator::new();
    let prog: Vec<u8> = vec![0x60, 0x11, 0x61, 0x22, 0xA3, 0x00, 0xF1, 0x55];
    emu.load(&prog);
    run(&mut emu, 4);
    assert_eq!(emu.ram[0x300], 0x11);
    assert_eq!(emu.ram[0x301], 0x22);
    assert_eq!(emu.ram[0x302], 0x00);

    // Load V0..=V1 from bytes placed after the code.
    let mut emu = Emulator::new();
    let prog: Vec<u8> = vec![0xA2, 0x06, 0xF1, 0x66, 0x00, 0x00, 0xAB, 0xCD];
    emu.load(&prog);
    run(&mut emu, 2);
    assert_eq!(emu.v_reg[0], 0xAB);
    assert_eq!(emu.v_reg[1], 0xCD);
    assert_eq!(emu.v_reg[2], 0);
    assert_eq!(emu.v_reg[0xF], 0);
}
