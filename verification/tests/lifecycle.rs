use chip8_core::Emulator;
use chip8_core::SCREEN_HEIGHT;
use chip8_core::SCREEN_WIDTH;

#[test]
fn new_starts_at_load_address() {
    let emu = Emulator::new();
    assert_eq!(emu.pc, 0x200);
    assert_eq!(emu.i_reg, 0);
    assert_eq!(emu.stack_ptr, 0);
    assert_eq!(emu.delay_timer, 0);
    assert_eq!(emu.sound_timer, 0);
    assert!(emu.v_reg.iter().all(|&v| v == 0));
    assert!(emu.keys.iter().all(|&k| !k));
    assert!(emu.screen.iter().all(|&p| !p));
}

#[test]
fn new_installs_font() {
    let emu = Emulator::new();
    // Glyph for 0.
    assert_eq!(&emu.ram[0..5], &[0xF0, 0x90, 0x90, 0x90, 0xF0]);
    // Glyph for 7.
    assert_eq!(&emu.ram[35..40], &[0xF0, 0x10, 0x20, 0x40, 0x40]);
    // Glyph for F.
    assert_eq!(&emu.ram[75..80], &[0xF0, 0x80, 0xF0, 0x80, 0x80]);
    // Everything after the font is zero.
    assert!(emu.ram[80..].iter().all(|&b| b == 0));
}

#[test]
fn reset_matches_new() {
    let mut emu = Emulator::new();
    let prog: Vec<u8> = vec![0x60, 0x2A, 0xA3, 0x00];
    emu.load(&prog);
    emu.tick().unwrap();
    emu.tick().unwrap();
    emu.set_key(4, true);
    emu.delay_timer = 9;
    emu.sound_timer = 3;
    emu.reset();

    let fresh = Emulator::new();
    assert_eq!(emu.pc, fresh.pc);
    assert_eq!(emu.ram, fresh.ram);
    assert_eq!(emu.screen, fresh.screen);
    assert_eq!(emu.v_reg, fresh.v_reg);
    assert_eq!(emu.i_reg, fresh.i_reg);
    assert_eq!(emu.stack_ptr, fresh.stack_ptr);
    assert_eq!(emu.stack, fresh.stack);
    assert_eq!(emu.keys, fresh.keys);
    assert_eq!(emu.delay_timer, fresh.delay_timer);
    assert_eq!(emu.sound_timer, fresh.sound_timer);
}

#[test]
fn load_copies_image_at_load_address() {
    let mut emu = Emulator::new();
    let prog: Vec<u8> = vec![0xDE, 0xAD, 0xBE, 0xEF];
    emu.load(&prog);
    assert_eq!(&emu.ram[0x200..0x204], &[0xDE, 0xAD, 0xBE, 0xEF]);
    // Bytes around the image keep their values.
    assert_eq!(emu.ram[0x1FF], 0);
    assert_eq!(emu.ram[0x204], 0);
    assert_eq!(emu.ram[0], 0xF0);
}

#[test]
fn load_of_an_empty_image_changes_nothing() {
    let mut emu = Emulator::new();
    let prog: Vec<u8> = vec![];
    emu.load(&prog);
    let fresh = Emulator::new();
    assert_eq!(emu.ram, fresh.ram);
}

#[test]
fn set_key_records_presses_and_releases() {
    let mut emu = Emulator::new();
    emu.set_key(0xC, true);
    assert!(emu.keys[0xC]);
    assert!(!emu.keys[0xB]);
    emu.set_key(0xC, false);
    assert!(!emu.keys[0xC]);
}

#[test]
fn get_display_views_the_framebuffer() {
    let emu = Emulator::new();
    let display = emu.get_display();
    assert_eq!(display.len(), SCREEN_WIDTH * SCREEN_HEIGHT);
    assert!(display.iter().all(|&p| !p));
}

#[test]
fn timers_decrement_and_saturate() {
    let mut emu = Emulator::new();
    emu.delay_timer = 2;
    emu.tick_timers();
    assert_eq!(emu.delay_timer, 1);
    emu.tick_timers();
    assert_eq!(emu.delay_timer, 0);
    emu.tick_timers();
    assert_eq!(emu.delay_timer, 0);
}

#[test]
fn sound_timer_signals_tone_exactly_once() {
    let mut emu = Emulator::new();
    // The program sets V0 = 1 and copies it into the sound timer.
    let prog: Vec<u8> = vec![0x60, 0x01, 0xF0, 0x18];
    emu.load(&prog);
    emu.tick().unwrap();
    emu.tick().unwrap();
    assert_eq!(emu.sound_timer, 1);

    let tone = emu.tick_timers();
    assert!(tone);
    assert_eq!(emu.sound_timer, 0);

    let tone_again = emu.tick_timers();
    assert!(!tone_again);
    assert_eq!(emu.sound_timer, 0);
}

#[test]
fn sound_timer_above_one_raises_no_tone() {
    let mut emu = Emulator::new();
    emu.sound_timer = 5;
    let tone = emu.tick_timers();
    assert!(!tone);
    assert_eq!(emu.sound_timer, 4);
}
