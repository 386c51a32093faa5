//! Machine state: creation, program loading, keypad latch and timers.

use chip8::{Chip8, Chip8Error};

fn boot(program: Vec<u8>) -> Chip8 {
    let mut c = Chip8::default();
    c.init(&program).expect("program fits in memory");
    c
}

#[test]
fn default_machine_is_zeroed() {
    let c = Chip8::default();
    assert_eq!(c.get_pc(), 0);
    assert_eq!(c.get_i(), 0);
    assert_eq!(c.get_sp(), 0);
    assert_eq!(c.get_delay_timer(), 0);
    assert_eq!(c.get_sound_timer(), 0);
    assert_eq!(c.get_keypad(), 0);
    for x in 0..16 {
        assert_eq!(c.get_register(x), 0);
    }
    let d = c.get_display();
    assert_eq!(d.len(), 32);
    for row in d.iter() {
        assert_eq!(row.len(), 64);
        for &p in row.iter() {
            assert_eq!(p, 0);
        }
    }
}

#[test]
fn initialize_places_program_and_sets_pc() {
    let program = vec![0x12, 0x34, 0x56];
    let c = boot(program.clone());
    assert_eq!(c.get_pc(), 0x200);
    for (k, &byte) in program.iter().enumerate() {
        assert_eq!(c.get_memory(0x200 + k as u16), byte);
    }
    assert_eq!(c.get_memory(0x203), 0);
    assert_eq!(c.get_memory(4095), 0);
}

#[test]
fn initialize_accepts_largest_program() {
    let program = vec![0xAB; 3584];
    let c = boot(program);
    assert_eq!(c.get_memory(0x200), 0xAB);
    assert_eq!(c.get_memory(4095), 0xAB);
}

#[test]
fn initialize_rejects_program_too_large() {
    let mut c = Chip8::default();
    let r = c.init(&vec![0u8; 3585]);
    assert_eq!(r, Err(Chip8Error::ProgramTooLarge));
    // The failed load left the machine untouched.
    assert_eq!(c.get_pc(), 0);
    assert_eq!(c.get_memory(0), 0);
}

#[test]
fn initialize_writes_font_table() {
    let c = boot(vec![]);
    // The sprite for digit 0 starts the table...
    assert_eq!(c.get_memory(0), 0xF0);
    assert_eq!(c.get_memory(1), 0x90);
    assert_eq!(c.get_memory(4), 0xF0);
    // ...the sprite for digit 1 follows...
    assert_eq!(c.get_memory(5), 0x20);
    // ...and the sprite for 0xF ends it.
    assert_eq!(c.get_memory(75), 0xF0);
    assert_eq!(c.get_memory(79), 0x80);
    assert_eq!(c.get_memory(80), 0);
}

#[test]
fn initialize_resets_earlier_run() {
    let mut c = boot(vec![0x60, 0x55]); // V0 = 0x55
    c.cycle().expect("load immediate runs");
    assert_eq!(c.get_register(0), 0x55);
    c.init(&vec![]).expect("empty program fits");
    assert_eq!(c.get_register(0), 0);
    assert_eq!(c.get_pc(), 0x200);
}

#[test]
fn press_key_coalesces_in_latch() {
    let mut c = Chip8::default();
    c.set_keypad(2);
    c.set_keypad(2);
    c.set_keypad(5);
    assert_eq!(c.get_keypad(), (1 << 2) | (1 << 5));
}

#[test]
fn timers_floor_at_zero() {
    // V0 = 3, delay timer = V0, sound timer = V0.
    let mut c = boot(vec![0x60, 0x03, 0xF0, 0x15, 0xF0, 0x18]);
    for _ in 0..3 {
        c.cycle().expect("timer setup runs");
    }
    assert_eq!(c.get_delay_timer(), 3);
    assert_eq!(c.get_sound_timer(), 3);
    for expected in [2u8, 1, 0, 0, 0] {
        c.update_timers();
        assert_eq!(c.get_delay_timer(), expected);
        assert_eq!(c.get_sound_timer(), expected);
    }
}

#[test]
fn delay_timer_readable_by_program() {
    // V0 = 5, DT = V0, V1 = DT.
    let mut c = boot(vec![0x60, 0x05, 0xF0, 0x15, 0xF1, 0x07]);
    for _ in 0..3 {
        c.cycle().expect("program runs");
    }
    assert_eq!(c.get_register(1), 5);
}
