//! Sprite drawing, the clear-display opcode, and the key opcodes.

use chip8::{Chip8, Chip8Error};

fn boot(program: Vec<u8>) -> Chip8 {
    let mut c = Chip8::default();
    c.init(&program).expect("program fits in memory");
    c
}

fn run(c: &mut Chip8, cycles: usize) {
    for _ in 0..cycles {
        c.cycle().expect("program runs without error");
    }
}

fn pixel(c: &Chip8, r: usize, col: usize) -> u8 {
    c.get_display()[r][col]
}

#[test]
fn draw_single_byte_sprite() {
    // I = 0x300 (one sprite byte 0x80 there), draw 1 row at (V0, V1) = (0, 0).
    let mut program = vec![0u8; 0x101];
    program[0] = 0xA3;
    program[1] = 0x00;
    program[2] = 0xD0;
    program[3] = 0x11;
    program[0x100] = 0x80;
    let mut c = boot(program);
    run(&mut c, 2);
    assert_eq!(pixel(&c, 0, 0), 1);
    assert_eq!(pixel(&c, 0, 1), 0);
    assert_eq!(pixel(&c, 1, 0), 0);
    assert_eq!(c.get_register(0xF), 0);
}

#[test]
fn drawing_same_sprite_twice_erases_and_reports_collision() {
    // I = 0x300 (sprite byte 0x80), draw twice at the same origin.
    let mut program = vec![0u8; 0x101];
    program[0] = 0xA3;
    program[1] = 0x00;
    program[2] = 0xD0;
    program[3] = 0x11;
    program[4] = 0xD0;
    program[5] = 0x11;
    program[0x100] = 0x80;
    let mut c = boot(program);
    run(&mut c, 2);
    assert_eq!(pixel(&c, 0, 0), 1);
    assert_eq!(c.get_register(0xF), 0);
    run(&mut c, 1);
    assert_eq!(pixel(&c, 0, 0), 0);
    assert_eq!(c.get_register(0xF), 1);
}

#[test]
fn draw_wraps_origin_once() {
    // V0 = 66 wraps to column 2; V1 = 33 wraps to row 1.
    let mut program = vec![0u8; 0x101];
    let head = [0x60, 66, 0x61, 33, 0xA3, 0x00, 0xD0, 0x11];
    program[..head.len()].copy_from_slice(&head);
    program[0x100] = 0x80;
    let mut c = boot(program);
    run(&mut c, 4);
    assert_eq!(pixel(&c, 1, 2), 1);
    assert_eq!(pixel(&c, 1, 66 % 64), 1);
}

#[test]
fn draw_clips_at_the_edges_instead_of_wrapping() {
    // Origin (62, 30): a full 8-wide, 3-tall sprite of 0xFF rows leaves
    // only a 2x2 corner on the grid.
    let mut program = vec![0u8; 0x103];
    let head = [0x60, 62, 0x61, 30, 0xA3, 0x00, 0xD0, 0x13];
    program[..head.len()].copy_from_slice(&head);
    program[0x100] = 0xFF;
    program[0x101] = 0xFF;
    program[0x102] = 0xFF;
    let mut c = boot(program);
    run(&mut c, 4);
    for (r, col, want) in [
        (30, 62, 1u8),
        (30, 63, 1),
        (31, 62, 1),
        (31, 63, 1),
        (30, 0, 0),
        (31, 0, 0),
        (0, 62, 0),
        (0, 0, 0),
    ] {
        assert_eq!(pixel(&c, r, col), want);
    }
    assert_eq!(c.get_register(0xF), 0);
}

#[test]
fn draw_reading_past_memory_end_is_out_of_bounds() {
    // I = 0xFFF but the sprite is two rows tall.
    let mut c = boot(vec![0xAF, 0xFF, 0xD0, 0x12]);
    run(&mut c, 1);
    assert_eq!(c.cycle(), Err(Chip8Error::OutOfBounds));
}

#[test]
fn clear_display_turns_every_pixel_off() {
    // Draw the font sprite for 0 at (0, 0), then clear.
    let mut c = boot(vec![0xA0, 0x00, 0xD0, 0x15, 0x00, 0xE0]);
    run(&mut c, 2);
    assert_eq!(pixel(&c, 0, 0), 1);
    run(&mut c, 1);
    for r in 0..32 {
        for col in 0..64 {
            assert_eq!(pixel(&c, r, col), 0);
        }
    }
    assert_eq!(c.get_pc(), 0x206);
}

#[test]
fn wait_for_key_suspends_until_a_press() {
    let mut c = boot(vec![0xF0, 0x0A]);
    for _ in 0..3 {
        c.cycle().expect("waiting consumes no state");
        assert_eq!(c.get_pc(), 0x200);
        for x in 0..16 {
            assert_eq!(c.get_register(x), 0);
        }
    }
    c.set_keypad(7);
    c.set_keypad(3);
    run(&mut c, 1);
    // The lowest latched key is captured, the latch cleared, and the
    // program counter finally advances.
    assert_eq!(c.get_register(0), 3);
    assert_eq!(c.get_keypad(), 0);
    assert_eq!(c.get_pc(), 0x202);
}

#[test]
fn skip_if_key_pressed_clears_whole_latch() {
    // V0 = 0x0A, skip if key V0 pressed.
    let mut c = boot(vec![0x60, 0x0A, 0xE0, 0x9E]);
    c.set_keypad(0x0A);
    c.set_keypad(0x02);
    run(&mut c, 2);
    assert_eq!(c.get_pc(), 0x206);
    // The match cleared the other key's press too.
    assert_eq!(c.get_keypad(), 0);

    // Without the key latched there is no skip, and the latch stays.
    let mut c = boot(vec![0x60, 0x0A, 0xE0, 0x9E]);
    c.set_keypad(0x02);
    run(&mut c, 2);
    assert_eq!(c.get_pc(), 0x204);
    assert_eq!(c.get_keypad(), 1 << 0x02);
}

#[test]
fn skip_if_key_not_pressed() {
    // V0 = 0x0A, skip if key V0 not pressed: an empty latch matches.
    let mut c = boot(vec![0x60, 0x0A, 0xE0, 0xA1]);
    run(&mut c, 2);
    assert_eq!(c.get_pc(), 0x206);

    // With the key latched there is no skip and the latch stays.
    let mut c = boot(vec![0x60, 0x0A, 0xE0, 0xA1]);
    c.set_keypad(0x0A);
    run(&mut c, 2);
    assert_eq!(c.get_pc(), 0x204);
    assert_eq!(c.get_keypad(), 1 << 0x0A);
}
