//! Instruction semantics, one scenario per opcode group.

use chip8::{Chip8, Chip8Error};

fn boot(program: Vec<u8>) -> Chip8 {
    let mut c = Chip8::default();
    c.init(&program).expect("program fits in memory");
    c
}

fn run(c: &mut Chip8, cycles: usize) {
    for _ in 0..cycles {
        c.cycle().expect("program runs without error");
    }
}

#[test]
fn load_immediate_then_add_wraps_without_flag() {
    // VF = 7 (sentinel), V0 = 0xFF, V0 += 0x02.
    let mut c = boot(vec![0x6F, 0x07, 0x60, 0xFF, 0x70, 0x02]);
    run(&mut c, 2);
    assert_eq!(c.get_register(0), 0xFF);
    run(&mut c, 1);
    assert_eq!(c.get_register(0), 0x01);
    // The add-immediate has no flag side effect.
    assert_eq!(c.get_register(0xF), 0x07);
}

#[test]
fn add_register_carry() {
    // V0 = 0xFF, V1 = 0x01, V0 += V1.
    let mut c = boot(vec![0x60, 0xFF, 0x61, 0x01, 0x80, 0x14]);
    run(&mut c, 3);
    assert_eq!(c.get_register(0), 0x00);
    assert_eq!(c.get_register(0xF), 1);
}

#[test]
fn add_register_no_carry() {
    // V0 = 0x01, V1 = 0x01, V0 += V1.
    let mut c = boot(vec![0x60, 0x01, 0x61, 0x01, 0x80, 0x14]);
    run(&mut c, 3);
    assert_eq!(c.get_register(0), 0x02);
    assert_eq!(c.get_register(0xF), 0);
}

#[test]
fn subtract_equal_operands_needs_no_borrow() {
    // V0 = 0x05, V1 = 0x05, V0 -= V1.
    let mut c = boot(vec![0x60, 0x05, 0x61, 0x05, 0x80, 0x15]);
    run(&mut c, 3);
    assert_eq!(c.get_register(0), 0x00);
    assert_eq!(c.get_register(0xF), 1);
}

#[test]
fn subtract_smaller_from_larger_borrows() {
    // V0 = 0x05, V1 = 0x07, V0 -= V1: wraps, flag reports a borrow.
    let mut c = boot(vec![0x60, 0x05, 0x61, 0x07, 0x80, 0x15]);
    run(&mut c, 3);
    assert_eq!(c.get_register(0), 0xFE);
    assert_eq!(c.get_register(0xF), 0);
}

#[test]
fn subtract_reversed_operands() {
    // V0 = 0x03, V1 = 0x08, V0 = V1 - V0.
    let mut c = boot(vec![0x60, 0x03, 0x61, 0x08, 0x80, 0x17]);
    run(&mut c, 3);
    assert_eq!(c.get_register(0), 0x05);
    assert_eq!(c.get_register(0xF), 1);

    // V0 = 0x08, V1 = 0x03, V0 = V1 - V0: wraps, flag reports a borrow.
    let mut c = boot(vec![0x60, 0x08, 0x61, 0x03, 0x80, 0x17]);
    run(&mut c, 3);
    assert_eq!(c.get_register(0), 0xFB);
    assert_eq!(c.get_register(0xF), 0);
}

#[test]
fn logic_ops_reset_flag_register() {
    // VF = 5, V0 = 0x0C, V1 = 0x0A, V0 |= V1.
    let mut c = boot(vec![0x6F, 0x05, 0x60, 0x0C, 0x61, 0x0A, 0x80, 0x11]);
    run(&mut c, 4);
    assert_eq!(c.get_register(0), 0x0E);
    assert_eq!(c.get_register(0xF), 0);

    // VF = 5, V0 = 0x0C, V1 = 0x0A, V0 &= V1.
    let mut c = boot(vec![0x6F, 0x05, 0x60, 0x0C, 0x61, 0x0A, 0x80, 0x12]);
    run(&mut c, 4);
    assert_eq!(c.get_register(0), 0x08);
    assert_eq!(c.get_register(0xF), 0);

    // VF = 5, V0 = 0x0C, V1 = 0x0A, V0 ^= V1.
    let mut c = boot(vec![0x6F, 0x05, 0x60, 0x0C, 0x61, 0x0A, 0x80, 0x13]);
    run(&mut c, 4);
    assert_eq!(c.get_register(0), 0x06);
    assert_eq!(c.get_register(0xF), 0);
}

#[test]
fn move_register_copies_value() {
    // V1 = 0x42, V0 = V1.
    let mut c = boot(vec![0x61, 0x42, 0x80, 0x10]);
    run(&mut c, 2);
    assert_eq!(c.get_register(0), 0x42);
}

#[test]
fn shift_right_copies_source_and_reports_low_bit() {
    // V1 = 0x05, V0 = V1 >> 1.
    let mut c = boot(vec![0x61, 0x05, 0x80, 0x16]);
    run(&mut c, 2);
    assert_eq!(c.get_register(0), 0x02);
    assert_eq!(c.get_register(0xF), 1);
}

#[test]
fn shift_left_copies_source_and_reports_high_bit() {
    // V1 = 0x81, V0 = V1 << 1.
    let mut c = boot(vec![0x61, 0x81, 0x80, 0x1E]);
    run(&mut c, 2);
    assert_eq!(c.get_register(0), 0x02);
    assert_eq!(c.get_register(0xF), 1);
}

#[test]
fn skip_instructions_take_both_branches() {
    // V0 = 7; skip-if-equal taken: the skipped slot would load V1.
    let mut c = boot(vec![0x60, 0x07, 0x30, 0x07, 0x61, 0x99, 0x00, 0x00]);
    run(&mut c, 2);
    assert_eq!(c.get_pc(), 0x206);
    assert_eq!(c.get_register(1), 0);

    // Skip-if-equal not taken.
    let mut c = boot(vec![0x60, 0x07, 0x30, 0x08]);
    run(&mut c, 2);
    assert_eq!(c.get_pc(), 0x204);

    // Skip-if-not-equal taken.
    let mut c = boot(vec![0x60, 0x07, 0x40, 0x08]);
    run(&mut c, 2);
    assert_eq!(c.get_pc(), 0x206);

    // Register-to-register skips, equal and not equal.
    let mut c = boot(vec![0x60, 0x07, 0x61, 0x07, 0x50, 0x10]);
    run(&mut c, 3);
    assert_eq!(c.get_pc(), 0x208);

    let mut c = boot(vec![0x60, 0x07, 0x61, 0x08, 0x90, 0x10]);
    run(&mut c, 3);
    assert_eq!(c.get_pc(), 0x208);
}

#[test]
fn jump_sets_pc_directly() {
    let mut c = boot(vec![0x13, 0x46]);
    run(&mut c, 1);
    assert_eq!(c.get_pc(), 0x346);
}

#[test]
fn jump_plus_v0() {
    // V0 = 5, jump to 0x300 + V0.
    let mut c = boot(vec![0x60, 0x05, 0xB3, 0x00]);
    run(&mut c, 2);
    assert_eq!(c.get_pc(), 0x305);
}

#[test]
fn sys_opcode_is_a_noop_that_advances() {
    let mut c = boot(vec![0x02, 0x34]);
    run(&mut c, 1);
    assert_eq!(c.get_pc(), 0x202);
    assert_eq!(c.get_sp(), 0);
}

#[test]
fn call_and_return_round_trip() {
    let mut program = vec![0u8; 0x102];
    program[0] = 0x23; // CALL 0x300
    program[1] = 0x00;
    program[0x100] = 0x00; // RET at 0x300
    program[0x101] = 0xEE;
    let mut c = boot(program);
    run(&mut c, 1);
    assert_eq!(c.get_pc(), 0x300);
    assert_eq!(c.get_sp(), 1);
    // The return address is the unadvanced call-site program counter.
    assert_eq!(c.get_stack(1), 0x200);
    run(&mut c, 1);
    assert_eq!(c.get_pc(), 0x200);
    assert_eq!(c.get_sp(), 0);
}

#[test]
fn seventeenth_nested_call_overflows() {
    // Seventeen chained calls, each to the next instruction.
    let mut program = Vec::new();
    for k in 0..17u16 {
        let target = 0x202 + 2 * k;
        program.push(0x20 | (target >> 8) as u8);
        program.push((target & 0xFF) as u8);
    }
    let mut c = boot(program);
    for _ in 0..16 {
        c.cycle().expect("first sixteen calls fit the stack");
    }
    assert_eq!(c.get_sp(), 16);
    let pc_before = c.get_pc();
    assert_eq!(c.cycle(), Err(Chip8Error::StackOverflow));
    // The failed call left the machine unchanged.
    assert_eq!(c.get_pc(), pc_before);
    assert_eq!(c.get_sp(), 16);
}

#[test]
fn return_without_call_underflows() {
    let mut c = boot(vec![0x00, 0xEE]);
    assert_eq!(c.cycle(), Err(Chip8Error::StackUnderflow));
    assert_eq!(c.get_pc(), 0x200);
}

#[test]
fn invalid_opcode_is_reported_with_its_value() {
    let mut c = boot(vec![0xFF, 0xFF]);
    assert_eq!(c.cycle(), Err(Chip8Error::InvalidOpcode(0xFFFF)));
    assert_eq!(c.get_pc(), 0x200);

    let mut c = boot(vec![0x80, 0x18]);
    assert_eq!(c.cycle(), Err(Chip8Error::InvalidOpcode(0x8018)));
}

#[test]
fn fetch_past_memory_end_is_out_of_bounds() {
    // Jump to 4094, execute the zero word there as a no-op, and the
    // program counter lands past the end of memory.
    let mut c = boot(vec![0x1F, 0xFE]);
    run(&mut c, 2);
    assert_eq!(c.get_pc(), 4096);
    assert_eq!(c.cycle(), Err(Chip8Error::OutOfBounds));
}

#[test]
fn load_i_and_font_addr() {
    let mut c = boot(vec![0xA1, 0x23]);
    run(&mut c, 1);
    assert_eq!(c.get_i(), 0x123);

    // V0 = 0xA: the font sprite for digit A sits at 10 * 5 = 50.
    let mut c = boot(vec![0x60, 0x0A, 0xF0, 0x29]);
    run(&mut c, 2);
    assert_eq!(c.get_i(), 50);
    assert_eq!(c.get_memory(50), 0xF0);
}

#[test]
fn add_i_accumulates() {
    // V0 = 0x10, I = 0x300, I += V0 twice.
    let mut c = boot(vec![0x60, 0x10, 0xA3, 0x00, 0xF0, 0x1E, 0xF0, 0x1E]);
    run(&mut c, 4);
    assert_eq!(c.get_i(), 0x320);
}

#[test]
fn bcd_store_writes_three_digits() {
    // V0 = 254, I = 0x300, BCD store.
    let mut c = boot(vec![0x60, 0xFE, 0xA3, 0x00, 0xF0, 0x33]);
    run(&mut c, 3);
    assert_eq!(c.get_memory(0x300), 2);
    assert_eq!(c.get_memory(0x301), 5);
    assert_eq!(c.get_memory(0x302), 4);
    // The address register itself does not move.
    assert_eq!(c.get_i(), 0x300);
}

#[test]
fn bcd_store_past_memory_end_is_out_of_bounds() {
    // I = 0xFFE leaves no room for three digits.
    let mut c = boot(vec![0xAF, 0xFE, 0xF0, 0x33]);
    run(&mut c, 1);
    assert_eq!(c.cycle(), Err(Chip8Error::OutOfBounds));
}

#[test]
fn register_block_store_and_load() {
    // V0 = 0x11, V1 = 0x22, I = 0x300, store V0..=V1, then zero both
    // registers, point I back, and load V0..=V1 again.
    let mut c = boot(vec![
        0x60, 0x11, 0x61, 0x22, 0xA3, 0x00, 0xF1, 0x55, 0x60, 0x00, 0x61, 0x00, 0xA3, 0x00, 0xF1,
        0x65,
    ]);
    run(&mut c, 4);
    assert_eq!(c.get_memory(0x300), 0x11);
    assert_eq!(c.get_memory(0x301), 0x22);
    // The block store leaves I just past the block.
    assert_eq!(c.get_i(), 0x302);
    run(&mut c, 4);
    assert_eq!(c.get_register(0), 0x11);
    assert_eq!(c.get_register(1), 0x22);
    assert_eq!(c.get_i(), 0x302);
}

#[test]
fn register_block_past_memory_end_is_out_of_bounds() {
    // I = 0xFFF, store V0..=V1 would write past the end.
    let mut c = boot(vec![0xAF, 0xFF, 0xF1, 0x55]);
    run(&mut c, 1);
    assert_eq!(c.cycle(), Err(Chip8Error::OutOfBounds));
}

#[test]
fn random_respects_its_mask() {
    // V0 = random & 0xF0: the low nibble is always clear.
    // V1 = random & 0x00: a zero mask forces zero.
    let mut c = boot(vec![0xC0, 0xF0, 0xC1, 0x00]);
    run(&mut c, 2);
    assert_eq!(c.get_register(0) & 0x0F, 0);
    assert_eq!(c.get_register(1), 0);
}
