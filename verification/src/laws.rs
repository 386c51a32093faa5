//! Laws of the interpreter: properties that hold of every program and
//! every machine state, stated over the mathematical model and proved from
//! the contracts in this crate.

use vstd::prelude::*;

use crate::decode::{Instr, lemma_decode_wf, spec_decode};
use crate::machine::tick;
use crate::semantics::{
    cycle_is_random, cycle_next, cycle_result, fetch_ok, fetched, lemma_step_next_no_random,
    lemma_wrap8_range, lowest_key, step_next, toggle, wrap8, wrap16,
};
use crate::state::{Chip8Error, MachineView};

verus! {

/// Loading a program image of at most 3584 bytes places byte `k` of the
/// image at memory address `0x200 + k` and sets the program counter to
/// `0x200`.
pub proof fn lemma_loaded_program_bytes(program: Seq<u8>, k: int)
    requires
        program.len() <= 3584,
        0 <= k < program.len(),
    ensures
        MachineView::loaded(program).ram[0x200 + k] == program[k],
        MachineView::loaded(program).pc == 0x200,
{
}

/// After the clear-display opcode executes, every pixel reads off,
/// whatever the display held before.
pub proof fn lemma_cls_clears_display(pre: MachineView, b: u8, r: int, c: int)
    requires
        pre.wf(),
        fetch_ok(pre),
        fetched(pre) == 0x00E0,
        0 <= r < 32,
        0 <= c < 64,
    ensures
        cycle_next(pre, b).disp[r][c] == 0,
{
}

/// The load-immediate operation leaves exactly its immediate in its target
/// register and touches no other register.
pub proof fn lemma_load_immediate(pre: MachineView, b: u8, x: u8, kk: u8)
    requires
        pre.wf(),
        fetch_ok(pre),
        spec_decode(fetched(pre)) == Some(Instr::LoadByte(x, kk)),
    ensures
        cycle_next(pre, b).v[x as int] == kk,
        forall|j: int| 0 <= j < 16 && j != x ==> cycle_next(pre, b).v[j] == pre.v[j],
{
    lemma_decode_wf(fetched(pre));
    assert(cycle_next(pre, b) == step_next(pre, Instr::LoadByte(x, kk), b));
    assert(step_next(pre, Instr::LoadByte(x, kk), b).v == pre.v.update(x as int, kk));
}

/// The add-immediate operation adds with 8-bit wraparound and has no flag
/// side effect: registers other than the target keep their values.
pub proof fn lemma_add_immediate(pre: MachineView, b: u8, x: u8, kk: u8)
    requires
        pre.wf(),
        fetch_ok(pre),
        spec_decode(fetched(pre)) == Some(Instr::AddByte(x, kk)),
        x < 16,
    ensures
        cycle_next(pre, b).v[x as int] == wrap8(pre.v[x as int] + kk),
        forall|j: int| 0 <= j < 16 && j != x ==> cycle_next(pre, b).v[j] == pre.v[j],
{
    assert(cycle_next(pre, b) == step_next(pre, Instr::AddByte(x, kk), b));
    assert(step_next(pre, Instr::AddByte(x, kk), b).v == pre.v.update(
        x as int,
        wrap8(pre.v[x as int] + kk),
    ));
}

/// The flag the register-add operation computes — the wrapped sum fell
/// below the smaller operand — is set exactly when the true sum carried
/// out of 8 bits.
pub proof fn lemma_add_carry_flag(vx: u8, vy: u8)
    ensures
        (wrap8(vx + vy) < (if vx < vy {
            vx
        } else {
            vy
        })) <==> vx + vy > 255,
{
    lemma_wrap8_range(vx + vy);
}

/// A call followed immediately by a return restores the program counter to
/// the call site and the stack pointer to its old depth: the return address
/// stored is the unadvanced program counter.
pub proof fn lemma_call_return_round_trip(pre: MachineView, a: u16, b1: u8, b2: u8)
    requires
        pre.wf(),
        pre.sp < 16,
        fetch_ok(pre),
        spec_decode(fetched(pre)) == Some(Instr::Call(a)),
        spec_decode(fetched(cycle_next(pre, b1))) == Some(Instr::Ret),
        a + 1 < 4096,
    ensures
        cycle_next(pre, b1).stack[pre.sp + 1] == pre.pc,
        cycle_next(pre, b1).pc == a,
        cycle_next(cycle_next(pre, b1), b2).pc == pre.pc,
        cycle_next(cycle_next(pre, b1), b2).sp == pre.sp,
{
}

/// A call with all sixteen stack slots in use reports a stack overflow and
/// changes nothing.
pub proof fn lemma_call_overflow(pre: MachineView, b: u8, a: u16)
    requires
        pre.wf(),
        pre.sp == 16,
        fetch_ok(pre),
        spec_decode(fetched(pre)) == Some(Instr::Call(a)),
    ensures
        cycle_result(pre) == Err::<(), Chip8Error>(Chip8Error::StackOverflow),
        cycle_next(pre, b) == pre,
{
}

/// A return with no call in progress reports a stack underflow and changes
/// nothing.
pub proof fn lemma_return_underflow(pre: MachineView, b: u8)
    requires
        pre.wf(),
        pre.sp == 0,
        fetch_ok(pre),
        spec_decode(fetched(pre)) == Some(Instr::Ret),
    ensures
        cycle_result(pre) == Err::<(), Chip8Error>(Chip8Error::StackUnderflow),
        cycle_next(pre, b) == pre,
{
}

/// The wait-for-key operation with an empty keypad latch changes nothing at
/// all and reports success: however many cycles run, the machine stays put
/// until a key is pressed.
pub proof fn lemma_wait_key_suspends(pre: MachineView, b: u8, x: u8)
    requires
        pre.wf(),
        fetch_ok(pre),
        spec_decode(fetched(pre)) == Some(Instr::WaitKey(x)),
        pre.keypad == 0,
    ensures
        cycle_next(pre, b) == pre,
        cycle_result(pre) == Ok::<(), Chip8Error>(()),
{
}

/// Once some key is latched, the wait-for-key operation captures the
/// lowest latched key index into its register, clears the whole latch, and
/// advances the program counter by two.
pub proof fn lemma_wait_key_captures(pre: MachineView, b: u8, x: u8)
    requires
        pre.wf(),
        fetch_ok(pre),
        spec_decode(fetched(pre)) == Some(Instr::WaitKey(x)),
        pre.keypad != 0,
        x < 16,
    ensures
        cycle_next(pre, b).v[x as int] == lowest_key(pre.keypad),
        cycle_next(pre, b).keypad == 0,
        cycle_next(pre, b).pc == wrap16(pre.pc + 2),
{
}

/// A cycle that does not execute the random operation has one possible
/// post-state: the byte the random source produced does not matter.
pub proof fn lemma_cycle_next_no_random(pre: MachineView, b1: u8, b2: u8)
    requires
        !cycle_is_random(pre),
    ensures
        cycle_next(pre, b1) == cycle_next(pre, b2),
{
    if fetch_ok(pre) {
        match spec_decode(fetched(pre)) {
            Option::None => {},
            Option::Some(instr) => {
                lemma_step_next_no_random(pre, instr, b1, b2);
            },
        }
    }
}

/// XOR compositing is an involution: compositing the same sprite bit onto a
/// pixel twice restores the pixel. Hence drawing a sprite a second time at
/// the same spot erases it, and every pixel the second draw turns off makes
/// the flag register report a collision.
pub proof fn lemma_toggle_involution(p: u8, b: u8)
    requires
        p == 0 || p == 1,
    ensures
        toggle(toggle(p, b), b) == p,
{
}

/// One timer tick never wraps: the new value is at most the old one, and a
/// timer already at zero stays at zero.
pub proof fn lemma_timer_floor(t: u8)
    ensures
        tick(t) <= t,
        t == 0 ==> tick(t) == 0,
{
}

} // verus!
