//! The meaning of one execute cycle, as functions on the mathematical
//! model: `cycle_result` says which outcome a step reports, and
//! `cycle_next` says what state the machine is in afterwards, given the
//! byte the random source produced (only the random operation reads it).

use vstd::prelude::*;

use vstd::arithmetic::div_mod::{lemma_mod_multiples_vanish, lemma_small_mod};

use crate::decode::{Instr, spec_decode};
use crate::state::{Chip8Error, MachineView, all_off};

verus! {

/// Arithmetic on one byte, wrapping: the low 8 bits of `n`.
pub open spec fn wrap8(n: int) -> u8 {
    (n % 256) as u8
}

/// Arithmetic on one 16-bit word, wrapping: the low 16 bits of `n`.
pub open spec fn wrap16(n: int) -> u16 {
    (n % 0x10000) as u16
}

/// Whether the latch holds the key named by `key`. Only the low nibble of
/// `key` names a key: the sixteen keys are 0x0..=0xF.
pub open spec fn key_down(kp: u16, key: u8) -> bool {
    kp & (1u16 << ((key & 0xF) as u16)) != 0
}

/// The lowest key index at or above `k` whose latch bit is set, or 16 if
/// none is.
pub open spec fn lowest_key_from(kp: u16, k: u8) -> u8
    decreases 16 - k,
{
    if k >= 16 {
        16
    } else if kp & (1u16 << (k as u16)) != 0 {
        k
    } else {
        lowest_key_from(kp, (k + 1) as u8)
    }
}

/// The lowest latched key index, scanning bit 0 upward; 16 when the latch
/// is empty.
pub open spec fn lowest_key(kp: u16) -> u8 {
    lowest_key_from(kp, 0)
}

/// Bit `j` of a sprite row byte, counting the most significant bit as
/// column 0: 0 or 1.
pub open spec fn sprite_bit(b: u8, j: int) -> u8 {
    (b >> ((7 - j) as u8)) & 1
}

/// One pixel after an XOR composite: toggled where the sprite bit is on.
pub open spec fn toggle(prev: u8, bit: u8) -> u8 {
    if bit == 1 {
        if prev == 1 {
            0u8
        } else {
            1u8
        }
    } else {
        prev
    }
}

/// The sprite origin column: `Vx` wrapped once onto the 64-wide grid.
pub open spec fn draw_ox(pre: MachineView, x: u8) -> int {
    (pre.v[x as int] as int) % 64
}

/// The sprite origin row: `Vy` wrapped once onto the 32-tall grid.
pub open spec fn draw_oy(pre: MachineView, y: u8) -> int {
    (pre.v[y as int] as int) % 32
}

/// How many sprite rows land on the grid: rows past the bottom edge are
/// clipped, not wrapped.
pub open spec fn draw_rows(pre: MachineView, y: u8, n: u8) -> int {
    if n as int <= 32 - draw_oy(pre, y) {
        n as int
    } else {
        32 - draw_oy(pre, y)
    }
}

/// How many sprite columns land on the grid: columns past the right edge
/// are clipped, not wrapped.
pub open spec fn draw_cols(pre: MachineView, x: u8) -> int {
    if 8 <= 64 - draw_ox(pre, x) {
        8int
    } else {
        64 - draw_ox(pre, x)
    }
}

/// Whether the draw would read sprite bytes past the end of memory.
pub open spec fn draw_oob(pre: MachineView, x: u8, y: u8, n: u8) -> bool {
    draw_rows(pre, y, n) > 0 && pre.i + draw_rows(pre, y, n) > 4096
}

/// The sprite bit composited onto grid cell (`r`, `c`) by a draw with
/// origin (`oy`, `ox`): row `r - oy` of the sprite is the memory byte at
/// `I + (r - oy)`.
pub open spec fn draw_bit(pre: MachineView, oy: int, ox: int, r: int, c: int) -> u8 {
    sprite_bit(pre.ram[pre.i + (r - oy)], c - ox)
}

/// Whether grid cell (`r`, `c`) lies in the region a draw at (`oy`, `ox`)
/// of `rows` x `cols` sprite bits touches.
pub open spec fn in_draw_region(oy: int, ox: int, rows: int, cols: int, r: int, c: int) -> bool {
    oy <= r < oy + rows && ox <= c < ox + cols
}

/// The display after a draw: each touched pixel XOR-composited with its
/// sprite bit, every other pixel unchanged.
pub open spec fn draw_disp(pre: MachineView, oy: int, ox: int, rows: int, cols: int) -> Seq<
    Seq<u8>,
> {
    Seq::new(
        32,
        |r: int|
            Seq::new(
                64,
                |c: int|
                    if in_draw_region(oy, ox, rows, cols, r, c) {
                        toggle(pre.disp[r][c], draw_bit(pre, oy, ox, r, c))
                    } else {
                        pre.disp[r][c]
                    },
            ),
    )
}

/// Whether a draw erases some pixel: a pixel that was on meets a sprite
/// bit that is on. This is what the flag register reports.
pub open spec fn draw_hit(pre: MachineView, oy: int, ox: int, rows: int, cols: int) -> bool {
    exists|r: int, c: int|
        in_draw_region(oy, ox, rows, cols, r, c) && pre.disp[r][c] == 1 && draw_bit(
            pre,
            oy,
            ox,
            r,
            c,
        ) == 1
}

/// The whole machine state after a draw operation.
pub open spec fn draw_next(pre: MachineView, x: u8, y: u8, n: u8) -> MachineView {
    let oy = draw_oy(pre, y);
    let ox = draw_ox(pre, x);
    let rows = draw_rows(pre, y, n);
    let cols = draw_cols(pre, x);
    MachineView {
        disp: draw_disp(pre, oy, ox, rows, cols),
        v: pre.v.update(15, if draw_hit(pre, oy, ox, rows, cols) { 1u8 } else { 0u8 }),
        pc: wrap16(pre.pc + 2),
        ..pre
    }
}

/// The memory after `V0..=Vx` was copied to `I..`.
pub open spec fn stored_regs_ram(pre: MachineView, x: u8) -> Seq<u8> {
    Seq::new(
        4096,
        |a: int|
            if pre.i <= a <= pre.i + x {
                pre.v[a - pre.i]
            } else {
                pre.ram[a]
            },
    )
}

/// The registers after memory at `I..` was copied into `V0..=Vx`.
pub open spec fn loaded_regs(pre: MachineView, x: u8) -> Seq<u8> {
    Seq::new(
        16,
        |k: int|
            if k <= x {
                pre.ram[pre.i + k]
            } else {
                pre.v[k]
            },
    )
}

/// The outcome one operation reports on the given pre-state: every error,
/// with exactly the condition that raises it; `Ok` on everything else.
pub open spec fn step_result(pre: MachineView, instr: Instr) -> Result<(), Chip8Error> {
    match instr {
        Instr::Ret => if pre.sp == 0 {
            Err(Chip8Error::StackUnderflow)
        } else {
            Ok(())
        },
        Instr::Call(_) => if pre.sp >= 16 {
            Err(Chip8Error::StackOverflow)
        } else {
            Ok(())
        },
        Instr::Draw(x, y, n) => if draw_oob(pre, x, y, n) {
            Err(Chip8Error::OutOfBounds)
        } else {
            Ok(())
        },
        Instr::StoreBcd(_) => if pre.i + 2 >= 4096 {
            Err(Chip8Error::OutOfBounds)
        } else {
            Ok(())
        },
        Instr::StoreRegs(x) | Instr::LoadRegs(x) => if pre.i + x >= 4096 {
            Err(Chip8Error::OutOfBounds)
        } else {
            Ok(())
        },
        _ => Ok(()),
    }
}

/// The machine state after one operation, given the byte `rnd` the random
/// source produced. On an operation whose `step_result` is an error the
/// state is unchanged.
pub open spec fn step_next(pre: MachineView, instr: Instr, rnd: u8) -> MachineView {
    if step_result(pre, instr) is Err {
        pre
    } else {
        let pc2 = wrap16(pre.pc + 2);
        let pc4 = wrap16(pre.pc + 4);
        match instr {
            Instr::Sys => MachineView { pc: pc2, ..pre },
            Instr::Cls => MachineView { disp: all_off(), pc: pc2, ..pre },
            Instr::Ret => MachineView {
                pc: pre.stack[pre.sp as int],
                sp: (pre.sp - 1) as u8,
                ..pre
            },
            Instr::Jump(a) => MachineView { pc: a, ..pre },
            Instr::Call(a) => MachineView {
                sp: (pre.sp + 1) as u8,
                stack: pre.stack.update(pre.sp + 1, pre.pc),
                pc: a,
                ..pre
            },
            Instr::SkipEqByte(x, kk) => MachineView {
                pc: if pre.v[x as int] == kk {
                    pc4
                } else {
                    pc2
                },
                ..pre
            },
            Instr::SkipNeByte(x, kk) => MachineView {
                pc: if pre.v[x as int] != kk {
                    pc4
                } else {
                    pc2
                },
                ..pre
            },
            Instr::SkipEqReg(x, y) => MachineView {
                pc: if pre.v[x as int] == pre.v[y as int] {
                    pc4
                } else {
                    pc2
                },
                ..pre
            },
            Instr::LoadByte(x, kk) => MachineView { v: pre.v.update(x as int, kk), pc: pc2, ..pre },
            Instr::AddByte(x, kk) => MachineView {
                v: pre.v.update(x as int, wrap8(pre.v[x as int] + kk)),
                pc: pc2,
                ..pre
            },
            Instr::MoveReg(x, y) => MachineView {
                v: pre.v.update(x as int, pre.v[y as int]),
                pc: pc2,
                ..pre
            },
            Instr::OrReg(x, y) => MachineView {
                v: pre.v.update(x as int, pre.v[x as int] | pre.v[y as int]).update(15, 0),
                pc: pc2,
                ..pre
            },
            Instr::AndReg(x, y) => MachineView {
                v: pre.v.update(x as int, pre.v[x as int] & pre.v[y as int]).update(15, 0),
                pc: pc2,
                ..pre
            },
            Instr::XorReg(x, y) => MachineView {
                v: pre.v.update(x as int, pre.v[x as int] ^ pre.v[y as int]).update(15, 0),
                pc: pc2,
                ..pre
            },
            Instr::AddReg(x, y) => {
                let vx = pre.v[x as int];
                let vy = pre.v[y as int];
                let sum = wrap8(vx + vy);
                let low = if vx < vy {
                    vx
                } else {
                    vy
                };
                MachineView {
                    v: pre.v.update(x as int, sum).update(
                        15,
                        if sum < low {
                            1u8
                        } else {
                            0u8
                        },
                    ),
                    pc: pc2,
                    ..pre
                }
            },
            Instr::SubReg(x, y) => {
                let vx = pre.v[x as int];
                let vy = pre.v[y as int];
                MachineView {
                    v: pre.v.update(x as int, wrap8(vx - vy)).update(
                        15,
                        if vx >= vy {
                            1u8
                        } else {
                            0u8
                        },
                    ),
                    pc: pc2,
                    ..pre
                }
            },
            Instr::ShiftRight(x, y) => {
                let vy = pre.v[y as int];
                MachineView {
                    v: pre.v.update(x as int, vy >> 1).update(15, vy & 1),
                    pc: pc2,
                    ..pre
                }
            },
            Instr::SubFrom(x, y) => {
                let vx = pre.v[x as int];
                let vy = pre.v[y as int];
                MachineView {
                    v: pre.v.update(x as int, wrap8(vy - vx)).update(
                        15,
                        if vy >= vx {
                            1u8
                        } else {
                            0u8
                        },
                    ),
                    pc: pc2,
                    ..pre
                }
            },
            Instr::ShiftLeft(x, y) => {
                let vy = pre.v[y as int];
                MachineView {
                    v: pre.v.update(x as int, vy << 1).update(15, (vy & 0x80) >> 7),
                    pc: pc2,
                    ..pre
                }
            },
            Instr::SkipNeReg(x, y) => MachineView {
                pc: if pre.v[x as int] != pre.v[y as int] {
                    pc4
                } else {
                    pc2
                },
                ..pre
            },
            Instr::LoadI(a) => MachineView { i: a, pc: pc2, ..pre },
            Instr::JumpPlus(a) => MachineView { pc: wrap16(a + pre.v[0]), ..pre },
            Instr::Random(x, kk) => MachineView {
                v: pre.v.update(x as int, rnd & kk),
                pc: pc2,
                ..pre
            },
            Instr::Draw(x, y, n) => draw_next(pre, x, y, n),
            Instr::SkipKey(x) => if key_down(pre.keypad, pre.v[x as int]) {
                MachineView { pc: pc4, keypad: 0, ..pre }
            } else {
                MachineView { pc: pc2, ..pre }
            },
            Instr::SkipNoKey(x) => if !key_down(pre.keypad, pre.v[x as int]) {
                MachineView { pc: pc4, keypad: 0, ..pre }
            } else {
                MachineView { pc: pc2, ..pre }
            },
            Instr::ReadDelay(x) => MachineView {
                v: pre.v.update(x as int, pre.dt),
                pc: pc2,
                ..pre
            },
            Instr::WaitKey(x) => if pre.keypad == 0 {
                pre
            } else {
                MachineView {
                    v: pre.v.update(x as int, lowest_key(pre.keypad)),
                    keypad: 0,
                    pc: pc2,
                    ..pre
                }
            },
            Instr::SetDelay(x) => MachineView { dt: pre.v[x as int], pc: pc2, ..pre },
            Instr::SetSound(x) => MachineView { st: pre.v[x as int], pc: pc2, ..pre },
            Instr::AddI(x) => MachineView { i: wrap16(pre.i + pre.v[x as int]), pc: pc2, ..pre },
            Instr::FontAddr(x) => MachineView {
                i: wrap16(pre.v[x as int] * 5),
                pc: pc2,
                ..pre
            },
            Instr::StoreBcd(x) => {
                let vx = pre.v[x as int];
                MachineView {
                    ram: pre.ram.update(pre.i as int, (vx / 100) as u8).update(
                        pre.i + 1,
                        ((vx % 100) / 10) as u8,
                    ).update(pre.i + 2, (vx % 10) as u8),
                    pc: pc2,
                    ..pre
                }
            },
            Instr::StoreRegs(x) => MachineView {
                ram: stored_regs_ram(pre, x),
                i: wrap16(pre.i + x + 1),
                pc: pc2,
                ..pre
            },
            Instr::LoadRegs(x) => MachineView {
                v: loaded_regs(pre, x),
                i: wrap16(pre.i + x + 1),
                pc: pc2,
                ..pre
            },
        }
    }
}

/// Closed form of `wrap8` on the sums and differences of two bytes.
pub proof fn lemma_wrap8_range(n: int)
    requires
        -256 <= n < 512,
    ensures
        wrap8(n) == if n < 0 {
            n + 256
        } else if n < 256 {
            n
        } else {
            n - 256
        },
{
    if n < 0 {
        lemma_mod_multiples_vanish(1, n, 256);
        lemma_small_mod((n + 256) as nat, 256);
    } else if n < 256 {
        lemma_small_mod(n as nat, 256);
    } else {
        lemma_mod_multiples_vanish(-1, n, 256);
        lemma_small_mod((n - 256) as nat, 256);
    }
}

/// `wrap16` leaves a value that already fits in 16 bits alone.
pub proof fn lemma_wrap16_small(n: int)
    requires
        0 <= n < 0x10000,
    ensures
        wrap16(n) == n,
{
    lemma_small_mod(n as nat, 0x10000);
}

/// Closed form of `wrap16` on sums that overflow at most once.
pub proof fn lemma_wrap16_range(n: int)
    requires
        0 <= n < 0x20000,
    ensures
        wrap16(n) == if n < 0x10000 {
            n
        } else {
            n - 0x10000
        },
{
    if n < 0x10000 {
        lemma_small_mod(n as nat, 0x10000);
    } else {
        lemma_mod_multiples_vanish(-1, n, 0x10000);
        lemma_small_mod((n - 0x10000) as nat, 0x10000);
    }
}

/// The program counter bumps a cycle makes never wrap: they start below
/// the end of memory.
pub proof fn lemma_pc_bumps(pc: u16)
    requires
        pc + 1 < 4096,
    ensures
        wrap16(pc + 2) == pc + 2,
        wrap16(pc + 4) == pc + 4,
{
    lemma_wrap16_small(pc + 2);
    lemma_wrap16_small(pc + 4);
}

/// Whether the program counter points at a full two-byte opcode.
pub open spec fn fetch_ok(pre: MachineView) -> bool {
    pre.pc + 1 < 4096
}

/// The opcode at the program counter: two consecutive bytes combined
/// big-endian.
pub open spec fn fetched(pre: MachineView) -> u16 {
    (pre.ram[pre.pc as int] * 256 + pre.ram[pre.pc + 1]) as u16
}

/// The outcome one whole cycle reports: a fetch past the end of memory,
/// an opcode with no decoding, or the executed operation's own outcome.
pub open spec fn cycle_result(pre: MachineView) -> Result<(), Chip8Error> {
    if !fetch_ok(pre) {
        Err(Chip8Error::OutOfBounds)
    } else {
        match spec_decode(fetched(pre)) {
            Option::None => Err(Chip8Error::InvalidOpcode(fetched(pre))),
            Option::Some(instr) => step_result(pre, instr),
        }
    }
}

/// The machine state after one whole cycle, given the byte `rnd` the
/// random source produced: unchanged when `cycle_result` is an error.
pub open spec fn cycle_next(pre: MachineView, rnd: u8) -> MachineView {
    if !fetch_ok(pre) {
        pre
    } else {
        match spec_decode(fetched(pre)) {
            Option::None => pre,
            Option::Some(instr) => step_next(pre, instr, rnd),
        }
    }
}

/// Whether the cycle about to run from `pre` executes the random
/// operation: only then does the post-state depend on the random source.
pub open spec fn cycle_is_random(pre: MachineView) -> bool {
    fetch_ok(pre) && (spec_decode(fetched(pre)) matches Option::Some(Instr::Random(_, _)))
}

/// Every operation but the random one ignores the random byte.
pub proof fn lemma_step_next_no_random(pre: MachineView, instr: Instr, b1: u8, b2: u8)
    requires
        !(instr matches Instr::Random(_, _)),
    ensures
        step_next(pre, instr, b1) == step_next(pre, instr, b2),
{
}

} // verus!
