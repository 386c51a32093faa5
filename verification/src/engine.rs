//! The instruction engine: one fetch-decode-execute cycle per call, with
//! one private helper per operation, each proved against the operation's
//! arm of `step_next` and `step_result`.

use vstd::prelude::*;

use crate::decode::{Instr, decode, lemma_decode_wf};
use crate::machine::Chip8;
use crate::semantics::{
    cycle_next, cycle_result, draw_bit, draw_cols, draw_disp, draw_ox, draw_oy, draw_rows,
    fetched, in_draw_region, lemma_pc_bumps, lemma_wrap16_range, lemma_wrap16_small,
    lemma_wrap8_range, loaded_regs, lowest_key_from, step_next, step_result, stored_regs_ram,
    toggle,
};
use crate::state::{Chip8Error, MachineView, all_off};

verus! {

/// Relies on `rand::thread_rng` and `rand::Rng::gen::<u8>`: draws one byte
/// from the thread-local generator. Nothing is promised of its value.
#[verifier::external_body]
fn random_byte() -> u8 {
    let mut rng = rand::thread_rng();
    rand::Rng::gen::<u8>(&mut rng)
}

impl Chip8 {
    /// One fetch-decode-execute cycle. The two bytes at the program counter
    /// are combined big-endian into an opcode, the opcode is decoded, and
    /// the operation is applied; the program counter advances by two unless
    /// the operation redirected it or suspended on an empty keypad latch.
    ///
    /// The outcome is exactly `cycle_result` of the pre-state, and the
    /// post-state is exactly `cycle_next` of the pre-state and the byte the
    /// random source produced; on an error the machine is unchanged. Only
    /// the random operation makes the post-state depend on that byte.
    pub fn cycle(&mut self) -> (r: Result<(), Chip8Error>)
        requires
            old(self)@.wf(),
        ensures
            final(self)@.wf(),
            r == cycle_result(old(self)@),
            exists|b: u8| final(self)@ == #[trigger] cycle_next(old(self)@, b),
    {
        if self.pc as usize + 1 >= 4096 {
            proof {
                assert(self@ == cycle_next(old(self)@, 0));
            }
            return Err(Chip8Error::OutOfBounds);
        }
        let hi = self.ram[self.pc as usize];
        let lo = self.ram[self.pc as usize + 1];
        let op = (hi as u16) * 256 + (lo as u16);
        proof {
            assert(op == fetched(old(self)@));
            lemma_decode_wf(op);
        }
        let decoded = decode(op);
        match decoded {
            Option::None => {
                proof {
                    assert(self@ == cycle_next(old(self)@, 0));
                }
                Err(Chip8Error::InvalidOpcode(op))
            },
            Option::Some(instr) => {
                let res: Result<(), Chip8Error> = match instr {
                    Instr::Sys => {
                        self.op_sys();
                        Ok(())
                    },
                    Instr::Cls => {
                        self.op_cls();
                        Ok(())
                    },
                    Instr::Ret => self.op_ret(),
                    Instr::Jump(a) => {
                        self.op_jump(a);
                        Ok(())
                    },
                    Instr::Call(a) => self.op_call(a),
                    Instr::SkipEqByte(x, kk) => {
                        self.op_skip_eq_byte(x, kk);
                        Ok(())
                    },
                    Instr::SkipNeByte(x, kk) => {
                        self.op_skip_ne_byte(x, kk);
                        Ok(())
                    },
                    Instr::SkipEqReg(x, y) => {
                        self.op_skip_eq_reg(x, y);
                        Ok(())
                    },
                    Instr::LoadByte(x, kk) => {
                        self.op_load_byte(x, kk);
                        Ok(())
                    },
                    Instr::AddByte(x, kk) => {
                        self.op_add_byte(x, kk);
                        Ok(())
                    },
                    Instr::MoveReg(x, y) => {
                        self.op_move_reg(x, y);
                        Ok(())
                    },
                    Instr::OrReg(x, y) => {
                        self.op_or_reg(x, y);
                        Ok(())
                    },
                    Instr::AndReg(x, y) => {
                        self.op_and_reg(x, y);
                        Ok(())
                    },
                    Instr::XorReg(x, y) => {
                        self.op_xor_reg(x, y);
                        Ok(())
                    },
                    Instr::AddReg(x, y) => {
                        self.op_add_reg(x, y);
                        Ok(())
                    },
                    Instr::SubReg(x, y) => {
                        self.op_sub_reg(x, y);
                        Ok(())
                    },
                    Instr::ShiftRight(x, y) => {
                        self.op_shift_right(x, y);
                        Ok(())
                    },
                    Instr::SubFrom(x, y) => {
                        self.op_sub_from(x, y);
                        Ok(())
                    },
                    Instr::ShiftLeft(x, y) => {
                        self.op_shift_left(x, y);
                        Ok(())
                    },
                    Instr::SkipNeReg(x, y) => {
                        self.op_skip_ne_reg(x, y);
                        Ok(())
                    },
                    Instr::LoadI(a) => {
                        self.op_load_i(a);
                        Ok(())
                    },
                    Instr::JumpPlus(a) => {
                        self.op_jump_plus(a);
                        Ok(())
                    },
                    Instr::Random(x, kk) => {
                        self.op_random(x, kk);
                        Ok(())
                    },
                    Instr::Draw(x, y, n) => self.op_draw(x, y, n),
                    Instr::SkipKey(x) => {
                        self.op_skip_key(x);
                        Ok(())
                    },
                    Instr::SkipNoKey(x) => {
                        self.op_skip_no_key(x);
                        Ok(())
                    },
                    Instr::ReadDelay(x) => {
                        self.op_read_delay(x);
                        Ok(())
                    },
                    Instr::WaitKey(x) => {
                        self.op_wait_key(x);
                        Ok(())
                    },
                    Instr::SetDelay(x) => {
                        self.op_set_delay(x);
                        Ok(())
                    },
                    Instr::SetSound(x) => {
                        self.op_set_sound(x);
                        Ok(())
                    },
                    Instr::AddI(x) => {
                        self.op_add_i(x);
                        Ok(())
                    },
                    Instr::FontAddr(x) => {
                        self.op_font_addr(x);
                        Ok(())
                    },
                    Instr::StoreBcd(x) => self.op_store_bcd(x),
                    Instr::StoreRegs(x) => self.op_store_regs(x),
                    Instr::LoadRegs(x) => self.op_load_regs(x),
                };
                proof {
                    match instr {
                        Instr::Random(x, kk) => {
                            let b = choose|b: u8|
                                self@ == step_next(old(self)@, Instr::Random(x, kk), b);
                            assert(self@ == cycle_next(old(self)@, b));
                        },
                        _ => {
                            assert(self@ == cycle_next(old(self)@, 0));
                        },
                    }
                }
                res
            },
        }
    }

    /// A machine-routine call (`0nnn`), kept as a no-op: only the program
    /// counter advances.
    fn op_sys(&mut self)
        requires
            old(self)@.wf(),
            old(self)@.pc + 1 < 4096,
        ensures
            final(self)@ == step_next(old(self)@, Instr::Sys, 0),
            final(self)@.wf(),
    {
        proof {
            lemma_pc_bumps(self.pc);
        }
        self.pc = self.pc + 2;
    }

    /// Clear the display: every pixel off.
    fn op_cls(&mut self)
        requires
            old(self)@.wf(),
            old(self)@.pc + 1 < 4096,
        ensures
            final(self)@ == step_next(old(self)@, Instr::Cls, 0),
            final(self)@.wf(),
    {
        proof {
            lemma_pc_bumps(self.pc);
        }
        self.disp_buffer = [[0u8; 64]; 32];
        self.pc = self.pc + 2;
        proof {
            assert(self@.disp =~~= all_off());
            assert(self@ =~~= step_next(old(self)@, Instr::Cls, 0));
        }
    }

    /// Jump: the program counter is set to the address.
    fn op_jump(&mut self, a: u16)
        requires
            old(self)@.wf(),
        ensures
            final(self)@ == step_next(old(self)@, Instr::Jump(a), 0),
            final(self)@.wf(),
    {
        self.pc = a;
    }

    /// Call: push the unadvanced return address, then jump. Reports
    /// `StackOverflow`, leaving the machine unchanged, when all sixteen
    /// stack slots are in use.
    fn op_call(&mut self, a: u16) -> (r: Result<(), Chip8Error>)
        requires
            old(self)@.wf(),
        ensures
            final(self)@ == step_next(old(self)@, Instr::Call(a), 0),
            r == step_result(old(self)@, Instr::Call(a)),
            final(self)@.wf(),
    {
        if self.sp >= 16 {
            return Err(Chip8Error::StackOverflow);
        }
        self.sp = self.sp + 1;
        self.stack[self.sp as usize] = self.pc;
        self.pc = a;
        Ok(())
    }

    /// Skip the next instruction when register `x` holds exactly `kk`.
    fn op_skip_eq_byte(&mut self, x: u8, kk: u8)
        requires
            old(self)@.wf(),
            x < 16,
            old(self)@.pc + 1 < 4096,
        ensures
            final(self)@ == step_next(old(self)@, Instr::SkipEqByte(x, kk), 0),
            final(self)@.wf(),
    {
        proof {
            lemma_pc_bumps(self.pc);
        }
        if self.v_reg[x as usize] == kk {
            self.pc = self.pc + 4;
        } else {
            self.pc = self.pc + 2;
        }
    }

    /// Skip the next instruction when register `x` does not hold `kk`.
    fn op_skip_ne_byte(&mut self, x: u8, kk: u8)
        requires
            old(self)@.wf(),
            x < 16,
            old(self)@.pc + 1 < 4096,
        ensures
            final(self)@ == step_next(old(self)@, Instr::SkipNeByte(x, kk), 0),
            final(self)@.wf(),
    {
        proof {
            lemma_pc_bumps(self.pc);
        }
        if self.v_reg[x as usize] != kk {
            self.pc = self.pc + 4;
        } else {
            self.pc = self.pc + 2;
        }
    }

    /// Skip the next instruction when registers `x` and `y` are equal.
    fn op_skip_eq_reg(&mut self, x: u8, y: u8)
        requires
            old(self)@.wf(),
            x < 16,
            y < 16,
            old(self)@.pc + 1 < 4096,
        ensures
            final(self)@ == step_next(old(self)@, Instr::SkipEqReg(x, y), 0),
            final(self)@.wf(),
    {
        proof {
            lemma_pc_bumps(self.pc);
        }
        if self.v_reg[x as usize] == self.v_reg[y as usize] {
            self.pc = self.pc + 4;
        } else {
            self.pc = self.pc + 2;
        }
    }

    /// Skip the next instruction when registers `x` and `y` differ.
    fn op_skip_ne_reg(&mut self, x: u8, y: u8)
        requires
            old(self)@.wf(),
            x < 16,
            y < 16,
            old(self)@.pc + 1 < 4096,
        ensures
            final(self)@ == step_next(old(self)@, Instr::SkipNeReg(x, y), 0),
            final(self)@.wf(),
    {
        proof {
            lemma_pc_bumps(self.pc);
        }
        if self.v_reg[x as usize] != self.v_reg[y as usize] {
            self.pc = self.pc + 4;
        } else {
            self.pc = self.pc + 2;
        }
    }

    /// Load the immediate byte into register `x`.
    fn op_load_byte(&mut self, x: u8, kk: u8)
        requires
            old(self)@.wf(),
            x < 16,
            old(self)@.pc + 1 < 4096,
        ensures
            final(self)@ == step_next(old(self)@, Instr::LoadByte(x, kk), 0),
            final(self)@.wf(),
    {
        proof {
            lemma_pc_bumps(self.pc);
        }
        self.v_reg[x as usize] = kk;
        self.pc = self.pc + 2;
    }

    /// Add the immediate byte into register `x`, wrapping, with no flag
    /// side effect.
    fn op_add_byte(&mut self, x: u8, kk: u8)
        requires
            old(self)@.wf(),
            x < 16,
            old(self)@.pc + 1 < 4096,
        ensures
            final(self)@ == step_next(old(self)@, Instr::AddByte(x, kk), 0),
            final(self)@.wf(),
    {
        proof {
            lemma_pc_bumps(self.pc);
            lemma_wrap8_range(self.v_reg[x as int] + kk);
        }
        self.v_reg[x as usize] = self.v_reg[x as usize].wrapping_add(kk);
        self.pc = self.pc + 2;
    }

    /// Copy register `y` into register `x`.
    fn op_move_reg(&mut self, x: u8, y: u8)
        requires
            old(self)@.wf(),
            x < 16,
            y < 16,
            old(self)@.pc + 1 < 4096,
        ensures
            final(self)@ == step_next(old(self)@, Instr::MoveReg(x, y), 0),
            final(self)@.wf(),
    {
        proof {
            lemma_pc_bumps(self.pc);
        }
        self.v_reg[x as usize] = self.v_reg[y as usize];
        self.pc = self.pc + 2;
    }

    /// Bitwise OR of registers `x` and `y` into `x`; the flag register is
    /// reset as a side effect.
    fn op_or_reg(&mut self, x: u8, y: u8)
        requires
            old(self)@.wf(),
            x < 16,
            y < 16,
            old(self)@.pc + 1 < 4096,
        ensures
            final(self)@ == step_next(old(self)@, Instr::OrReg(x, y), 0),
            final(self)@.wf(),
    {
        proof {
            lemma_pc_bumps(self.pc);
        }
        self.v_reg[x as usize] = self.v_reg[x as usize] | self.v_reg[y as usize];
        self.v_reg[15] = 0;
        self.pc = self.pc + 2;
    }

    /// Bitwise AND of registers `x` and `y` into `x`; the flag register is
    /// reset as a side effect.
    fn op_and_reg(&mut self, x: u8, y: u8)
        requires
            old(self)@.wf(),
            x < 16,
            y < 16,
            old(self)@.pc + 1 < 4096,
        ensures
            final(self)@ == step_next(old(self)@, Instr::AndReg(x, y), 0),
            final(self)@.wf(),
    {
        proof {
            lemma_pc_bumps(self.pc);
        }
        self.v_reg[x as usize] = self.v_reg[x as usize] & self.v_reg[y as usize];
        self.v_reg[15] = 0;
        self.pc = self.pc + 2;
    }

    /// Bitwise XOR of registers `x` and `y` into `x`; the flag register is
    /// reset as a side effect.
    fn op_xor_reg(&mut self, x: u8, y: u8)
        requires
            old(self)@.wf(),
            x < 16,
            y < 16,
            old(self)@.pc + 1 < 4096,
        ensures
            final(self)@ == step_next(old(self)@, Instr::XorReg(x, y), 0),
            final(self)@.wf(),
    {
        proof {
            lemma_pc_bumps(self.pc);
        }
        self.v_reg[x as usize] = self.v_reg[x as usize] ^ self.v_reg[y as usize];
        self.v_reg[15] = 0;
        self.pc = self.pc + 2;
    }

    /// Add register `y` into register `x` with 8-bit wraparound; the flag
    /// register reports the carry: 1 exactly when the sum wrapped, which
    /// shows as a sum below both operands.
    fn op_add_reg(&mut self, x: u8, y: u8)
        requires
            old(self)@.wf(),
            x < 16,
            y < 16,
            old(self)@.pc + 1 < 4096,
        ensures
            final(self)@ == step_next(old(self)@, Instr::AddReg(x, y), 0),
            final(self)@.wf(),
    {
        let vx = self.v_reg[x as usize];
        let vy = self.v_reg[y as usize];
        proof {
            lemma_pc_bumps(self.pc);
            lemma_wrap8_range(vx + vy);
        }
        let sum = vx.wrapping_add(vy);
        self.v_reg[x as usize] = sum;
        let low = if vx < vy {
            vx
        } else {
            vy
        };
        self.v_reg[15] = if sum < low {
            1
        } else {
            0
        };
        self.pc = self.pc + 2;
    }

    /// Subtract register `y` from register `x` with 8-bit wraparound; the
    /// flag register is 1 exactly when no borrow is needed (`Vx >= Vy`).
    fn op_sub_reg(&mut self, x: u8, y: u8)
        requires
            old(self)@.wf(),
            x < 16,
            y < 16,
            old(self)@.pc + 1 < 4096,
        ensures
            final(self)@ == step_next(old(self)@, Instr::SubReg(x, y), 0),
            final(self)@.wf(),
    {
        let vx = self.v_reg[x as usize];
        let vy = self.v_reg[y as usize];
        proof {
            lemma_pc_bumps(self.pc);
            lemma_wrap8_range(vx - vy);
        }
        self.v_reg[x as usize] = vx.wrapping_sub(vy);
        self.v_reg[15] = if vx >= vy {
            1
        } else {
            0
        };
        self.pc = self.pc + 2;
    }

    /// Subtract register `x` from register `y`, into `x`, with 8-bit
    /// wraparound; the flag register is 1 exactly when no borrow is needed
    /// (`Vy >= Vx`).
    fn op_sub_from(&mut self, x: u8, y: u8)
        requires
            old(self)@.wf(),
            x < 16,
            y < 16,
            old(self)@.pc + 1 < 4096,
        ensures
            final(self)@ == step_next(old(self)@, Instr::SubFrom(x, y), 0),
            final(self)@.wf(),
    {
        let vx = self.v_reg[x as usize];
        let vy = self.v_reg[y as usize];
        proof {
            lemma_pc_bumps(self.pc);
            lemma_wrap8_range(vy - vx);
        }
        self.v_reg[x as usize] = vy.wrapping_sub(vx);
        self.v_reg[15] = if vy >= vx {
            1
        } else {
            0
        };
        self.pc = self.pc + 2;
    }

    /// Copy register `y` shifted right by one into register `x`; the flag
    /// register receives the bit shifted out.
    fn op_shift_right(&mut self, x: u8, y: u8)
        requires
            old(self)@.wf(),
            x < 16,
            y < 16,
            old(self)@.pc + 1 < 4096,
        ensures
            final(self)@ == step_next(old(self)@, Instr::ShiftRight(x, y), 0),
            final(self)@.wf(),
    {
        proof {
            lemma_pc_bumps(self.pc);
        }
        let vy = self.v_reg[y as usize];
        self.v_reg[x as usize] = vy >> 1;
        self.v_reg[15] = vy & 1;
        self.pc = self.pc + 2;
    }

    /// Copy register `y` shifted left by one into register `x`; the flag
    /// register receives the bit shifted out.
    fn op_shift_left(&mut self, x: u8, y: u8)
        requires
            old(self)@.wf(),
            x < 16,
            y < 16,
            old(self)@.pc + 1 < 4096,
        ensures
            final(self)@ == step_next(old(self)@, Instr::ShiftLeft(x, y), 0),
            final(self)@.wf(),
    {
        proof {
            lemma_pc_bumps(self.pc);
        }
        let vy = self.v_reg[y as usize];
        self.v_reg[x as usize] = vy << 1;
        self.v_reg[15] = (vy & 0x80) >> 7;
        self.pc = self.pc + 2;
    }

    /// Load the address into the address register.
    fn op_load_i(&mut self, a: u16)
        requires
            old(self)@.wf(),
            old(self)@.pc + 1 < 4096,
        ensures
            final(self)@ == step_next(old(self)@, Instr::LoadI(a), 0),
            final(self)@.wf(),
    {
        proof {
            lemma_pc_bumps(self.pc);
        }
        self.i = a;
        self.pc = self.pc + 2;
    }

    /// Jump to the address plus register 0.
    fn op_jump_plus(&mut self, a: u16)
        requires
            old(self)@.wf(),
            a < 4096,
        ensures
            final(self)@ == step_next(old(self)@, Instr::JumpPlus(a), 0),
            final(self)@.wf(),
    {
        proof {
            lemma_wrap16_small(a + self.v_reg[0]);
        }
        self.pc = a + (self.v_reg[0] as u16);
    }

    /// Load a uniformly random byte, masked by `kk`, into register `x`.
    fn op_random(&mut self, x: u8, kk: u8)
        requires
            old(self)@.wf(),
            x < 16,
            old(self)@.pc + 1 < 4096,
        ensures
            exists|b: u8| final(self)@ == step_next(old(self)@, Instr::Random(x, kk), b),
            final(self)@.wf(),
    {
        proof {
            lemma_pc_bumps(self.pc);
        }
        let b = random_byte();
        self.v_reg[x as usize] = b & kk;
        self.pc = self.pc + 2;
        proof {
            assert(self@ == step_next(old(self)@, Instr::Random(x, kk), b));
        }
    }

    /// Skip the next instruction when the key named by register `x` is
    /// latched; the whole latch is cleared on a match.
    fn op_skip_key(&mut self, x: u8)
        requires
            old(self)@.wf(),
            x < 16,
            old(self)@.pc + 1 < 4096,
        ensures
            final(self)@ == step_next(old(self)@, Instr::SkipKey(x), 0),
            final(self)@.wf(),
    {
        proof {
            lemma_pc_bumps(self.pc);
        }
        let vx = self.v_reg[x as usize];
        assert(vx & 0xF < 16) by (bit_vector);
        if self.keypad & (1u16 << ((vx & 0xF) as u16)) != 0 {
            self.pc = self.pc + 4;
            self.keypad = 0;
        } else {
            self.pc = self.pc + 2;
        }
    }

    /// Skip the next instruction when the key named by register `x` is not
    /// latched; the whole latch is cleared on a match.
    fn op_skip_no_key(&mut self, x: u8)
        requires
            old(self)@.wf(),
            x < 16,
            old(self)@.pc + 1 < 4096,
        ensures
            final(self)@ == step_next(old(self)@, Instr::SkipNoKey(x), 0),
            final(self)@.wf(),
    {
        proof {
            lemma_pc_bumps(self.pc);
        }
        let vx = self.v_reg[x as usize];
        assert(vx & 0xF < 16) by (bit_vector);
        if self.keypad & (1u16 << ((vx & 0xF) as u16)) == 0 {
            self.pc = self.pc + 4;
            self.keypad = 0;
        } else {
            self.pc = self.pc + 2;
        }
    }

    /// Read the delay timer into register `x`.
    fn op_read_delay(&mut self, x: u8)
        requires
            old(self)@.wf(),
            x < 16,
            old(self)@.pc + 1 < 4096,
        ensures
            final(self)@ == step_next(old(self)@, Instr::ReadDelay(x), 0),
            final(self)@.wf(),
    {
        proof {
            lemma_pc_bumps(self.pc);
        }
        self.v_reg[x as usize] = self.dt;
        self.pc = self.pc + 2;
    }

    /// Wait for a key: with an empty latch nothing changes, so the same
    /// instruction is fetched again next cycle. Otherwise the lowest
    /// latched key index is captured into register `x`, the whole latch is
    /// cleared, and the program counter advances.
    fn op_wait_key(&mut self, x: u8)
        requires
            old(self)@.wf(),
            x < 16,
            old(self)@.pc + 1 < 4096,
        ensures
            final(self)@ == step_next(old(self)@, Instr::WaitKey(x), 0),
            final(self)@.wf(),
    {
        proof {
            lemma_pc_bumps(self.pc);
        }
        if self.keypad == 0 {
            return;
        }
        let kp = self.keypad;
        let mut k: u8 = 0;
        while k < 16 && kp & (1u16 << (k as u16)) == 0
            invariant
                k <= 16,
                lowest_key_from(kp, 0) == lowest_key_from(kp, k),
                forall|j: u16| j < k ==> kp & (1u16 << j) == 0,
            decreases 16 - k,
        {
            k = k + 1;
        }
        if k >= 16 {
            proof {
                assert(kp == 0) by (bit_vector)
                    requires
                        kp & (1u16 << 0u16) == 0,
                        kp & (1u16 << 1u16) == 0,
                        kp & (1u16 << 2u16) == 0,
                        kp & (1u16 << 3u16) == 0,
                        kp & (1u16 << 4u16) == 0,
                        kp & (1u16 << 5u16) == 0,
                        kp & (1u16 << 6u16) == 0,
                        kp & (1u16 << 7u16) == 0,
                        kp & (1u16 << 8u16) == 0,
                        kp & (1u16 << 9u16) == 0,
                        kp & (1u16 << 10u16) == 0,
                        kp & (1u16 << 11u16) == 0,
                        kp & (1u16 << 12u16) == 0,
                        kp & (1u16 << 13u16) == 0,
                        kp & (1u16 << 14u16) == 0,
                        kp & (1u16 << 15u16) == 0,
                ;
                assert(false);
            }
            return;
        }
        self.v_reg[x as usize] = k;
        self.keypad = 0;
        self.pc = self.pc + 2;
    }

    /// Set the delay timer from register `x`.
    fn op_set_delay(&mut self, x: u8)
        requires
            old(self)@.wf(),
            x < 16,
            old(self)@.pc + 1 < 4096,
        ensures
            final(self)@ == step_next(old(self)@, Instr::SetDelay(x), 0),
            final(self)@.wf(),
    {
        proof {
            lemma_pc_bumps(self.pc);
        }
        self.dt = self.v_reg[x as usize];
        self.pc = self.pc + 2;
    }

    /// Set the sound timer from register `x`.
    fn op_set_sound(&mut self, x: u8)
        requires
            old(self)@.wf(),
            x < 16,
            old(self)@.pc + 1 < 4096,
        ensures
            final(self)@ == step_next(old(self)@, Instr::SetSound(x), 0),
            final(self)@.wf(),
    {
        proof {
            lemma_pc_bumps(self.pc);
        }
        self.st = self.v_reg[x as usize];
        self.pc = self.pc + 2;
    }

    /// Add register `x` into the address register, wrapping.
    fn op_add_i(&mut self, x: u8)
        requires
            old(self)@.wf(),
            x < 16,
            old(self)@.pc + 1 < 4096,
        ensures
            final(self)@ == step_next(old(self)@, Instr::AddI(x), 0),
            final(self)@.wf(),
    {
        proof {
            lemma_pc_bumps(self.pc);
            lemma_wrap16_range(self.i + self.v_reg[x as int]);
        }
        self.i = self.i.wrapping_add(self.v_reg[x as usize] as u16);
        self.pc = self.pc + 2;
    }

    /// Point the address register at the 5-byte font sprite for the digit
    /// in register `x`. Only digits 0..=0xF have sprites; a larger value is
    /// out of the documented register range and yields an address past the
    /// font table.
    fn op_font_addr(&mut self, x: u8)
        requires
            old(self)@.wf(),
            x < 16,
            old(self)@.pc + 1 < 4096,
        ensures
            final(self)@ == step_next(old(self)@, Instr::FontAddr(x), 0),
            final(self)@.wf(),
    {
        let vx = self.v_reg[x as usize];
        proof {
            lemma_pc_bumps(self.pc);
            lemma_wrap16_small(vx * 5);
        }
        self.i = (vx as u16) * 5;
        self.pc = self.pc + 2;
    }

    /// Write the hundreds, tens and ones digits of register `x` to memory
    /// at `I`, `I+1`, `I+2`. Reports `OutOfBounds`, leaving the machine
    /// unchanged, when those addresses reach past the end of memory.
    fn op_store_bcd(&mut self, x: u8) -> (r: Result<(), Chip8Error>)
        requires
            old(self)@.wf(),
            x < 16,
            old(self)@.pc + 1 < 4096,
        ensures
            final(self)@ == step_next(old(self)@, Instr::StoreBcd(x), 0),
            r == step_result(old(self)@, Instr::StoreBcd(x)),
            final(self)@.wf(),
    {
        if self.i >= 4094 {
            return Err(Chip8Error::OutOfBounds);
        }
        proof {
            lemma_pc_bumps(self.pc);
        }
        let vx = self.v_reg[x as usize];
        let base = self.i as usize;
        self.ram[base] = vx / 100;
        self.ram[base + 1] = (vx % 100) / 10;
        self.ram[base + 2] = vx % 10;
        self.pc = self.pc + 2;
        Ok(())
    }

    /// Copy registers 0 through `x` inclusive to memory at `I..`, leaving
    /// the address register just past the block. Reports `OutOfBounds`,
    /// leaving the machine unchanged, when the block reaches past the end
    /// of memory.
    fn op_store_regs(&mut self, x: u8) -> (r: Result<(), Chip8Error>)
        requires
            old(self)@.wf(),
            x < 16,
            old(self)@.pc + 1 < 4096,
        ensures
            final(self)@ == step_next(old(self)@, Instr::StoreRegs(x), 0),
            r == step_result(old(self)@, Instr::StoreRegs(x)),
            final(self)@.wf(),
    {
        if self.i as usize + x as usize >= 4096 {
            return Err(Chip8Error::OutOfBounds);
        }
        proof {
            lemma_pc_bumps(self.pc);
            lemma_wrap16_small(self.i + x + 1);
        }
        let base = self.i as usize;
        for k in 0..(x as usize + 1)
            invariant
                x < 16,
                base == old(self)@.i,
                base + x < 4096,
                self@.ram.len() == 4096,
                forall|a: int| base <= a < base + k ==> self@.ram[a] == old(self)@.v[a - base],
                forall|a: int|
                    0 <= a < 4096 && !(base <= a < base + k) ==> self@.ram[a] == old(self)@.ram[a],
                self@ == (MachineView { ram: self@.ram, ..old(self)@ }),
        {
            self.ram[base + k] = self.v_reg[k];
        }
        self.i = self.i + (x as u16) + 1;
        self.pc = self.pc + 2;
        proof {
            assert(self@.ram =~= stored_regs_ram(old(self)@, x));
            assert(self@ =~~= step_next(old(self)@, Instr::StoreRegs(x), 0));
        }
        Ok(())
    }

    /// Copy memory at `I..` into registers 0 through `x` inclusive, leaving
    /// the address register just past the block. Reports `OutOfBounds`,
    /// leaving the machine unchanged, when the block reaches past the end
    /// of memory.
    fn op_load_regs(&mut self, x: u8) -> (r: Result<(), Chip8Error>)
        requires
            old(self)@.wf(),
            x < 16,
            old(self)@.pc + 1 < 4096,
        ensures
            final(self)@ == step_next(old(self)@, Instr::LoadRegs(x), 0),
            r == step_result(old(self)@, Instr::LoadRegs(x)),
            final(self)@.wf(),
    {
        if self.i as usize + x as usize >= 4096 {
            return Err(Chip8Error::OutOfBounds);
        }
        proof {
            lemma_pc_bumps(self.pc);
            lemma_wrap16_small(self.i + x + 1);
        }
        let base = self.i as usize;
        for k in 0..(x as usize + 1)
            invariant
                x < 16,
                base == old(self)@.i,
                base + x < 4096,
                self@.v.len() == 16,
                forall|j: int| 0 <= j < k ==> self@.v[j] == old(self)@.ram[base + j],
                forall|j: int| k <= j < 16 ==> self@.v[j] == old(self)@.v[j],
                self@ == (MachineView { v: self@.v, ..old(self)@ }),
        {
            self.v_reg[k] = self.ram[base + k];
        }
        self.i = self.i + (x as u16) + 1;
        self.pc = self.pc + 2;
        proof {
            assert(self@.v =~= loaded_regs(old(self)@, x));
            assert(self@ =~~= step_next(old(self)@, Instr::LoadRegs(x), 0));
        }
        Ok(())
    }

    /// One pixel of the framebuffer.
    fn get_pixel(&self, r: usize, c: usize) -> (p: u8)
        requires
            r < 32,
            c < 64,
        ensures
            p == self@.disp[r as int][c as int],
    {
        let row = self.disp_buffer[r];
        row[c]
    }

    /// Overwrites one pixel of the framebuffer, touching nothing else.
    fn set_pixel(&mut self, r: usize, c: usize, val: u8)
        requires
            r < 32,
            c < 64,
        ensures
            final(self)@ == (MachineView {
                disp: old(self)@.disp.update(
                    r as int,
                    old(self)@.disp[r as int].update(c as int, val),
                ),
                ..old(self)@
            }),
    {
        let mut row = self.disp_buffer[r];
        row[c] = val;
        self.disp_buffer[r] = row;
        proof {
            assert(self@.disp =~~= old(self)@.disp.update(
                r as int,
                old(self)@.disp[r as int].update(c as int, val),
            ));
        }
    }

    /// Draw an `n`-row sprite read from memory at `I..` with its origin at
    /// (`Vx mod 64`, `Vy mod 32`): each sprite bit is XOR-composited onto
    /// its pixel, rows and columns falling off the grid's far edges are
    /// clipped, and the flag register reports whether any pixel was turned
    /// off. Reports `OutOfBounds`, leaving the machine unchanged, when a
    /// composited row would be read from past the end of memory.
    #[verifier::loop_isolation(false)]
    #[verifier::rlimit(60)]
    fn op_draw(&mut self, x: u8, y: u8, n: u8) -> (r: Result<(), Chip8Error>)
        requires
            old(self)@.wf(),
            x < 16,
            y < 16,
            n < 16,
            old(self)@.pc + 1 < 4096,
        ensures
            final(self)@ == step_next(old(self)@, Instr::Draw(x, y, n), 0),
            r == step_result(old(self)@, Instr::Draw(x, y, n)),
            final(self)@.wf(),
    {
        let ghost pre = old(self)@;
        let vx = self.v_reg[x as usize];
        let vy = self.v_reg[y as usize];
        let ox = (vx % 64) as usize;
        let oy = (vy % 32) as usize;
        let rows: usize = if (n as usize) <= 32 - oy {
            n as usize
        } else {
            32 - oy
        };
        let cols: usize = if 8 <= 64 - ox {
            8
        } else {
            64 - ox
        };
        proof {
            assert(ox == draw_ox(pre, x));
            assert(oy == draw_oy(pre, y));
            assert(rows == draw_rows(pre, y, n));
            assert(cols == draw_cols(pre, x));
        }
        if rows > 0 && self.i as usize + rows > 4096 {
            return Err(Chip8Error::OutOfBounds);
        }
        proof {
            lemma_pc_bumps(self.pc);
        }
        let i_base = self.i as usize;
        let mut erased = false;
        for ri in 0..rows
            invariant
                self@ == (MachineView { disp: self@.disp, ..pre }),
                forall|r2: int, c2: int|
                    0 <= r2 < 32 && 0 <= c2 < 64 ==> #[trigger] self@.disp[r2][c2] == (if
                        in_draw_region(oy as int, ox as int, rows as int, cols as int, r2, c2)
                            && r2 - oy < ri {
                        toggle(pre.disp[r2][c2], draw_bit(pre, oy as int, ox as int, r2, c2))
                    } else {
                        pre.disp[r2][c2]
                    }),
                erased <==> exists|r2: int, c2: int|
                    in_draw_region(oy as int, ox as int, rows as int, cols as int, r2, c2) && r2
                        - oy < ri && pre.disp[r2][c2] == 1 && draw_bit(
                        pre,
                        oy as int,
                        ox as int,
                        r2,
                        c2,
                    ) == 1,
        {
            let byte = self.ram[i_base + ri];
            for cj in 0..cols
                invariant
                    self@ == (MachineView { disp: self@.disp, ..pre }),
                    byte == pre.ram[pre.i + ri],
                    forall|r2: int, c2: int|
                        0 <= r2 < 32 && 0 <= c2 < 64 ==> #[trigger] self@.disp[r2][c2] == (if
                            in_draw_region(oy as int, ox as int, rows as int, cols as int, r2, c2)
                                && (r2 - oy < ri || (r2 - oy == ri && c2 - ox < cj)) {
                            toggle(pre.disp[r2][c2], draw_bit(pre, oy as int, ox as int, r2, c2))
                        } else {
                            pre.disp[r2][c2]
                        }),
                    erased <==> exists|r2: int, c2: int|
                        in_draw_region(oy as int, ox as int, rows as int, cols as int, r2, c2) && (
                        r2 - oy < ri || (r2 - oy == ri && c2 - ox < cj)) && pre.disp[r2][c2] == 1
                            && draw_bit(pre, oy as int, ox as int, r2, c2) == 1,
            {
                let rr = oy + ri;
                let cc = ox + cj;
                let prev = self.get_pixel(rr, cc);
                let bit = (byte >> (7 - (cj as u8))) & 1;
                proof {
                    assert(prev == pre.disp[rr as int][cc as int]);
                    assert(bit == draw_bit(pre, oy as int, ox as int, rr as int, cc as int));
                }
                let newv = if bit == 1 {
                    if prev == 1 {
                        0
                    } else {
                        1
                    }
                } else {
                    prev
                };
                if prev == 1 && bit == 1 {
                    erased = true;
                }
                self.set_pixel(rr, cc, newv);
            }
        }
        self.v_reg[15] = if erased {
            1
        } else {
            0
        };
        self.pc = self.pc + 2;
        proof {
            assert(self@.disp =~~= draw_disp(pre, oy as int, ox as int, rows as int, cols as int));
            assert(self@ =~~= step_next(pre, Instr::Draw(x, y, n), 0));
        }
        Ok(())
    }

    /// Return: the program counter is loaded from the top stack slot,
    /// which is popped. Reports `StackUnderflow`, leaving the machine
    /// unchanged, when no call is in progress.
    fn op_ret(&mut self) -> (r: Result<(), Chip8Error>)
        requires
            old(self)@.wf(),
        ensures
            final(self)@ == step_next(old(self)@, Instr::Ret, 0),
            r == step_result(old(self)@, Instr::Ret),
            final(self)@.wf(),
    {
        if self.sp == 0 {
            return Err(Chip8Error::StackUnderflow);
        }
        self.pc = self.stack[self.sp as usize];
        self.sp = self.sp - 1;
        Ok(())
    }
}

} // verus!
