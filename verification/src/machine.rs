//! The machine state: creation, program loading, and the host-facing
//! accessors for the display, the keypad latch and the timers.

use vstd::prelude::*;

use crate::state::{Chip8Error, MachineView, font};

verus! {

/// One virtual machine. All interpreter state lives here; the instruction
/// engine and the host's timer and key-press calls are its only mutators.
pub struct Chip8 {
    pub(crate) ram: [u8; 4096],
    pub(crate) disp_buffer: [[u8; 64]; 32],
    pub(crate) keypad: u16,
    pub(crate) stack: [u16; 17],
    pub(crate) sp: u8,
    pub(crate) pc: u16,
    pub(crate) v_reg: [u8; 16],
    pub(crate) i: u16,
    pub(crate) dt: u8,
    pub(crate) st: u8,
}

impl View for Chip8 {
    type V = MachineView;

    open(crate) spec fn view(&self) -> MachineView {
        MachineView {
            ram: self.ram@,
            disp: self.disp_buffer.deep_view(),
            keypad: self.keypad,
            stack: self.stack@,
            sp: self.sp,
            pc: self.pc,
            v: self.v_reg@,
            i: self.i,
            dt: self.dt,
            st: self.st,
        }
    }
}

impl Default for Chip8 {
    /// A machine with every byte, register, pixel and timer zeroed.
    fn default() -> (c: Chip8)
        ensures
            c@ == MachineView::initial(),
            c@.wf(),
    {
        let c = Chip8 {
            ram: [0u8; 4096],
            disp_buffer: [[0u8; 64]; 32],
            keypad: 0,
            stack: [0u16; 17],
            sp: 0,
            pc: 0,
            v_reg: [0u8; 16],
            i: 0,
            dt: 0,
            st: 0,
        };
        proof {
            assert(c@.disp =~~= MachineView::initial().disp);
            assert(c@ =~~= MachineView::initial());
        }
        c
    }
}

impl Chip8 {
    /// Loads a program image: writes the font table to memory addresses
    /// 0..80, copies the image verbatim to 0x200.., points the program
    /// counter at 0x200 and zeroes all other state. Rejects an image longer
    /// than the 3584 bytes of memory above the load origin, leaving the
    /// machine unchanged.
    pub fn init(&mut self, program: &Vec<u8>) -> (r: Result<(), Chip8Error>)
        ensures
            program@.len() <= 3584 ==> r == Ok::<(), Chip8Error>(()) && final(self)@
                == MachineView::loaded(program@) && final(self)@.wf(),
            program@.len() > 3584 ==> r == Err::<(), Chip8Error>(Chip8Error::ProgramTooLarge)
                && final(self)@ == old(self)@,
    {
        if program.len() > 3584 {
            return Err(Chip8Error::ProgramTooLarge);
        }
        *self = Chip8::default();
        self.pc = 0x200;
        let table: [u8; 80] = [
            0xF0, 0x90, 0x90, 0x90, 0xF0,  // 0
            0x20, 0x60, 0x20, 0x20, 0x70,  // 1
            0xF0, 0x10, 0xF0, 0x80, 0xF0,  // 2
            0xF0, 0x10, 0xF0, 0x10, 0xF0,  // 3
            0x90, 0x90, 0xF0, 0x10, 0x10,  // 4
            0xF0, 0x80, 0xF0, 0x10, 0xF0,  // 5
            0xF0, 0x80, 0xF0, 0x90, 0xF0,  // 6
            0xF0, 0x10, 0x20, 0x40, 0x40,  // 7
            0xF0, 0x90, 0xF0, 0x90, 0xF0,  // 8
            0xF0, 0x90, 0xF0, 0x10, 0xF0,  // 9
            0xF0, 0x90, 0xF0, 0x90, 0x90,  // A
            0xE0, 0x90, 0xE0, 0x90, 0xE0,  // B
            0xF0, 0x80, 0x80, 0x80, 0xF0,  // C
            0xE0, 0x90, 0x90, 0x90, 0xE0,  // D
            0xF0, 0x80, 0xF0, 0x80, 0xF0,  // E
            0xF0, 0x80, 0xF0, 0x80, 0x80,  // F
        ];
        proof {
            assert(table@ =~= font());
        }
        for k in 0..80usize
            invariant
                table@ == font(),
                self@.ram.len() == 4096,
                forall|j: int| 0 <= j < k ==> self@.ram[j] == font()[j],
                forall|j: int| k <= j < 4096 ==> self@.ram[j] == 0,
                self@ == (MachineView { ram: self@.ram, pc: 0x200, ..MachineView::initial() }),
        {
            self.ram[k] = table[k];
        }
        for k in 0..program.len()
            invariant
                program@.len() <= 3584,
                self@.ram.len() == 4096,
                forall|j: int| 0 <= j < 80 ==> self@.ram[j] == font()[j],
                forall|j: int| 80 <= j < 0x200 ==> self@.ram[j] == 0,
                forall|j: int| 0 <= j < k ==> self@.ram[0x200 + j] == program@[j],
                forall|j: int| 0x200 + k <= j < 4096 ==> self@.ram[j] == 0,
                self@ == (MachineView { ram: self@.ram, pc: 0x200, ..MachineView::initial() }),
        {
            self.ram[0x200 + k] = program[k];
        }
        proof {
            assert(self@.ram =~= MachineView::loaded(program@).ram);
            assert(self@ =~~= MachineView::loaded(program@));
        }
        Ok(())
    }

    /// The current framebuffer, 32 rows of 64 pixels, each 0 (off) or
    /// 1 (on); a read-only snapshot for the host to render.
    pub fn get_display(&self) -> (d: &[[u8; 64]; 32])
        ensures
            d.deep_view() == self@.disp,
    {
        &self.disp_buffer
    }

    /// Latches key `key` (0..=15) as pressed. Presses coalesce: only
    /// presence matters until an opcode consumes the latch.
    pub fn set_keypad(&mut self, key: u8)
        requires
            key < 16,
        ensures
            final(self)@ == (MachineView { keypad: old(self)@.keypad | (1u16 << (key as u16)), ..old(self)@ }),
            old(self)@.wf() ==> final(self)@.wf(),
    {
        self.keypad = self.keypad | (1u16 << (key as u16));
    }

    /// Register `x`'s current value.
    pub fn get_register(&self, x: u8) -> (r: u8)
        requires
            self@.wf(),
            x < 16,
        ensures
            r == self@.v[x as int],
    {
        self.v_reg[x as usize]
    }

    /// The byte at memory address `addr`.
    pub fn get_memory(&self, addr: u16) -> (r: u8)
        requires
            self@.wf(),
            addr < 4096,
        ensures
            r == self@.ram[addr as int],
    {
        self.ram[addr as usize]
    }

    /// The current program counter.
    pub fn get_pc(&self) -> (r: u16)
        ensures
            r == self@.pc,
    {
        self.pc
    }

    /// The current address register.
    pub fn get_i(&self) -> (r: u16)
        ensures
            r == self@.i,
    {
        self.i
    }

    /// The current stack pointer: how many calls are in progress.
    pub fn get_sp(&self) -> (r: u8)
        ensures
            r == self@.sp,
    {
        self.sp
    }

    /// The return address in stack slot `slot`; slots 1 through the stack
    /// pointer hold the calls in progress.
    pub fn get_stack(&self, slot: u8) -> (r: u16)
        requires
            self@.wf(),
            slot < 17,
        ensures
            r == self@.stack[slot as int],
    {
        self.stack[slot as usize]
    }

    /// The delay timer's current value.
    pub fn get_delay_timer(&self) -> (r: u8)
        ensures
            r == self@.dt,
    {
        self.dt
    }

    /// The sound timer's current value, for the host to gate audio on.
    pub fn get_sound_timer(&self) -> (r: u8)
        ensures
            r == self@.st,
    {
        self.st
    }

    /// The keypad latch: bit `k` is set while key `k`'s press is latched.
    pub fn get_keypad(&self) -> (r: u16)
        ensures
            r == self@.keypad,
    {
        self.keypad
    }

    /// Decrements each timer by one, floored at zero. The host calls this
    /// at its fixed real-time cadence, decoupled from instruction cycles.
    pub fn update_timers(&mut self)
        ensures
            final(self)@ == (MachineView { dt: tick(old(self)@.dt), st: tick(old(self)@.st), ..old(self)@ }),
            old(self)@.wf() ==> final(self)@.wf(),
    {
        if self.dt > 0 {
            self.dt = self.dt - 1;
        }
        if self.st > 0 {
            self.st = self.st - 1;
        }
    }
}

/// One timer tick: down by one, floored at zero.
pub open spec fn tick(t: u8) -> u8 {
    if t > 0 {
        (t - 1) as u8
    } else {
        0
    }
}

} // verus!
