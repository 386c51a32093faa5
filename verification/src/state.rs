//! The machine state's mathematical model and the interpreter's error type.

use vstd::prelude::*;

verus! {

/// Errors the interpreter reports. All of them are unrecoverable for the
/// current run: the engine attempts no partial recovery.
#[derive(Debug, Clone, Copy, PartialEq, Eq, Structural)]
pub enum Chip8Error {
    /// The program image is longer than the 3584 bytes available above the
    /// load origin 0x200.
    ProgramTooLarge,
    /// A fetch or an address-register-relative memory access reached past
    /// the 4096-byte memory.
    OutOfBounds,
    /// The fetched opcode matches no operation; the value carried is the
    /// offending opcode.
    InvalidOpcode(u16),
    /// A call was made with all sixteen stack slots in use.
    StackOverflow,
    /// A return was executed with an empty call stack.
    StackUnderflow,
}

/// The mathematical model of the whole machine state. The display is a
/// 32-row by 64-column grid of pixels, each 0 (off) or 1 (on). The call
/// stack has seventeen slots: slot 0 is never written, and slots 1 through
/// `sp` hold the return addresses of the calls in progress.
#[verifier::ext_equal]
pub ghost struct MachineView {
    /// 4096 bytes of memory.
    pub ram: Seq<u8>,
    /// 32 rows of 64 pixels, each 0 or 1.
    pub disp: Seq<Seq<u8>>,
    /// One bit per key 0x0..=0xF; bit k set means key k is latched.
    pub keypad: u16,
    /// Seventeen slots; slots 1..=sp hold return addresses.
    pub stack: Seq<u16>,
    /// Stack pointer, 0 when no call is in progress, at most 16.
    pub sp: u8,
    /// Program counter.
    pub pc: u16,
    /// General registers V0..=VF; register 15 (VF) is the flag register.
    pub v: Seq<u8>,
    /// Address register I.
    pub i: u16,
    /// Delay timer.
    pub dt: u8,
    /// Sound timer.
    pub st: u8,
}

impl MachineView {
    /// Shape of a well-formed machine state. Every constructor establishes
    /// it and every operation preserves it.
    pub open spec fn wf(self) -> bool {
        &&& self.ram.len() == 4096
        &&& self.disp.len() == 32
        &&& forall|r: int| 0 <= r < 32 ==> (#[trigger] self.disp[r]).len() == 64
        &&& forall|r: int, c: int|
            0 <= r < 32 && 0 <= c < 64 ==> (#[trigger] self.disp[r][c]) == 0
                || self.disp[r][c] == 1
        &&& self.stack.len() == 17
        &&& self.sp <= 16
        &&& self.v.len() == 16
    }

    /// The all-zero state a freshly created machine holds.
    pub open spec fn initial() -> MachineView {
        MachineView {
            ram: Seq::new(4096, |a: int| 0u8),
            disp: all_off(),
            keypad: 0,
            stack: Seq::new(17, |k: int| 0u16),
            sp: 0,
            pc: 0,
            v: Seq::new(16, |k: int| 0u8),
            i: 0,
            dt: 0,
            st: 0,
        }
    }

    /// The state right after a program image was loaded: the font table in
    /// memory at addresses 0..80, the image at 0x200.., the program counter
    /// at 0x200, and everything else zeroed.
    pub open spec fn loaded(program: Seq<u8>) -> MachineView {
        MachineView {
            ram: Seq::new(
                4096,
                |a: int|
                    if 0 <= a < 80 {
                        font()[a]
                    } else if 0x200 <= a < 0x200 + program.len() {
                        program[a - 0x200]
                    } else {
                        0u8
                    },
            ),
            pc: 0x200,
            ..MachineView::initial()
        }
    }
}

/// A display with every pixel off.
pub open spec fn all_off() -> Seq<Seq<u8>> {
    Seq::new(32, |r: int| Seq::new(64, |c: int| 0u8))
}

/// The sixteen fixed 5-byte sprites for the hexadecimal digits 0..=0xF,
/// in digit order: 80 bytes written to memory addresses 0..80.
pub open spec fn font() -> Seq<u8> {
    seq![
        0xF0u8, 0x90, 0x90, 0x90, 0xF0,  // 0
        0x20, 0x60, 0x20, 0x20, 0x70,  // 1
        0xF0, 0x10, 0xF0, 0x80, 0xF0,  // 2
        0xF0, 0x10, 0xF0, 0x10, 0xF0,  // 3
        0x90, 0x90, 0xF0, 0x10, 0x10,  // 4
        0xF0, 0x80, 0xF0, 0x10, 0xF0,  // 5
        0xF0, 0x80, 0xF0, 0x90, 0xF0,  // 6
        0xF0, 0x10, 0x20, 0x40, 0x40,  // 7
        0xF0, 0x90, 0xF0, 0x90, 0xF0,  // 8
        0xF0, 0x90, 0xF0, 0x10, 0xF0,  // 9
        0xF0, 0x90, 0xF0, 0x90, 0x90,  // A
        0xE0, 0x90, 0xE0, 0x90, 0xE0,  // B
        0xF0, 0x80, 0x80, 0x80, 0xF0,  // C
        0xE0, 0x90, 0x90, 0x90, 0xE0,  // D
        0xF0, 0x80, 0xF0, 0x80, 0xF0,  // E
        0xF0, 0x80, 0xF0, 0x80, 0x80,  // F
    ]
}

} // verus!
