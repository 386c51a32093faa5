//! An interpreter for an 8-bit virtual machine: 4 KB of byte-addressable
//! memory, sixteen 8-bit general registers, a 16-bit address register, a
//! 64x32 monochrome framebuffer, a sixteen-deep call stack, a keypad latch
//! and two 8-bit timers.
//!
//! The host drives the machine: it loads a program image with
//! [`Chip8::init`], runs one fetch-decode-execute step per call of
//! [`Chip8::cycle`], decrements the timers at its own cadence with
//! [`Chip8::update_timers`], injects key presses with
//! [`Chip8::set_keypad`] and renders the framebuffer returned by
//! [`Chip8::get_display`].
//!
//! Every state change is specified against the mathematical model
//! [`state::MachineView`]: decoding is pinned down by
//! [`decode::spec_decode`], and the effect of one step by
//! [`semantics::cycle_next`] and [`semantics::cycle_result`].

pub mod decode;
pub mod engine;
pub mod laws;
pub mod machine;
pub mod semantics;
pub mod state;

pub use machine::Chip8;
pub use state::Chip8Error;
