//! A verified core for a CHIP-8 virtual machine.
//!
//! [`Emulator`] holds one machine: sixteen registers, 4096 bytes of memory,
//! a call stack of sixteen return addresses, a 64 by 32 monochrome display,
//! two timers and a keypad of sixteen keys. The caller loads a program,
//! calls [`Emulator::tick`] once per instruction and
//! [`Emulator::tick_timers`] at its own, slower pace, reads the display with
//! [`Emulator::get_display`] and reports keys with [`Emulator::keypress`].
//!
//! Every operation is specified over [`state::MachineState`], the
//! mathematical model of a machine, which is the view of an `Emulator`.
//! [`semantics`] says what each instruction does to that model,
//! [`instruction`] how words decode, and [`laws`] states properties that
//! follow for every machine.

pub mod error;
pub mod execute;
pub mod instruction;
pub mod laws;
pub mod machine;
mod random;
pub mod semantics;
pub mod state;

pub use error::Chip8Error;
pub use instruction::{decode, Instruction};
pub use machine::Emulator;
pub use state::{SCREEN_HEIGHT, SCREEN_WIDTH};
