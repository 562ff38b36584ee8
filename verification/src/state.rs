//! The sizes of the machine, its font, and `MachineState`, the mathematical
//! model that every contract of the crate speaks of.

use vstd::prelude::*;

verus! {

/// Number of addressable memory cells.
pub const RAM_SIZE: usize = 4096;

/// Width of the display in pixels.
pub const SCREEN_WIDTH: usize = 64;

/// Height of the display in pixels.
pub const SCREEN_HEIGHT: usize = 32;

/// Number of pixels of the display, `SCREEN_WIDTH * SCREEN_HEIGHT`.
pub const SCREEN_SIZE: usize = 2048;

/// Number of general-purpose registers.
pub const NUM_REGS: usize = 16;

/// Number of return addresses the call stack can hold.
pub const STACK_SIZE: usize = 16;

/// Number of keys of the keypad.
pub const NUM_KEYS: usize = 16;

/// Address at which programs are loaded and at which execution starts.
pub const START_ADDR: u16 = 0x200;

/// Largest program image that fits between `START_ADDR` and the end of memory.
pub const MAX_IMAGE_SIZE: usize = 3584;

/// Number of bytes of the built-in font: sixteen glyphs of five rows each.
pub const FONT_SIZE: usize = 80;

/// Number of rows, and so of bytes, of one glyph of the font.
pub const GLYPH_SIZE: u16 = 5;

/// The built-in font, one glyph per hexadecimal digit, in the order `0` to `F`.
pub const FONT_SET: [u8; FONT_SIZE] = [
    0xF0, 0x90, 0x90, 0x90, 0xF0,
    0x20, 0x60, 0x20, 0x20, 0x70,
    0xF0, 0x10, 0xF0, 0x80, 0xF0,
    0xF0, 0x10, 0xF0, 0x10, 0xF0,
    0x90, 0x90, 0xF0, 0x10, 0x10,
    0xF0, 0x80, 0xF0, 0x10, 0xF0,
    0xF0, 0x80, 0xF0, 0x90, 0xF0,
    0xF0, 0x10, 0x20, 0x40, 0x40,
    0xF0, 0x90, 0xF0, 0x90, 0xF0,
    0xF0, 0x90, 0xF0, 0x10, 0xF0,
    0xF0, 0x90, 0xF0, 0x90, 0x90,
    0xE0, 0x90, 0xE0, 0x90, 0xE0,
    0xF0, 0x80, 0x80, 0x80, 0xF0,
    0xE0, 0x90, 0x90, 0x90, 0xE0,
    0xF0, 0x80, 0xF0, 0x80, 0xF0,
    0xF0, 0x80, 0xF0, 0x80, 0x80,
];

/// The mathematical model of a machine: everything a program or a caller can
/// observe of it.
///
/// The call stack is modelled by its live entries alone, oldest first; what
/// lies in unused slots cannot be observed and is not part of the model.
#[verifier::ext_equal]
pub struct MachineState {
    /// Address of the next instruction to fetch.
    pub pc: u16,
    /// The memory cells, by address.
    pub memory: Seq<u8>,
    /// The pixels in row-major order: the pixel at column `x` of row `y` is
    /// entry `x + 64 * y`.
    pub display: Seq<bool>,
    /// The general-purpose registers `V0` to `VF`.
    pub registers: Seq<u8>,
    /// The index register `I`.
    pub index: u16,
    /// The return addresses on the call stack, oldest first.
    pub stack: Seq<u16>,
    /// The delay timer.
    pub delay_timer: u8,
    /// The sound timer.
    pub sound_timer: u8,
    /// For each key of the keypad, whether it is held down.
    pub keys: Seq<bool>,
}

impl MachineState {
    /// The shape every machine has: the fixed sizes of its parts and the
    /// bound on the depth of its stack.
    pub open spec fn well_formed(self) -> bool {
        &&& self.memory.len() == RAM_SIZE
        &&& self.display.len() == SCREEN_SIZE
        &&& self.registers.len() == NUM_REGS
        &&& self.stack.len() <= STACK_SIZE
        &&& self.keys.len() == NUM_KEYS
    }

    /// The state of a machine that was just created or reset: the counter at
    /// `START_ADDR`, the font in the first `FONT_SIZE` cells, all else zero.
    pub open spec fn initial() -> MachineState {
        MachineState {
            pc: START_ADDR,
            memory: Seq::new(RAM_SIZE as nat, |a: int| if a < FONT_SIZE { FONT_SET@[a] } else { 0u8 }),
            display: Seq::new(SCREEN_SIZE as nat, |p: int| false),
            registers: Seq::new(NUM_REGS as nat, |r: int| 0u8),
            index: 0,
            stack: Seq::empty(),
            delay_timer: 0,
            sound_timer: 0,
            keys: Seq::new(NUM_KEYS as nat, |k: int| false),
        }
    }

    /// The value of register `x`.
    pub open spec fn reg(self, x: u8) -> u8 {
        self.registers[x as int]
    }

    /// This state with register `x` set to `value`.
    pub open spec fn with_reg(self, x: u8, value: u8) -> MachineState {
        MachineState { registers: self.registers.update(x as int, value), ..self }
    }

    /// This state with the flags register `VF` set to `value`.
    pub open spec fn with_flag(self, value: u8) -> MachineState {
        self.with_reg(0xF, value)
    }

    /// This state with the counter set to `pc`.
    pub open spec fn with_pc(self, pc: u16) -> MachineState {
        MachineState { pc, ..self }
    }

    /// This state with the index register set to `index`.
    pub open spec fn with_index(self, index: u16) -> MachineState {
        MachineState { index, ..self }
    }

    /// This state with the counter moved past one more instruction if
    /// `condition` holds, and unchanged if not.
    pub open spec fn skip_if(self, condition: bool) -> MachineState {
        if condition {
            self.with_pc((self.pc + 2) as u16)
        } else {
            self
        }
    }
}

} // verus!
