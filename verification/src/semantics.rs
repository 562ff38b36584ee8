//! What the machine does, as functions on `MachineState`: the effect of each
//! instruction, of a fetch, of a whole step, of a timer tick and of loading
//! a program.

use vstd::prelude::*;
use crate::error::Chip8Error;
use crate::instruction::{decode_spec, Instruction};
use crate::state::{
    MachineState, GLYPH_SIZE, NUM_KEYS, NUM_REGS, RAM_SIZE, SCREEN_SIZE, STACK_SIZE, START_ADDR,
};

verus! {

/// The sum of two bytes, reduced to a byte.
pub open spec fn wrapped_sum(a: u8, b: u8) -> u8 {
    ((a + b) % 256) as u8
}

/// The flag that an addition leaves: 1 if the sum does not fit in a byte.
pub open spec fn carry_flag(a: u8, b: u8) -> u8 {
    if a + b > 255 {
        1
    } else {
        0
    }
}

/// The difference `a - b`, reduced to a byte.
pub open spec fn wrapped_difference(a: u8, b: u8) -> u8 {
    ((a - b) % 256) as u8
}

/// The flag that the subtraction `a - b` leaves: 1 if nothing was borrowed.
pub open spec fn no_borrow_flag(a: u8, b: u8) -> u8 {
    if a >= b {
        1
    } else {
        0
    }
}

/// The value of the bit of `row_bits` that is drawn `col` pixels to the right
/// of a sprite's left edge: 128 for the leftmost, 1 for the rightmost.
pub open spec fn bit_weight(col: int) -> int {
    if col == 0 {
        128
    } else if col == 1 {
        64
    } else if col == 2 {
        32
    } else if col == 3 {
        16
    } else if col == 4 {
        8
    } else if col == 5 {
        4
    } else if col == 6 {
        2
    } else {
        1
    }
}

/// Whether the sprite row `row_bits` has a set pixel in column `col`.
pub open spec fn sprite_bit(row_bits: u8, col: int) -> bool {
    0 <= col < 8 && (row_bits as int / bit_weight(col)) % 2 == 1
}

/// Whether the sprite of `n` rows that starts at the index register, drawn
/// with its top left corner at column `x0` and row `y0`, has a set pixel on
/// the display pixel `p`. Both coordinates wrap around the display.
pub open spec fn sprite_covers(s: MachineState, x0: u8, y0: u8, n: u8, p: int) -> bool {
    let col = (p % 64 - x0) % 64;
    let row = (p / 64 - y0) % 32;
    row < n && sprite_bit(s.memory[s.index + row], col)
}

/// The display after the sprite was drawn: every pixel it covers is flipped.
pub open spec fn drawn_display(s: MachineState, x0: u8, y0: u8, n: u8) -> Seq<bool> {
    Seq::new(SCREEN_SIZE as nat, |p: int| s.display[p] != sprite_covers(s, x0, y0, n, p))
}

/// Whether drawing the sprite switches off a pixel that was on.
pub open spec fn sprite_collides(s: MachineState, x0: u8, y0: u8, n: u8) -> bool {
    exists|p: int| 0 <= p < SCREEN_SIZE && s.display[p] && #[trigger] sprite_covers(s, x0, y0, n, p)
}

/// Whether `k` is the lowest index of a key that is held down.
pub open spec fn is_lowest_pressed(keys: Seq<bool>, k: int) -> bool {
    &&& 0 <= k < keys.len()
    &&& keys[k]
    &&& forall|j: int| 0 <= j < k ==> !keys[j]
}

/// Whether any key is held down.
pub open spec fn any_pressed(keys: Seq<bool>) -> bool {
    exists|k: int| 0 <= k < keys.len() && keys[k]
}

/// The lowest index of a key that is held down, where there is one.
pub open spec fn lowest_pressed(keys: Seq<bool>) -> int {
    choose|k: int| is_lowest_pressed(keys, k)
}

/// The memory after registers `V0..=VX` were stored from the index register
/// on.
pub open spec fn memory_with_registers(s: MachineState, x: u8) -> Seq<u8> {
    Seq::new(
        RAM_SIZE as nat,
        |a: int|
            if s.index <= a <= s.index + x {
                s.registers[a - s.index]
            } else {
                s.memory[a]
            },
    )
}

/// The registers after `V0..=VX` were loaded from the index register on.
pub open spec fn registers_from_memory(s: MachineState, x: u8) -> Seq<u8> {
    Seq::new(
        NUM_REGS as nat,
        |r: int|
            if r <= x {
                s.memory[s.index + r]
            } else {
                s.registers[r]
            },
    )
}

/// What executing `ins` makes of the state `s`, whose counter already points
/// past `ins`: the next state, or the reason why the instruction cannot be
/// executed. `random` is the byte that a `Random` instruction draws; no other
/// instruction looks at it.
pub open spec fn execute_spec(s: MachineState, ins: Instruction, random: u8) -> Result<
    MachineState,
    Chip8Error,
> {
    match ins {
        Instruction::Nop | Instruction::Unknown => Ok(s),
        Instruction::ClearScreen => Ok(
            MachineState { display: Seq::new(SCREEN_SIZE as nat, |p: int| false), ..s },
        ),
        Instruction::Return => if s.stack.len() == 0 {
            Err(Chip8Error::StackUnderflow)
        } else {
            Ok(MachineState { pc: s.stack.last(), stack: s.stack.drop_last(), ..s })
        },
        Instruction::Jump { addr } => Ok(s.with_pc(addr)),
        Instruction::Call { addr } => if s.stack.len() >= STACK_SIZE {
            Err(Chip8Error::StackOverflow)
        } else {
            Ok(MachineState { pc: addr, stack: s.stack.push(s.pc), ..s })
        },
        Instruction::SkipEqImm { x, kk } => Ok(s.skip_if(s.reg(x) == kk)),
        Instruction::SkipNeImm { x, kk } => Ok(s.skip_if(s.reg(x) != kk)),
        Instruction::SkipEqReg { x, y } => Ok(s.skip_if(s.reg(x) == s.reg(y))),
        Instruction::SkipNeReg { x, y } => Ok(s.skip_if(s.reg(x) != s.reg(y))),
        Instruction::LoadImm { x, kk } => Ok(s.with_reg(x, kk)),
        Instruction::AddImm { x, kk } => Ok(
            s.with_reg(x, wrapped_sum(s.reg(x), kk)).with_flag(carry_flag(s.reg(x), kk)),
        ),
        Instruction::Move { x, y } => Ok(s.with_reg(x, s.reg(y))),
        Instruction::Or { x, y } => Ok(s.with_reg(x, s.reg(x) | s.reg(y))),
        Instruction::And { x, y } => Ok(s.with_reg(x, s.reg(x) & s.reg(y))),
        Instruction::Xor { x, y } => Ok(s.with_reg(x, s.reg(x) ^ s.reg(y))),
        Instruction::AddReg { x, y } => Ok(
            s.with_reg(x, wrapped_sum(s.reg(x), s.reg(y))).with_flag(carry_flag(s.reg(x), s.reg(y))),
        ),
        Instruction::SubReg { x, y } => Ok(
            s.with_reg(x, wrapped_difference(s.reg(x), s.reg(y))).with_flag(
                no_borrow_flag(s.reg(x), s.reg(y)),
            ),
        ),
        Instruction::SubFrom { x, y } => Ok(
            s.with_reg(x, wrapped_difference(s.reg(y), s.reg(x))).with_flag(
                no_borrow_flag(s.reg(y), s.reg(x)),
            ),
        ),
        Instruction::ShiftRight { x } => {
            let flagged = s.with_flag((s.reg(x) % 2) as u8);
            Ok(flagged.with_reg(x, (flagged.reg(x) / 2) as u8))
        },
        Instruction::ShiftLeft { x } => {
            let flagged = s.with_flag(s.reg(x) & 0x08);
            Ok(flagged.with_reg(x, ((flagged.reg(x) * 2) % 256) as u8))
        },
        Instruction::LoadIndex { addr } => Ok(s.with_index(addr)),
        Instruction::JumpOffset { addr } => Ok(s.with_pc((s.reg(0) + addr) as u16)),
        Instruction::Random { x, kk } => Ok(s.with_reg(x, random & kk)),
        Instruction::Draw { x, y, n } => if n > 0 && s.index + n > RAM_SIZE {
            Err(Chip8Error::MemoryOutOfBounds)
        } else {
            let x0 = s.reg(x);
            let y0 = s.reg(y);
            let flag: u8 = if sprite_collides(s, x0, y0, n) {
                1
            } else {
                0
            };
            Ok(MachineState { display: drawn_display(s, x0, y0, n), ..s }.with_flag(flag))
        },
        Instruction::SkipKeyDown { x } => if s.reg(x) >= NUM_KEYS {
            Err(Chip8Error::InvalidKeyIndex)
        } else {
            Ok(s.skip_if(s.keys[s.reg(x) as int]))
        },
        Instruction::SkipKeyUp { x } => if s.reg(x) >= NUM_KEYS {
            Err(Chip8Error::InvalidKeyIndex)
        } else {
            Ok(s.skip_if(!s.keys[s.reg(x) as int]))
        },
        Instruction::ReadDelay { x } => Ok(s.with_reg(x, s.delay_timer)),
        Instruction::WaitKey { x } => if any_pressed(s.keys) {
            Ok(s.with_reg(x, lowest_pressed(s.keys) as u8))
        } else {
            Ok(s.with_pc((s.pc - 2) as u16))
        },
        Instruction::SetDelay { x } => Ok(MachineState { delay_timer: s.reg(x), ..s }),
        Instruction::SetSound { x } => Ok(MachineState { sound_timer: s.reg(x), ..s }),
        Instruction::AddIndex { x } => Ok(s.with_index(((s.index + s.reg(x)) % 0x10000) as u16)),
        Instruction::FontAddr { x } => Ok(s.with_index((GLYPH_SIZE * s.reg(x)) as u16)),
        Instruction::StoreBcd { x } => if s.index + 2 >= RAM_SIZE {
            Err(Chip8Error::MemoryOutOfBounds)
        } else {
            let value = s.reg(x);
            Ok(
                MachineState {
                    memory: s.memory.update(s.index as int, (value / 100) as u8).update(
                        s.index + 1,
                        ((value / 10) % 10) as u8,
                    ).update(s.index + 2, (value % 10) as u8),
                    ..s
                },
            )
        },
        Instruction::StoreRegs { x } => if s.index + x >= RAM_SIZE {
            Err(Chip8Error::MemoryOutOfBounds)
        } else {
            Ok(MachineState { memory: memory_with_registers(s, x), ..s })
        },
        Instruction::LoadRegs { x } => if s.index + x >= RAM_SIZE {
            Err(Chip8Error::MemoryOutOfBounds)
        } else {
            Ok(MachineState { registers: registers_from_memory(s, x), ..s })
        },
    }
}

/// Whether the two bytes of the next instruction lie inside memory.
pub open spec fn can_fetch(s: MachineState) -> bool {
    s.pc + 1 < RAM_SIZE
}

/// The instruction word at the counter: the byte there is its high byte, the
/// byte after it its low byte.
pub open spec fn fetched_word(s: MachineState) -> u16 {
    (256 * s.memory[s.pc as int] + s.memory[s.pc + 1]) as u16
}

/// The state after the instruction word at the counter was consumed.
pub open spec fn after_fetch(s: MachineState) -> MachineState {
    s.with_pc((s.pc + 2) as u16)
}

/// Whether the next instruction of `s` can be fetched and draws a random
/// byte.
pub open spec fn next_is_random(s: MachineState) -> bool {
    can_fetch(s) && decode_spec(fetched_word(s)) is Random
}

/// One step of the machine: fetch the word at the counter, then execute it.
///
/// The first component is the state the step leaves, the second says whether
/// it succeeded. A fetch that fails leaves the state as it was; an
/// instruction that fails leaves the state as the fetch left it, with the
/// counter past the instruction.
pub open spec fn step_spec(s: MachineState, random: u8) -> (MachineState, Result<(), Chip8Error>) {
    if !can_fetch(s) {
        (s, Err(Chip8Error::MemoryOutOfBounds))
    } else {
        let fetched = after_fetch(s);
        match execute_spec(fetched, decode_spec(fetched_word(s)), random) {
            Ok(next) => (next, Ok(())),
            Err(e) => (fetched, Err(e)),
        }
    }
}

/// The value of a timer one tick after it had the value `t`.
pub open spec fn decayed(t: u8) -> u8 {
    if t > 0 {
        (t - 1) as u8
    } else {
        0
    }
}

/// The state after one tick of the timers.
pub open spec fn tick_timers_spec(s: MachineState) -> MachineState {
    MachineState { delay_timer: decayed(s.delay_timer), sound_timer: decayed(s.sound_timer), ..s }
}

/// The memory after `image` was loaded at `START_ADDR`.
pub open spec fn memory_with_image(memory: Seq<u8>, image: Seq<u8>) -> Seq<u8> {
    Seq::new(
        RAM_SIZE as nat,
        |a: int|
            if START_ADDR <= a < START_ADDR + image.len() {
                image[a - START_ADDR]
            } else {
                memory[a]
            },
    )
}

} // verus!
