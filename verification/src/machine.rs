//! `Emulator`, the executable machine: its life cycle, stack, fetch, step,
//! timers and accessors.

use vstd::prelude::*;
use crate::error::Chip8Error;
use crate::instruction::{decode, lemma_decode_well_formed, Instruction};
use crate::random::random_byte;
use crate::semantics::{
    after_fetch, can_fetch, fetched_word, memory_with_image, next_is_random, step_spec,
    tick_timers_spec,
};
use crate::state::{
    MachineState, FONT_SET, FONT_SIZE, MAX_IMAGE_SIZE, NUM_KEYS, NUM_REGS, RAM_SIZE, SCREEN_SIZE,
    STACK_SIZE, START_ADDR,
};

verus! {

/// A virtual machine: registers, memory, call stack, display, timers and
/// keypad, owned by whoever holds the value.
///
/// Its view is the `MachineState` that the contracts of all operations speak
/// of.
pub struct Emulator {
    pub(crate) pc: u16,
    pub(crate) ram: [u8; RAM_SIZE],
    pub(crate) screen: [bool; SCREEN_SIZE],
    pub(crate) v_regs: [u8; NUM_REGS],
    pub(crate) i_reg: u16,
    pub(crate) sp: u16,
    pub(crate) stack: [u16; STACK_SIZE],
    pub(crate) d_timer: u8,
    pub(crate) s_timer: u8,
    pub(crate) keys: [bool; NUM_KEYS],
}

impl View for Emulator {
    type V = MachineState;

    open(crate) spec fn view(&self) -> MachineState {
        MachineState {
            pc: self.pc,
            memory: self.ram@,
            display: self.screen@,
            registers: self.v_regs@,
            index: self.i_reg,
            stack: if self.sp <= STACK_SIZE {
                self.stack@.take(self.sp as int)
            } else {
                self.stack@
            },
            delay_timer: self.d_timer,
            sound_timer: self.s_timer,
            keys: self.keys@,
        }
    }
}

impl Emulator {
    /// The stack pointer is the number of return addresses on the stack, and
    /// so never beyond the last slot but one.
    #[verifier::type_invariant]
    pub(crate) open(crate) spec fn stack_pointer_in_range(&self) -> bool {
        self.sp <= STACK_SIZE
    }

    /// The view of every machine has the shape of a machine.
    pub proof fn lemma_view_well_formed(&self)
        ensures
            self@.well_formed(),
    {
    }

    /// Creates a machine in its initial state: the counter at `START_ADDR`,
    /// the font at the bottom of memory, everything else zero.
    pub fn new() -> (emu: Emulator)
        ensures
            emu@ == MachineState::initial(),
    {
        let mut emu = Emulator {
            pc: START_ADDR,
            ram: [0; RAM_SIZE],
            screen: [false; SCREEN_SIZE],
            v_regs: [0; NUM_REGS],
            i_reg: 0,
            sp: 0,
            stack: [0; STACK_SIZE],
            d_timer: 0,
            s_timer: 0,
            keys: [false; NUM_KEYS],
        };
        let mut a: usize = 0;
        while a < FONT_SIZE
            invariant
                a <= FONT_SIZE,
                emu.pc == START_ADDR,
                emu.i_reg == 0,
                emu.sp == 0,
                emu.d_timer == 0,
                emu.s_timer == 0,
                forall|b: int| 0 <= b < a ==> emu.ram@[b] == FONT_SET@[b],
                forall|b: int| a <= b < RAM_SIZE ==> emu.ram@[b] == 0,
                forall|p: int| 0 <= p < SCREEN_SIZE ==> !emu.screen@[p],
                forall|r: int| 0 <= r < NUM_REGS ==> emu.v_regs@[r] == 0,
                forall|k: int| 0 <= k < NUM_KEYS ==> !emu.keys@[k],
            decreases FONT_SIZE - a,
        {
            emu.ram[a] = FONT_SET[a];
            a += 1;
        }
        emu
    }

    /// Puts the machine back into its initial state, as `new` creates it.
    pub fn reset(&mut self)
        ensures
            final(self)@ == MachineState::initial(),
    {
        *self = Emulator::new();
    }

    /// Pushes `value` onto the call stack.
    ///
    /// Fails with `StackOverflow`, and changes nothing, if the stack already
    /// holds `STACK_SIZE` values.
    pub fn push(&mut self, value: u16) -> (res: Result<(), Chip8Error>)
        ensures
            match res {
                Ok(()) => {
                    &&& old(self)@.stack.len() < STACK_SIZE
                    &&& final(self)@ == (MachineState {
                        stack: old(self)@.stack.push(value),
                        ..old(self)@
                    })
                },
                Err(e) => {
                    &&& e == Chip8Error::StackOverflow
                    &&& old(self)@.stack.len() >= STACK_SIZE
                    &&& final(self)@ == old(self)@
                },
            },
    {
        proof {
            use_type_invariant(&*self);
        }
        if self.sp as usize >= STACK_SIZE {
            return Err(Chip8Error::StackOverflow);
        }
        self.stack[self.sp as usize] = value;
        self.sp += 1;
        Ok(())
    }

    /// Pops the value that was pushed last.
    ///
    /// Fails with `StackUnderflow`, and changes nothing, if the stack is
    /// empty.
    pub fn pop(&mut self) -> (res: Result<u16, Chip8Error>)
        ensures
            match res {
                Ok(value) => {
                    &&& old(self)@.stack.len() > 0
                    &&& value == old(self)@.stack.last()
                    &&& final(self)@ == (MachineState {
                        stack: old(self)@.stack.drop_last(),
                        ..old(self)@
                    })
                },
                Err(e) => {
                    &&& e == Chip8Error::StackUnderflow
                    &&& old(self)@.stack.len() == 0
                    &&& final(self)@ == old(self)@
                },
            },
    {
        proof {
            use_type_invariant(&*self);
        }
        if self.sp == 0 {
            return Err(Chip8Error::StackUnderflow);
        }
        self.sp -= 1;
        let value: u16 = self.stack[self.sp as usize];
        Ok(value)
    }

    /// Reads the instruction word at the counter, high byte first, and moves
    /// the counter past it.
    ///
    /// Fails with `MemoryOutOfBounds`, and changes nothing, if either byte of
    /// the word lies beyond the end of memory.
    pub fn fetch(&mut self) -> (res: Result<u16, Chip8Error>)
        ensures
            match res {
                Ok(word) => {
                    &&& can_fetch(old(self)@)
                    &&& word == fetched_word(old(self)@)
                    &&& final(self)@ == after_fetch(old(self)@)
                },
                Err(e) => {
                    &&& e == Chip8Error::MemoryOutOfBounds
                    &&& !can_fetch(old(self)@)
                    &&& final(self)@ == old(self)@
                },
            },
    {
        proof {
            use_type_invariant(&*self);
        }
        let at: usize = self.pc as usize;
        if at + 1 >= RAM_SIZE {
            return Err(Chip8Error::MemoryOutOfBounds);
        }
        let upper: u16 = self.ram[at] as u16;
        let lower: u16 = self.ram[at + 1] as u16;
        let word: u16 = (upper << 8) | lower;
        assert(word == 256 * upper + lower) by (bit_vector)
            requires
                word == (upper << 8) | lower,
                upper < 256,
                lower < 256,
        ;
        self.pc += 2;
        Ok(word)
    }

    /// Performs one fetch and execute cycle, with `random` as the byte that
    /// the instruction draws if it is a `Random` instruction.
    ///
    /// On failure the machine is left as `step_spec` says: untouched if the
    /// fetch failed, with only the counter advanced if the instruction did.
    pub fn tick_with(&mut self, random: u8) -> (res: Result<(), Chip8Error>)
        ensures
            (final(self)@, res) == step_spec(old(self)@, random),
    {
        let word: u16 = match self.fetch() {
            Ok(word) => word,
            Err(e) => {
                return Err(e);
            },
        };
        self.execute(word, random)
    }

    /// Performs one fetch and execute cycle.
    ///
    /// The step is the one that `step_spec` describes for some random byte;
    /// unless the instruction is a `Random` instruction, the byte does not
    /// matter and none is drawn.
    pub fn tick(&mut self) -> (res: Result<(), Chip8Error>)
        ensures
            exists|random: u8| (final(self)@, res) == #[trigger] step_spec(old(self)@, random),
            !next_is_random(old(self)@) ==> forall|random: u8|
                (final(self)@, res) == #[trigger] step_spec(old(self)@, random),
    {
        let word: u16 = match self.fetch() {
            Ok(word) => word,
            Err(e) => {
                assert((self@, Err::<(), Chip8Error>(e)) == step_spec(old(self)@, 0));
                return Err(e);
            },
        };
        let ins = decode(word);
        let random: u8 = match ins {
            Instruction::Random { .. } => random_byte(),
            _ => 0,
        };
        proof {
            lemma_decode_well_formed(word);
        }
        let res = self.execute_decoded(ins, random);
        assert((self@, res) == step_spec(old(self)@, random));
        res
    }

    /// The pixels of the display in row-major order: the pixel at column `x`
    /// of row `y` is entry `x + SCREEN_WIDTH * y`.
    pub fn get_display(&self) -> (display: &[bool])
        ensures
            display@ == self@.display,
            display@.len() == SCREEN_SIZE,
    {
        &self.screen
    }

    /// Records that the key `idx` is held down (`pressed`) or released.
    ///
    /// Fails with `InvalidKeyIndex`, and changes nothing, if `idx` is not
    /// below `NUM_KEYS`.
    pub fn keypress(&mut self, idx: usize, pressed: bool) -> (res: Result<(), Chip8Error>)
        ensures
            match res {
                Ok(()) => {
                    &&& idx < NUM_KEYS
                    &&& final(self)@ == (MachineState {
                        keys: old(self)@.keys.update(idx as int, pressed),
                        ..old(self)@
                    })
                },
                Err(e) => {
                    &&& e == Chip8Error::InvalidKeyIndex
                    &&& idx >= NUM_KEYS
                    &&& final(self)@ == old(self)@
                },
            },
    {
        proof {
            use_type_invariant(&*self);
        }
        if idx >= NUM_KEYS {
            return Err(Chip8Error::InvalidKeyIndex);
        }
        self.keys[idx] = pressed;
        Ok(())
    }

    /// Copies the program image `data` into memory from `START_ADDR` on.
    ///
    /// Fails with `ImageTooLarge`, before anything is written, if `data` is
    /// longer than `MAX_IMAGE_SIZE`.
    pub fn load(&mut self, data: &[u8]) -> (res: Result<(), Chip8Error>)
        ensures
            match res {
                Ok(()) => {
                    &&& data@.len() <= MAX_IMAGE_SIZE
                    &&& final(self)@ == (MachineState {
                        memory: memory_with_image(old(self)@.memory, data@),
                        ..old(self)@
                    })
                },
                Err(e) => {
                    &&& e == Chip8Error::ImageTooLarge
                    &&& data@.len() > MAX_IMAGE_SIZE
                    &&& final(self)@ == old(self)@
                },
            },
    {
        proof {
            use_type_invariant(&*self);
        }
        let len: usize = data.len();
        if len > MAX_IMAGE_SIZE {
            return Err(Chip8Error::ImageTooLarge);
        }
        let start: usize = START_ADDR as usize;
        let mut i: usize = 0;
        while i < len
            invariant
                i <= len,
                len == data@.len(),
                len <= MAX_IMAGE_SIZE,
                start == 0x200,
                self.sp <= STACK_SIZE,
                forall|a: int|
                    0 <= a < RAM_SIZE ==> self.ram@[a] == if start <= a < start + i {
                        data@[a - start]
                    } else {
                        old(self).ram@[a]
                    },
                self@ == (MachineState { memory: self.ram@, ..old(self)@ }),
            decreases len - i,
        {
            self.ram[start + i] = data[i];
            i += 1;
        }
        Ok(())
    }

    /// Lets both timers decay by one tick: each one that is above zero is
    /// decremented, one at zero stays there.
    pub fn tick_timers(&mut self)
        ensures
            final(self)@ == tick_timers_spec(old(self)@),
    {
        proof {
            use_type_invariant(&*self);
        }
        if self.d_timer > 0 {
            self.d_timer -= 1;
        }
        if self.s_timer > 0 {
            self.s_timer -= 1;
        }
    }

    /// The counter: the address of the next instruction.
    pub fn pc(&self) -> (pc: u16)
        ensures
            pc == self@.pc,
    {
        self.pc
    }

    /// The index register.
    pub fn index(&self) -> (index: u16)
        ensures
            index == self@.index,
    {
        self.i_reg
    }

    /// The sixteen general-purpose registers, `V0` first.
    pub fn registers(&self) -> (registers: &[u8])
        ensures
            registers@ == self@.registers,
            registers@.len() == NUM_REGS,
    {
        &self.v_regs
    }

    /// The memory cells, by address.
    pub fn memory(&self) -> (memory: &[u8])
        ensures
            memory@ == self@.memory,
            memory@.len() == RAM_SIZE,
    {
        &self.ram
    }

    /// The number of return addresses on the call stack.
    pub fn stack_depth(&self) -> (depth: usize)
        ensures
            depth == self@.stack.len(),
    {
        proof {
            use_type_invariant(self);
        }
        self.sp as usize
    }

    /// The delay timer.
    pub fn delay_timer(&self) -> (t: u8)
        ensures
            t == self@.delay_timer,
    {
        self.d_timer
    }

    /// The sound timer. While it is above zero, a tone is due.
    pub fn sound_timer(&self) -> (t: u8)
        ensures
            t == self@.sound_timer,
    {
        self.s_timer
    }

    /// For each key of the keypad, whether it is held down.
    pub fn keys(&self) -> (keys: &[bool])
        ensures
            keys@ == self@.keys,
            keys@.len() == NUM_KEYS,
    {
        &self.keys
    }
}

} // verus!
