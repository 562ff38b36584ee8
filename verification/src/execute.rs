//! The execution of instructions on an `Emulator`.

use vstd::prelude::*;
use crate::error::Chip8Error;
use crate::instruction::{decode, decode_spec, lemma_decode_well_formed, Instruction};
use crate::machine::Emulator;
use crate::semantics::{
    any_pressed, carry_flag, drawn_display, execute_spec, is_lowest_pressed,
    lowest_pressed, memory_with_registers, no_borrow_flag, registers_from_memory, sprite_bit,
    sprite_collides, sprite_covers, wrapped_difference, wrapped_sum,
};
use crate::state::{
    MachineState, GLYPH_SIZE, NUM_KEYS, NUM_REGS, RAM_SIZE, SCREEN_HEIGHT, SCREEN_SIZE,
    SCREEN_WIDTH,
};

verus! {

/// Adds two bytes: the sum reduced to a byte, and 1 if it did not fit.
fn add_with_carry(a: u8, b: u8) -> (res: (u8, u8))
    ensures
        res.0 == wrapped_sum(a, b),
        res.1 == carry_flag(a, b),
{
    let wide: u16 = a as u16 + b as u16;
    if wide > 0xFF {
        ((wide - 0x100) as u8, 1)
    } else {
        (wide as u8, 0)
    }
}

/// Subtracts `b` from `a`: the difference reduced to a byte, and 1 if nothing
/// had to be borrowed.
fn sub_with_borrow(a: u8, b: u8) -> (res: (u8, u8))
    ensures
        res.0 == wrapped_difference(a, b),
        res.1 == no_borrow_flag(a, b),
{
    if a >= b {
        (a - b, 1)
    } else {
        ((0x100 - (b - a) as u16) as u8, 0)
    }
}

/// Tests the bit of `row_bits` that is drawn in column `col` of a sprite.
fn sprite_bit_at(row_bits: u8, col: usize) -> (set: bool)
    requires
        col < 8,
    ensures
        set == sprite_bit(row_bits, col as int),
{
    let shift: u8 = col as u8;
    let mask: u8 = 0x80u8 >> shift;
    let set: bool = row_bits & mask != 0;
    assert(shift == 0 ==> set == ((row_bits / 128) % 2 == 1)) by (bit_vector)
        requires
            set == (row_bits & (0x80u8 >> shift) != 0),
    ;
    assert(shift == 1 ==> set == ((row_bits / 64) % 2 == 1)) by (bit_vector)
        requires
            set == (row_bits & (0x80u8 >> shift) != 0),
    ;
    assert(shift == 2 ==> set == ((row_bits / 32) % 2 == 1)) by (bit_vector)
        requires
            set == (row_bits & (0x80u8 >> shift) != 0),
    ;
    assert(shift == 3 ==> set == ((row_bits / 16) % 2 == 1)) by (bit_vector)
        requires
            set == (row_bits & (0x80u8 >> shift) != 0),
    ;
    assert(shift == 4 ==> set == ((row_bits / 8) % 2 == 1)) by (bit_vector)
        requires
            set == (row_bits & (0x80u8 >> shift) != 0),
    ;
    assert(shift == 5 ==> set == ((row_bits / 4) % 2 == 1)) by (bit_vector)
        requires
            set == (row_bits & (0x80u8 >> shift) != 0),
    ;
    assert(shift == 6 ==> set == ((row_bits / 2) % 2 == 1)) by (bit_vector)
        requires
            set == (row_bits & (0x80u8 >> shift) != 0),
    ;
    assert(shift == 7 ==> set == ((row_bits / 1) % 2 == 1)) by (bit_vector)
        requires
            set == (row_bits & (0x80u8 >> shift) != 0),
    ;
    set
}

/// Whether the sprite has a set pixel on the display pixel `p` in one of its
/// first `rows_done` rows, or in the first `cols_done` columns of the row
/// after them.
spec fn covered_so_far(
    s: MachineState,
    x0: u8,
    y0: u8,
    rows_done: int,
    cols_done: int,
    p: int,
) -> bool {
    let col = (p % 64 - x0) % 64;
    let row = (p / 64 - y0) % 32;
    (row < rows_done || (row == rows_done && col < cols_done)) && sprite_bit(
        s.memory[s.index + row],
        col,
    )
}

/// The display pixel on which column `col` of row `row` of a sprite falls is
/// the only one whose place in the sprite is that column and row.
proof fn lemma_pixel_of_sprite_bit(x0: u8, y0: u8, row: int, col: int, p: int)
    requires
        0 <= row < 32,
        0 <= col < 64,
        0 <= p < 2048,
    ensures
        ((p % 64 - x0) % 64 == col && (p / 64 - y0) % 32 == row) <==> p == (x0 + col) % 64 + 64 * ((
        y0 + row) % 32),
{
}

/// The lowest pressed key is the key `k` if `k` is pressed and no key below
/// it is.
proof fn lemma_lowest_pressed_is(keys: Seq<bool>, k: int)
    requires
        is_lowest_pressed(keys, k),
    ensures
        any_pressed(keys),
        lowest_pressed(keys) == k,
{
}

impl Emulator {
    /// Sets register `x` to `value`.
    fn set_reg(&mut self, x: u8, value: u8)
        requires
            x < NUM_REGS,
        ensures
            final(self)@ == old(self)@.with_reg(x, value),
    {
        proof {
            use_type_invariant(&*self);
        }
        self.v_regs[x as usize] = value;
    }

    /// Moves the counter past one more instruction if `condition` holds.
    fn skip_if(&mut self, condition: bool)
        requires
            old(self)@.pc <= 0xFFFD,
        ensures
            final(self)@ == old(self)@.skip_if(condition),
    {
        proof {
            use_type_invariant(&*self);
        }
        if condition {
            self.pc += 2;
        }
    }

    /// Draws the `n`-row sprite at the index register at column `VX`, row
    /// `VY`, and leaves in `VF` whether a lit pixel was switched off.
    fn draw_sprite(&mut self, x: u8, y: u8, n: u8) -> (res: Result<(), Chip8Error>)
        requires
            x < NUM_REGS,
            y < NUM_REGS,
            n < 16,
        ensures
            match execute_spec(old(self)@, Instruction::Draw { x, y, n }, 0) {
                Ok(next) => res == Ok::<(), Chip8Error>(()) && final(self)@ == next,
                Err(e) => res == Err::<(), Chip8Error>(e) && final(self)@ == old(self)@,
            },
    {
        proof {
            use_type_invariant(&*self);
        }
        let base: usize = self.i_reg as usize;
        let rows: usize = n as usize;
        if rows > 0 && base + rows > RAM_SIZE {
            return Err(Chip8Error::MemoryOutOfBounds);
        }
        let x0: u8 = self.v_regs[x as usize];
        let y0: u8 = self.v_regs[y as usize];
        let ghost before = self@;
        let mut collided: bool = false;
        let mut row: usize = 0;
        while row < rows
            invariant
                row <= rows,
                rows == n,
                n < 16,
                base == before.index,
                rows > 0 ==> base + rows <= RAM_SIZE,
                self.sp <= 16,
                self@ == (MachineState { display: self.screen@, ..before }),
                forall|p: int|
                    0 <= p < SCREEN_SIZE ==> self.screen@[p] == (before.display[p]
                        != covered_so_far(before, x0, y0, row as int, 0, p)),
                collided <==> exists|p: int|
                    0 <= p < SCREEN_SIZE && before.display[p] && #[trigger] covered_so_far(
                        before,
                        x0,
                        y0,
                        row as int,
                        0,
                        p,
                    ),
            decreases rows - row,
        {
            let row_bits: u8 = self.ram[base + row];
            let mut col: usize = 0;
            while col < 8
                invariant
                    col <= 8,
                    row < rows,
                    rows == n,
                    n < 16,
                    base == before.index,
                    base + rows <= RAM_SIZE,
                    self.sp <= 16,
                    row_bits == before.memory[base + row],
                    self@ == (MachineState { display: self.screen@, ..before }),
                    forall|p: int|
                        0 <= p < SCREEN_SIZE ==> self.screen@[p] == (before.display[p]
                            != covered_so_far(before, x0, y0, row as int, col as int, p)),
                    collided <==> exists|p: int|
                        0 <= p < SCREEN_SIZE && before.display[p] && #[trigger] covered_so_far(
                            before,
                            x0,
                            y0,
                            row as int,
                            col as int,
                            p,
                        ),
                decreases 8 - col,
            {
                let set: bool = sprite_bit_at(row_bits, col);
                let cx: usize = (x0 as usize + col) % SCREEN_WIDTH;
                let cy: usize = (y0 as usize + row) % SCREEN_HEIGHT;
                let idx: usize = cx + SCREEN_WIDTH * cy;
                let ghost was_collided = collided;
                let ghost screen_before = self.screen@;
                if set {
                    if self.screen[idx] {
                        collided = true;
                    }
                    self.screen[idx] = !self.screen[idx];
                }
                proof {
                    // With one more column done, the sprite covers what it
                    // covered before and, if the bit is set, the pixel `idx`.
                    assert forall|p: int| 0 <= p < SCREEN_SIZE implies #[trigger] covered_so_far(
                        before,
                        x0,
                        y0,
                        row as int,
                        col + 1,
                        p,
                    ) == (covered_so_far(before, x0, y0, row as int, col as int, p) || (p == idx
                        && set)) by {
                        lemma_pixel_of_sprite_bit(x0, y0, row as int, col as int, p);
                    }
                    assert(screen_before[idx as int] == before.display[idx as int]);
                    // An earlier collision keeps its pixel; a new one is at
                    // `idx`.
                    if collided {
                        if was_collided {
                            let w = choose|p: int|
                                0 <= p < SCREEN_SIZE && before.display[p]
                                    && #[trigger] covered_so_far(
                                    before,
                                    x0,
                                    y0,
                                    row as int,
                                    col as int,
                                    p,
                                );
                            assert(covered_so_far(before, x0, y0, row as int, col + 1, w));
                        } else {
                            assert(covered_so_far(before, x0, y0, row as int, col + 1, idx as int));
                        }
                    }
                }
                col += 1;
            }
            proof {
                // All columns of this row done is none of the next row done.
                if collided {
                    let w = choose|p: int|
                        0 <= p < SCREEN_SIZE && before.display[p] && #[trigger] covered_so_far(
                            before,
                            x0,
                            y0,
                            row as int,
                            8,
                            p,
                        );
                    assert(covered_so_far(before, x0, y0, row + 1, 0, w));
                }
            }
            row += 1;
        }
        proof {
            if collided {
                let w = choose|p: int|
                    0 <= p < SCREEN_SIZE && before.display[p] && #[trigger] covered_so_far(
                        before,
                        x0,
                        y0,
                        n as int,
                        0,
                        p,
                    );
                assert(sprite_covers(before, x0, y0, n, w));
            }
        }
        self.set_reg(
            0xF,
            if collided {
                1
            } else {
                0
            },
        );
        Ok(())
    }

    /// Puts the index of the lowest pressed key into register `x`, or, if no
    /// key is pressed, moves the counter back onto the instruction.
    fn wait_key(&mut self, x: u8)
        requires
            x < NUM_REGS,
            old(self)@.pc >= 2,
        ensures
            execute_spec(old(self)@, Instruction::WaitKey { x }, 0) == Ok::<
                MachineState,
                Chip8Error,
            >(final(self)@),
    {
        proof {
            use_type_invariant(&*self);
        }
        let mut k: usize = 0;
        while k < NUM_KEYS
            invariant
                k <= NUM_KEYS,
                x < NUM_REGS,
                *self == *old(self),
                forall|j: int| 0 <= j < k ==> !self.keys@[j],
            decreases NUM_KEYS - k,
        {
            if self.keys[k] {
                proof {
                    lemma_lowest_pressed_is(self@.keys, k as int);
                }
                self.set_reg(x, k as u8);
                return;
            }
            k += 1;
        }
        self.pc -= 2;
    }

    /// Stores the decimal digits of register `x` at the index register and
    /// the two cells after it, hundreds first.
    fn store_bcd(&mut self, x: u8) -> (res: Result<(), Chip8Error>)
        requires
            x < NUM_REGS,
        ensures
            match execute_spec(old(self)@, Instruction::StoreBcd { x }, 0) {
                Ok(next) => res == Ok::<(), Chip8Error>(()) && final(self)@ == next,
                Err(e) => res == Err::<(), Chip8Error>(e) && final(self)@ == old(self)@,
            },
    {
        proof {
            use_type_invariant(&*self);
        }
        let base: usize = self.i_reg as usize;
        if base + 2 >= RAM_SIZE {
            return Err(Chip8Error::MemoryOutOfBounds);
        }
        let value: u8 = self.v_regs[x as usize];
        self.ram[base] = value / 100;
        self.ram[base + 1] = (value / 10) % 10;
        self.ram[base + 2] = value % 10;
        Ok(())
    }

    /// Stores registers `V0..=VX` at the index register and the cells after
    /// it.
    fn store_registers(&mut self, x: u8) -> (res: Result<(), Chip8Error>)
        requires
            x < NUM_REGS,
        ensures
            match execute_spec(old(self)@, Instruction::StoreRegs { x }, 0) {
                Ok(next) => res == Ok::<(), Chip8Error>(()) && final(self)@ == next,
                Err(e) => res == Err::<(), Chip8Error>(e) && final(self)@ == old(self)@,
            },
    {
        proof {
            use_type_invariant(&*self);
        }
        let base: usize = self.i_reg as usize;
        let last: usize = x as usize;
        if base + last >= RAM_SIZE {
            return Err(Chip8Error::MemoryOutOfBounds);
        }
        let mut r: usize = 0;
        while r <= last
            invariant
                r <= last + 1,
                last == x,
                x < NUM_REGS,
                base == old(self)@.index,
                base + last < RAM_SIZE,
                self.sp <= 16,
                self@ == (MachineState { memory: self.ram@, ..old(self)@ }),
                forall|a: int|
                    0 <= a < RAM_SIZE ==> self.ram@[a] == if base <= a < base + r {
                        old(self)@.registers[a - base]
                    } else {
                        old(self)@.memory[a]
                    },
            decreases last + 1 - r,
        {
            self.ram[base + r] = self.v_regs[r];
            r += 1;
        }
        Ok(())
    }

    /// Loads registers `V0..=VX` from the index register and the cells after
    /// it.
    fn load_registers(&mut self, x: u8) -> (res: Result<(), Chip8Error>)
        requires
            x < NUM_REGS,
        ensures
            match execute_spec(old(self)@, Instruction::LoadRegs { x }, 0) {
                Ok(next) => res == Ok::<(), Chip8Error>(()) && final(self)@ == next,
                Err(e) => res == Err::<(), Chip8Error>(e) && final(self)@ == old(self)@,
            },
    {
        proof {
            use_type_invariant(&*self);
        }
        let base: usize = self.i_reg as usize;
        let last: usize = x as usize;
        if base + last >= RAM_SIZE {
            return Err(Chip8Error::MemoryOutOfBounds);
        }
        let mut r: usize = 0;
        while r <= last
            invariant
                r <= last + 1,
                last == x,
                x < NUM_REGS,
                base == old(self)@.index,
                base + last < RAM_SIZE,
                self.sp <= 16,
                self@ == (MachineState { registers: self.v_regs@, ..old(self)@ }),
                forall|j: int|
                    0 <= j < NUM_REGS ==> self.v_regs@[j] == if j < r {
                        old(self)@.memory[base + j]
                    } else {
                        old(self)@.registers[j]
                    },
            decreases last + 1 - r,
        {
            self.v_regs[r] = self.ram[base + r];
            r += 1;
        }
        Ok(())
    }

    /// Executes the instruction word `word`, which was fetched from just
    /// before the counter. `random` is the byte that a `Random` instruction
    /// draws; no other instruction looks at it.
    ///
    /// An instruction that fails changes nothing. The counter must leave room
    /// for a skip forward and for the step back of a key wait, as it does
    /// after every fetch.
    pub fn execute(&mut self, word: u16, random: u8) -> (res: Result<(), Chip8Error>)
        requires
            2 <= old(self)@.pc <= 0xFFFD,
        ensures
            match execute_spec(old(self)@, decode_spec(word), random) {
                Ok(next) => res == Ok::<(), Chip8Error>(()) && final(self)@ == next,
                Err(e) => res == Err::<(), Chip8Error>(e) && final(self)@ == old(self)@,
            },
    {
        proof {
            lemma_decode_well_formed(word);
        }
        self.execute_decoded(decode(word), random)
    }

    /// Executes the decoded instruction `ins`, as `execute` does for the
    /// word that encodes it.
    pub(crate) fn execute_decoded(&mut self, ins: Instruction, random: u8) -> (res: Result<
        (),
        Chip8Error,
    >)
        requires
            ins.well_formed(),
            2 <= old(self)@.pc <= 0xFFFD,
        ensures
            match execute_spec(old(self)@, ins, random) {
                Ok(next) => res == Ok::<(), Chip8Error>(()) && final(self)@ == next,
                Err(e) => res == Err::<(), Chip8Error>(e) && final(self)@ == old(self)@,
            },
    {
        proof {
            use_type_invariant(&*self);
        }
        match ins {
            Instruction::Nop | Instruction::Unknown => Ok(()),
            Instruction::ClearScreen => {
                self.screen = [false; SCREEN_SIZE];
                Ok(())
            },
            Instruction::Return => {
                match self.pop() {
                    Ok(addr) => {
                        proof {
                            use_type_invariant(&*self);
                        }
                        self.pc = addr;
                        Ok(())
                    },
                    Err(e) => Err(e),
                }
            },
            Instruction::Jump { addr } => {
                self.pc = addr;
                Ok(())
            },
            Instruction::Call { addr } => {
                match self.push(self.pc) {
                    Ok(()) => {
                        proof {
                            use_type_invariant(&*self);
                        }
                        self.pc = addr;
                        Ok(())
                    },
                    Err(e) => Err(e),
                }
            },
            Instruction::SkipEqImm { x, kk } => {
                self.skip_if(self.v_regs[x as usize] == kk);
                Ok(())
            },
            Instruction::SkipNeImm { x, kk } => {
                self.skip_if(self.v_regs[x as usize] != kk);
                Ok(())
            },
            Instruction::SkipEqReg { x, y } => {
                self.skip_if(self.v_regs[x as usize] == self.v_regs[y as usize]);
                Ok(())
            },
            Instruction::SkipNeReg { x, y } => {
                self.skip_if(self.v_regs[x as usize] != self.v_regs[y as usize]);
                Ok(())
            },
            Instruction::LoadImm { x, kk } => {
                self.set_reg(x, kk);
                Ok(())
            },
            Instruction::AddImm { x, kk } => {
                let (sum, carry) = add_with_carry(self.v_regs[x as usize], kk);
                self.set_reg(x, sum);
                self.set_reg(0xF, carry);
                Ok(())
            },
            Instruction::Move { x, y } => {
                self.set_reg(x, self.v_regs[y as usize]);
                Ok(())
            },
            Instruction::Or { x, y } => {
                self.set_reg(x, self.v_regs[x as usize] | self.v_regs[y as usize]);
                Ok(())
            },
            Instruction::And { x, y } => {
                self.set_reg(x, self.v_regs[x as usize] & self.v_regs[y as usize]);
                Ok(())
            },
            Instruction::Xor { x, y } => {
                self.set_reg(x, self.v_regs[x as usize] ^ self.v_regs[y as usize]);
                Ok(())
            },
            Instruction::AddReg { x, y } => {
                let (sum, carry) = add_with_carry(self.v_regs[x as usize], self.v_regs[y as usize]);
                self.set_reg(x, sum);
                self.set_reg(0xF, carry);
                Ok(())
            },
            Instruction::SubReg { x, y } => {
                let (difference, flag) = sub_with_borrow(
                    self.v_regs[x as usize],
                    self.v_regs[y as usize],
                );
                self.set_reg(x, difference);
                self.set_reg(0xF, flag);
                Ok(())
            },
            Instruction::SubFrom { x, y } => {
                let (difference, flag) = sub_with_borrow(
                    self.v_regs[y as usize],
                    self.v_regs[x as usize],
                );
                self.set_reg(x, difference);
                self.set_reg(0xF, flag);
                Ok(())
            },
            Instruction::ShiftRight { x } => {
                let value: u8 = self.v_regs[x as usize];
                let low_bit: u8 = value & 1;
                assert(low_bit == value % 2) by (bit_vector)
                    requires
                        low_bit == value & 1,
                ;
                self.set_reg(0xF, low_bit);
                let current: u8 = self.v_regs[x as usize];
                let shifted: u8 = current >> 1;
                assert(shifted == current / 2) by (bit_vector)
                    requires
                        shifted == current >> 1,
                ;
                self.set_reg(x, shifted);
                Ok(())
            },
            Instruction::ShiftLeft { x } => {
                let value: u8 = self.v_regs[x as usize];
                self.set_reg(0xF, value & 0x08);
                let current: u8 = self.v_regs[x as usize];
                let shifted: u8 = current << 1;
                assert(shifted == (current * 2) % 256) by (bit_vector)
                    requires
                        shifted == current << 1,
                ;
                self.set_reg(x, shifted);
                Ok(())
            },
            Instruction::LoadIndex { addr } => {
                self.i_reg = addr;
                Ok(())
            },
            Instruction::JumpOffset { addr } => {
                self.pc = self.v_regs[0] as u16 + addr;
                Ok(())
            },
            Instruction::Random { x, kk } => {
                self.set_reg(x, random & kk);
                Ok(())
            },
            Instruction::Draw { x, y, n } => self.draw_sprite(x, y, n),
            Instruction::SkipKeyDown { x } => {
                let key: usize = self.v_regs[x as usize] as usize;
                if key >= NUM_KEYS {
                    Err(Chip8Error::InvalidKeyIndex)
                } else {
                    self.skip_if(self.keys[key]);
                    Ok(())
                }
            },
            Instruction::SkipKeyUp { x } => {
                let key: usize = self.v_regs[x as usize] as usize;
                if key >= NUM_KEYS {
                    Err(Chip8Error::InvalidKeyIndex)
                } else {
                    self.skip_if(!self.keys[key]);
                    Ok(())
                }
            },
            Instruction::ReadDelay { x } => {
                self.set_reg(x, self.d_timer);
                Ok(())
            },
            Instruction::WaitKey { x } => {
                self.wait_key(x);
                Ok(())
            },
            Instruction::SetDelay { x } => {
                self.d_timer = self.v_regs[x as usize];
                Ok(())
            },
            Instruction::SetSound { x } => {
                self.s_timer = self.v_regs[x as usize];
                Ok(())
            },
            Instruction::AddIndex { x } => {
                self.i_reg = self.i_reg.wrapping_add(self.v_regs[x as usize] as u16);
                Ok(())
            },
            Instruction::FontAddr { x } => {
                self.i_reg = GLYPH_SIZE * (self.v_regs[x as usize] as u16);
                Ok(())
            },
            Instruction::StoreBcd { x } => self.store_bcd(x),
            Instruction::StoreRegs { x } => self.store_registers(x),
            Instruction::LoadRegs { x } => self.load_registers(x),
        }
    }
}

} // verus!
