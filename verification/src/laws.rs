//! Properties of the machine that hold in every state, proved from its
//! semantics.

use vstd::prelude::*;
use crate::error::Chip8Error;
use crate::instruction::{decode_spec, has_opcode_pattern, lemma_decode_well_formed, Instruction};
use crate::semantics::{
    after_fetch, any_pressed, can_fetch, execute_spec, fetched_word, is_lowest_pressed,
    lowest_pressed, next_is_random, sprite_collides, sprite_covers, step_spec, tick_timers_spec,
};
use crate::state::{MachineState, NUM_KEYS, NUM_REGS, RAM_SIZE, SCREEN_SIZE};

verus! {

/// The outcome of stepping the machine once for each byte of `randoms`, in
/// order, each step drawing its byte if it needs one. The run stops at the
/// first step that fails, with the state and the error of that step.
pub open spec fn run_spec(s: MachineState, randoms: Seq<u8>) -> (MachineState, Result<
    (),
    Chip8Error,
>)
    decreases randoms.len(),
{
    if randoms.len() == 0 {
        (s, Ok(()))
    } else {
        let (next, res) = step_spec(s, randoms[0]);
        if res is Err {
            (next, res)
        } else {
            run_spec(next, randoms.drop_first())
        }
    }
}

/// The state after `n` ticks of the timers.
pub open spec fn timers_after(s: MachineState, n: nat) -> MachineState
    decreases n,
{
    if n == 0 {
        s
    } else {
        tick_timers_spec(timers_after(s, (n - 1) as nat))
    }
}

/// The value of a timer `n` ticks after it had the value `t`.
pub open spec fn decayed_by(t: u8, n: nat) -> u8 {
    if n <= t {
        (t - n) as u8
    } else {
        0
    }
}

/// A step on a word that has the shape of no instruction moves the counter
/// past the word and changes nothing else.
pub proof fn law_unknown_word_only_advances(s: MachineState, random: u8)
    requires
        can_fetch(s),
        !has_opcode_pattern(fetched_word(s)),
    ensures
        step_spec(s, random) == (MachineState { pc: (s.pc + 2) as u16, ..s }, Ok::<(), Chip8Error>(())),
        s.pc + 2 <= u16::MAX,
{
}

/// Unless the next instruction is a `Random` instruction, a step does not
/// depend on the random byte it is given.
pub proof fn law_random_byte_matters_to_random_only(s: MachineState, r1: u8, r2: u8)
    requires
        !next_is_random(s),
    ensures
        step_spec(s, r1) == step_spec(s, r2),
{
}

/// Executing an instruction on a machine leaves a machine: the sizes of
/// memory, display, registers and keypad stay, and the stack stays within
/// its bound.
pub proof fn law_execute_keeps_shape(s: MachineState, ins: Instruction, random: u8)
    requires
        s.well_formed(),
        ins.well_formed(),
    ensures
        execute_spec(s, ins, random) matches Ok(next) ==> next.well_formed(),
{
}

/// A step on a machine leaves a machine, whether it succeeds or fails.
pub proof fn law_step_keeps_shape(s: MachineState, random: u8)
    requires
        s.well_formed(),
    ensures
        step_spec(s, random).0.well_formed(),
{
    if can_fetch(s) {
        lemma_decode_well_formed(fetched_word(s));
        law_execute_keeps_shape(after_fetch(s), decode_spec(fetched_word(s)), random);
    }
}

/// Storing `V0..=VX` and loading them again from the same place restores
/// them, whatever the registers were overwritten with in between; if only
/// `V0..=VX` were overwritten (with zeros, say), all registers are as before
/// the store.
///
/// `scratch` is what the registers hold between the two instructions. The
/// block must lie inside memory, else the store fails and nothing is loaded.
pub proof fn law_store_load_round_trip(s: MachineState, x: u8, scratch: Seq<u8>, random: u8)
    requires
        s.well_formed(),
        x < NUM_REGS,
        scratch.len() == NUM_REGS,
        s.index + x < RAM_SIZE,
    ensures
        execute_spec(s, Instruction::StoreRegs { x }, random) matches Ok(stored) && execute_spec(
            MachineState { registers: scratch, ..stored },
            Instruction::LoadRegs { x },
            random,
        ) matches Ok(loaded) && {
            &&& forall|r: int| 0 <= r <= x ==> loaded.registers[r] == s.registers[r]
            &&& forall|r: int| x < r < NUM_REGS ==> loaded.registers[r] == scratch[r]
            &&& (forall|r: int| x < r < NUM_REGS ==> scratch[r] == s.registers[r])
                ==> loaded.registers == s.registers
            &&& loaded.memory == stored.memory
            &&& loaded.index == s.index
        },
{
}

/// Drawing a sprite a second time at the same place undoes the first draw:
/// the display is as it was before both. The second draw reports a collision
/// exactly if the sprite covers a pixel that was off before the first draw.
///
/// The position must not be held in `VF`, which the first draw overwrites,
/// and the sprite must lie inside memory, else the first draw fails.
pub proof fn law_draw_twice_restores_display(s: MachineState, x: u8, y: u8, n: u8, random: u8)
    requires
        s.well_formed(),
        x < 0xF,
        y < 0xF,
        n < 16,
        n > 0 ==> s.index + n <= RAM_SIZE,
    ensures
        execute_spec(s, Instruction::Draw { x, y, n }, random) matches Ok(once) && execute_spec(
            once,
            Instruction::Draw { x, y, n },
            random,
        ) matches Ok(twice) && {
            &&& twice.display == s.display
            &&& twice == (MachineState { registers: twice.registers, ..s })
            &&& twice.reg(0xF) == 1 <==> exists|p: int|
                0 <= p < SCREEN_SIZE && !s.display[p] && #[trigger] sprite_covers(
                    s,
                    s.reg(x),
                    s.reg(y),
                    n,
                    p,
                )
            &&& twice.reg(0xF) == 0 || twice.reg(0xF) == 1
        },
{
}

/// If any key is pressed, one of the pressed keys is the lowest.
pub proof fn lemma_lowest_pressed_exists(keys: Seq<bool>)
    requires
        any_pressed(keys),
    ensures
        is_lowest_pressed(keys, lowest_pressed(keys)),
{
    let w = choose|k: int| 0 <= k < keys.len() && keys[k];
    lemma_lowest_pressed_below(keys, w);
}

proof fn lemma_lowest_pressed_below(keys: Seq<bool>, w: int)
    requires
        0 <= w < keys.len(),
        keys[w],
    ensures
        exists|k: int| is_lowest_pressed(keys, k),
    decreases w,
{
    if exists|j: int| 0 <= j < w && keys[j] {
        let j = choose|j: int| 0 <= j < w && keys[j];
        lemma_lowest_pressed_below(keys, j);
    } else {
        assert(is_lowest_pressed(keys, w));
    }
}

/// While no key is pressed, a machine whose next instruction is a key wait
/// stays exactly as it is, counter included, however often it is stepped.
pub proof fn law_key_wait_stalls(s: MachineState, randoms: Seq<u8>)
    requires
        can_fetch(s),
        decode_spec(fetched_word(s)) is WaitKey,
        !any_pressed(s.keys),
    ensures
        run_spec(s, randoms) == (s, Ok::<(), Chip8Error>(())),
    decreases randoms.len(),
{
    if randoms.len() > 0 {
        law_key_wait_stalls(s, randoms.drop_first());
    }
}

/// Once a key is pressed, a step on a key wait moves the counter past the
/// instruction and puts the lowest index of a pressed key into the
/// instruction's register; nothing else changes.
pub proof fn law_key_wait_resumes(s: MachineState, random: u8)
    requires
        s.well_formed(),
        can_fetch(s),
        decode_spec(fetched_word(s)) is WaitKey,
        any_pressed(s.keys),
    ensures
        is_lowest_pressed(s.keys, lowest_pressed(s.keys)),
        0 <= lowest_pressed(s.keys) < NUM_KEYS,
        decode_spec(fetched_word(s)) matches Instruction::WaitKey { x } && step_spec(s, random) == (
            MachineState {
                pc: (s.pc + 2) as u16,
                registers: s.registers.update(x as int, lowest_pressed(s.keys) as u8),
                ..s
            },
            Ok::<(), Chip8Error>(()),
        ),
        s.pc + 2 <= u16::MAX,
{
    lemma_lowest_pressed_exists(s.keys);
}

/// After `n` ticks each timer has gone down by `n`, or to zero if it held
/// less; nothing else has changed. So a timer at zero stays at zero for
/// ever.
pub proof fn law_timers_decay(s: MachineState, n: nat)
    ensures
        timers_after(s, n) == (MachineState {
            delay_timer: decayed_by(s.delay_timer, n),
            sound_timer: decayed_by(s.sound_timer, n),
            ..s
        }),
    decreases n,
{
    if n > 0 {
        law_timers_decay(s, (n - 1) as nat);
    }
}

} // verus!
