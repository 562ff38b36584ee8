use chip8_core::{Chip8Error, Emulator, SCREEN_HEIGHT, SCREEN_WIDTH};

const FONT: [u8; 80] = [
    0xF0, 0x90, 0x90, 0x90, 0xF0, 0x20, 0x60, 0x20, 0x20, 0x70, 0xF0, 0x10, 0xF0, 0x80, 0xF0, 0xF0,
    0x10, 0xF0, 0x10, 0xF0, 0x90, 0x90, 0xF0, 0x10, 0x10, 0xF0, 0x80, 0xF0, 0x10, 0xF0, 0xF0, 0x80,
    0xF0, 0x90, 0xF0, 0xF0, 0x10, 0x20, 0x40, 0x40, 0xF0, 0x90, 0xF0, 0x90, 0xF0, 0xF0, 0x90, 0xF0,
    0x10, 0xF0, 0xF0, 0x90, 0xF0, 0x90, 0x90, 0xE0, 0x90, 0xE0, 0x90, 0xE0, 0xF0, 0x80, 0x80, 0x80,
    0xF0, 0xE0, 0x90, 0x90, 0x90, 0xE0, 0xF0, 0x80, 0xF0, 0x80, 0xF0, 0xF0, 0x80, 0xF0, 0x80, 0x80,
];

fn assert_initial(emu: &Emulator) {
    assert_eq!(emu.pc(), 0x200);
    assert_eq!(emu.index(), 0);
    assert_eq!(emu.stack_depth(), 0);
    assert_eq!(emu.delay_timer(), 0);
    assert_eq!(emu.sound_timer(), 0);
    assert_eq!(emu.registers(), &[0u8; 16][..]);
    assert_eq!(emu.keys(), &[false; 16][..]);
    assert_eq!(emu.memory().len(), 4096);
    assert_eq!(&emu.memory()[..80], &FONT[..]);
    assert!(emu.memory()[80..].iter().all(|b| *b == 0));
    assert_eq!(emu.get_display().len(), 2048);
    assert!(emu.get_display().iter().all(|p| !*p));
}

#[test]
fn screen_is_64_by_32() {
    assert_eq!(SCREEN_WIDTH, 64);
    assert_eq!(SCREEN_HEIGHT, 32);
    assert_eq!(Emulator::new().get_display().len(), SCREEN_WIDTH * SCREEN_HEIGHT);
}

#[test]
fn new_machine_is_in_the_initial_state() {
    let emu = Emulator::new();
    assert_initial(&emu);
}

#[test]
fn font_glyphs_sit_at_five_times_the_digit() {
    let emu = Emulator::new();
    assert_eq!(&emu.memory()[0..5], &[0xF0, 0x90, 0x90, 0x90, 0xF0][..]);
    assert_eq!(&emu.memory()[5..10], &[0x20, 0x60, 0x20, 0x20, 0x70][..]);
    assert_eq!(&emu.memory()[50..55], &[0xF0, 0x90, 0xF0, 0x90, 0x90][..]);
    assert_eq!(&emu.memory()[75..80], &[0xF0, 0x80, 0xF0, 0x80, 0x80][..]);
}

#[test]
fn reset_restores_the_initial_state() {
    let mut emu = Emulator::new();
    // LD V3, 0x44; LD I, 0x300; LD [I], V3; LD DT, V3; LD ST, V3; LD I, 0; DRW V0, V0, 5; CALL 0x210
    let program = [
        0x63, 0x44, 0xA3, 0x00, 0xF3, 0x55, 0xF3, 0x15, 0xF3, 0x18, 0xA0, 0x00, 0xD0, 0x05, 0x22,
        0x10,
    ];
    assert_eq!(emu.load(&program), Ok(()));
    for _ in 0..8 {
        assert_eq!(emu.tick_with(0), Ok(()));
    }
    assert_eq!(emu.keypress(7, true), Ok(()));
    assert_eq!(emu.pc(), 0x210);
    assert_eq!(emu.stack_depth(), 1);
    assert_eq!(emu.delay_timer(), 0x44);
    assert!(emu.get_display().iter().any(|p| *p));
    emu.reset();
    assert_initial(&emu);
}

#[test]
fn load_copies_the_image_to_0x200() {
    let mut emu = Emulator::new();
    assert_eq!(emu.load(&[0x12, 0x34, 0x56]), Ok(()));
    assert_eq!(&emu.memory()[0x200..0x204], &[0x12, 0x34, 0x56, 0x00][..]);
    assert_eq!(&emu.memory()[..80], &FONT[..]);
    assert!(emu.memory()[80..0x200].iter().all(|b| *b == 0));
    assert_eq!(emu.pc(), 0x200);
}

#[test]
fn load_of_an_empty_image_changes_nothing() {
    let mut emu = Emulator::new();
    assert_eq!(emu.load(&[]), Ok(()));
    assert_initial(&emu);
}

#[test]
fn load_overwrites_only_the_length_of_the_image() {
    let mut emu = Emulator::new();
    assert_eq!(emu.load(&[1, 2, 3, 4]), Ok(()));
    assert_eq!(emu.load(&[9, 8]), Ok(()));
    assert_eq!(&emu.memory()[0x200..0x205], &[9, 8, 3, 4, 0][..]);
}

#[test]
fn load_accepts_an_image_that_fills_memory() {
    let mut emu = Emulator::new();
    let image = vec![0xAB; 3584];
    assert_eq!(emu.load(&image), Ok(()));
    assert_eq!(emu.memory()[0x200], 0xAB);
    assert_eq!(emu.memory()[0xFFF], 0xAB);
    assert_eq!(emu.memory()[0x1FF], 0x00);
}

#[test]
fn load_rejects_an_image_that_is_too_large_and_writes_nothing() {
    let mut emu = Emulator::new();
    let image = vec![0xAB; 3585];
    assert_eq!(emu.load(&image), Err(Chip8Error::ImageTooLarge));
    assert_initial(&emu);
}

#[test]
fn push_and_pop_are_last_in_first_out() {
    let mut emu = Emulator::new();
    assert_eq!(emu.push(0x111), Ok(()));
    assert_eq!(emu.push(0x222), Ok(()));
    assert_eq!(emu.push(0xFFFF), Ok(()));
    assert_eq!(emu.stack_depth(), 3);
    assert_eq!(emu.pop(), Ok(0xFFFF));
    assert_eq!(emu.pop(), Ok(0x222));
    assert_eq!(emu.push(0x333), Ok(()));
    assert_eq!(emu.pop(), Ok(0x333));
    assert_eq!(emu.pop(), Ok(0x111));
    assert_eq!(emu.stack_depth(), 0);
}

#[test]
fn push_fails_on_a_full_stack() {
    let mut emu = Emulator::new();
    for i in 0..16u16 {
        assert_eq!(emu.push(i), Ok(()));
    }
    assert_eq!(emu.stack_depth(), 16);
    assert_eq!(emu.push(99), Err(Chip8Error::StackOverflow));
    assert_eq!(emu.stack_depth(), 16);
    assert_eq!(emu.pop(), Ok(15));
}

#[test]
fn pop_fails_on_an_empty_stack() {
    let mut emu = Emulator::new();
    assert_eq!(emu.pop(), Err(Chip8Error::StackUnderflow));
    assert_eq!(emu.stack_depth(), 0);
    assert_eq!(emu.push(5), Ok(()));
    assert_eq!(emu.pop(), Ok(5));
    assert_eq!(emu.pop(), Err(Chip8Error::StackUnderflow));
}

#[test]
fn keypress_sets_and_clears_one_key() {
    let mut emu = Emulator::new();
    assert_eq!(emu.keypress(0, true), Ok(()));
    assert_eq!(emu.keypress(15, true), Ok(()));
    let mut expected = [false; 16];
    expected[0] = true;
    expected[15] = true;
    assert_eq!(emu.keys(), &expected[..]);
    assert_eq!(emu.keypress(0, false), Ok(()));
    expected[0] = false;
    assert_eq!(emu.keys(), &expected[..]);
}

#[test]
fn keypress_rejects_an_index_out_of_range() {
    let mut emu = Emulator::new();
    assert_eq!(emu.keypress(16, true), Err(Chip8Error::InvalidKeyIndex));
    assert_eq!(emu.keypress(usize::MAX, true), Err(Chip8Error::InvalidKeyIndex));
    assert_eq!(emu.keys(), &[false; 16][..]);
}

#[test]
fn fetch_reads_a_big_endian_word_and_advances() {
    let mut emu = Emulator::new();
    assert_eq!(emu.load(&[0xAB, 0xCD, 0x01, 0x02]), Ok(()));
    assert_eq!(emu.fetch(), Ok(0xABCD));
    assert_eq!(emu.pc(), 0x202);
    assert_eq!(emu.fetch(), Ok(0x0102));
    assert_eq!(emu.pc(), 0x204);
}

#[test]
fn fetch_fails_when_the_word_leaves_memory() {
    let mut emu = Emulator::new();
    // JP 0xFFE, then JP 0xFFF from there.
    assert_eq!(emu.load(&[0x1F, 0xFE]), Ok(()));
    assert_eq!(emu.tick_with(0), Ok(()));
    assert_eq!(emu.pc(), 0xFFE);
    assert_eq!(emu.fetch(), Ok(0x0000));
    assert_eq!(emu.pc(), 0x1000);
    assert_eq!(emu.fetch(), Err(Chip8Error::MemoryOutOfBounds));
    assert_eq!(emu.pc(), 0x1000);
    assert_eq!(emu.execute(0x1FFF, 0), Ok(()));
    assert_eq!(emu.pc(), 0xFFF);
    assert_eq!(emu.fetch(), Err(Chip8Error::MemoryOutOfBounds));
    assert_eq!(emu.pc(), 0xFFF);
    assert_eq!(emu.tick(), Err(Chip8Error::MemoryOutOfBounds));
    assert_eq!(emu.pc(), 0xFFF);
}

#[test]
fn timers_decay_independently() {
    let mut emu = Emulator::new();
    // LD V0, 2; LD V1, 4; LD DT, V0; LD ST, V1
    assert_eq!(emu.load(&[0x60, 0x02, 0x61, 0x04, 0xF0, 0x15, 0xF1, 0x18]), Ok(()));
    for _ in 0..4 {
        assert_eq!(emu.tick_with(0), Ok(()));
    }
    assert_eq!((emu.delay_timer(), emu.sound_timer()), (2, 4));
    emu.tick_timers();
    assert_eq!((emu.delay_timer(), emu.sound_timer()), (1, 3));
    emu.tick_timers();
    assert_eq!((emu.delay_timer(), emu.sound_timer()), (0, 2));
    emu.tick_timers();
    assert_eq!((emu.delay_timer(), emu.sound_timer()), (0, 1));
    emu.tick_timers();
    assert_eq!((emu.delay_timer(), emu.sound_timer()), (0, 0));
    emu.tick_timers();
    assert_eq!((emu.delay_timer(), emu.sound_timer()), (0, 0));
    assert_eq!(emu.pc(), 0x208);
}
