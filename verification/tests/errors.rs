use chip8_core::{Chip8Error, Emulator};

#[test]
fn seventeenth_nested_call_overflows_the_stack() {
    // 0x200: CALL 0x200, for ever.
    let mut emu = Emulator::new();
    assert_eq!(emu.load(&[0x22, 0x00]), Ok(()));
    for depth in 1..=16 {
        assert_eq!(emu.tick(), Ok(()));
        assert_eq!(emu.stack_depth(), depth);
        assert_eq!(emu.pc(), 0x200);
    }
    assert_eq!(emu.tick(), Err(Chip8Error::StackOverflow));
    assert_eq!(emu.stack_depth(), 16);
    assert_eq!(emu.pc(), 0x202);
    assert_eq!(emu.pop(), Ok(0x202));
}

#[test]
fn return_without_a_call_underflows_the_stack() {
    let mut emu = Emulator::new();
    assert_eq!(emu.load(&[0x00, 0xEE]), Ok(()));
    assert_eq!(emu.tick(), Err(Chip8Error::StackUnderflow));
    assert_eq!(emu.pc(), 0x202);
    assert_eq!(emu.stack_depth(), 0);
}

#[test]
fn bcd_beyond_memory_is_out_of_bounds() {
    let mut emu = Emulator::new();
    // LD I, 0xFFE; LD B, V0
    assert_eq!(emu.load(&[0xAF, 0xFE, 0xF0, 0x33]), Ok(()));
    assert_eq!(emu.tick(), Ok(()));
    assert_eq!(emu.tick(), Err(Chip8Error::MemoryOutOfBounds));
    assert_eq!(&emu.memory()[0xFFE..], &[0, 0][..]);
}

#[test]
fn block_store_beyond_memory_is_out_of_bounds_and_writes_nothing() {
    let mut emu = Emulator::new();
    // LD V0, 0xAA; LD V1, 0xBB; LD I, 0xFFF; LD [I], V1
    assert_eq!(emu.load(&[0x60, 0xAA, 0x61, 0xBB, 0xAF, 0xFF, 0xF1, 0x55]), Ok(()));
    for _ in 0..3 {
        assert_eq!(emu.tick(), Ok(()));
    }
    assert_eq!(emu.tick(), Err(Chip8Error::MemoryOutOfBounds));
    assert_eq!(emu.memory()[0xFFF], 0);
    // With X = 0 the block is the last cell alone.
    assert_eq!(emu.execute(0xF055, 0), Ok(()));
    assert_eq!(emu.memory()[0xFFF], 0xAA);
}

#[test]
fn block_load_beyond_memory_is_out_of_bounds_and_loads_nothing() {
    let mut emu = Emulator::new();
    // LD V0, 0xAA; LD V1, 0xBB; LD I, 0xFFF; LD V1, [I]
    assert_eq!(emu.load(&[0x60, 0xAA, 0x61, 0xBB, 0xAF, 0xFF, 0xF1, 0x65]), Ok(()));
    for _ in 0..3 {
        assert_eq!(emu.tick(), Ok(()));
    }
    assert_eq!(emu.tick(), Err(Chip8Error::MemoryOutOfBounds));
    assert_eq!(&emu.registers()[..2], &[0xAA, 0xBB][..]);
    assert_eq!(emu.execute(0xF065, 0), Ok(()));
    assert_eq!(&emu.registers()[..2], &[0x00, 0xBB][..]);
}

#[test]
fn draw_beyond_memory_is_out_of_bounds() {
    let mut emu = Emulator::new();
    // LD I, 0xFFE; DRW V0, V0, 3
    assert_eq!(emu.load(&[0xAF, 0xFE, 0xD0, 0x03]), Ok(()));
    assert_eq!(emu.tick(), Ok(()));
    assert_eq!(emu.tick(), Err(Chip8Error::MemoryOutOfBounds));
    assert!(emu.get_display().iter().all(|p| !*p));
    assert_eq!(emu.registers()[0xF], 0);
}

#[test]
fn key_test_with_a_register_beyond_fifteen_is_an_invalid_key() {
    let mut emu = Emulator::new();
    // LD V3, 16; SKP V3
    assert_eq!(emu.load(&[0x63, 0x10, 0xE3, 0x9E]), Ok(()));
    assert_eq!(emu.tick(), Ok(()));
    assert_eq!(emu.tick(), Err(Chip8Error::InvalidKeyIndex));
    assert_eq!(emu.pc(), 0x204);
    // LD V3, 255; SKNP V3
    assert_eq!(emu.execute(0x63FF, 0), Ok(()));
    assert_eq!(emu.execute(0xE3A1, 0), Err(Chip8Error::InvalidKeyIndex));
    assert_eq!(emu.pc(), 0x204);
    // LD V3, 15; SKNP V3
    assert_eq!(emu.execute(0x630F, 0), Ok(()));
    assert_eq!(emu.execute(0xE3A1, 0), Ok(()));
    assert_eq!(emu.pc(), 0x206);
}

#[test]
fn running_off_the_end_of_memory_is_out_of_bounds() {
    let mut emu = Emulator::new();
    // JP 0xFFE; the word there is a NOP, and then memory ends.
    assert_eq!(emu.load(&[0x1F, 0xFE]), Ok(()));
    assert_eq!(emu.tick(), Ok(()));
    assert_eq!(emu.tick(), Ok(()));
    assert_eq!(emu.pc(), 0x1000);
    assert_eq!(emu.tick(), Err(Chip8Error::MemoryOutOfBounds));
    assert_eq!(emu.tick_with(3), Err(Chip8Error::MemoryOutOfBounds));
    assert_eq!(emu.pc(), 0x1000);
}

#[test]
fn a_machine_goes_on_after_an_error() {
    let mut emu = Emulator::new();
    // RET; LD V0, 9
    assert_eq!(emu.load(&[0x00, 0xEE, 0x60, 0x09]), Ok(()));
    assert_eq!(emu.tick(), Err(Chip8Error::StackUnderflow));
    assert_eq!(emu.tick(), Ok(()));
    assert_eq!(emu.registers()[0], 9);
}

#[test]
fn errors_compare_and_copy() {
    let e = Chip8Error::ImageTooLarge;
    let f = e;
    assert_eq!(e, f);
    assert_ne!(Chip8Error::StackOverflow, Chip8Error::StackUnderflow);
    assert_ne!(Chip8Error::MemoryOutOfBounds, Chip8Error::InvalidKeyIndex);
    assert_eq!(format!("{:?}", Chip8Error::InvalidKeyIndex), "InvalidKeyIndex");
}
