use chip8::display::Display;
use chip8::processor::{Chip8Error, Processor, ProcessorState};

fn fresh() -> (Processor, Display, [bool; 16]) {
    (Processor::default(), Display::new(), [false; 16])
}

fn load(p: &mut Processor, rom: &[u8]) {
    p.load_rom(rom).expect("ROM fits in memory");
}

/// A nibble pattern outside the opcode table reports the nibbles and the
/// address of the offending word.
#[test]
fn undocumented_opcode_is_a_decode_error() {
    let (mut p, mut d, keys) = fresh();
    load(&mut p, &[0x00, 0x00]);
    assert_eq!(
        p.next(&keys, &mut d),
        Err(Chip8Error::UnknownOpcode { a: 0, b: 0, c: 0, d: 0, at: 512 })
    );
    // 5XY1 is not in the table (only 5XY0 is).
    let (mut p2, mut d2, _) = fresh();
    load(&mut p2, &[0x5A, 0xB1]);
    assert_eq!(
        p2.next(&keys, &mut d2),
        Err(Chip8Error::UnknownOpcode { a: 5, b: 0xA, c: 0xB, d: 1, at: 512 })
    );
    // 8XY8 names no ALU operation.
    let (mut p3, mut d3, _) = fresh();
    load(&mut p3, &[0x81, 0x28]);
    assert_eq!(
        p3.next(&keys, &mut d3),
        Err(Chip8Error::UnknownOpcode { a: 8, b: 1, c: 2, d: 8, at: 512 })
    );
}

/// A `RETURN` with an empty stack is reported, not executed.
#[test]
fn return_on_empty_stack_underflows() {
    let (mut p, mut d, keys) = fresh();
    load(&mut p, &[0x00, 0xEE]);
    assert_eq!(p.next(&keys, &mut d), Err(Chip8Error::StackUnderflow { at: 512 }));
    assert_eq!(p.pc(), 512);
    assert_eq!(p.sp(), 0);
}

/// The seventeenth nested `CALL` overflows the sixteen-slot stack.
#[test]
fn seventeenth_call_overflows_the_stack() {
    let (mut p, mut d, keys) = fresh();
    // A call that targets itself nests one level per cycle.
    load(&mut p, &[0x22, 0x00]);
    for _ in 0..16 {
        assert_eq!(p.next(&keys, &mut d), Ok(ProcessorState::Continue));
    }
    assert_eq!(p.sp(), 16);
    assert_eq!(p.next(&keys, &mut d), Err(Chip8Error::StackOverflow { at: 512 }));
    assert_eq!(p.sp(), 16);
}

/// Running the program counter off the end of memory fails at the fetch.
#[test]
fn fetch_past_the_end_of_memory_is_reported() {
    let (mut p, mut d, keys) = fresh();
    load(&mut p, &[0x1F, 0xFF]);
    assert_eq!(p.next(&keys, &mut d), Ok(ProcessorState::Continue));
    assert_eq!(p.pc(), 4095);
    assert_eq!(p.next(&keys, &mut d), Err(Chip8Error::AddressOutOfRange { at: 4095 }));
    assert_eq!(p.pc(), 4095);
}

/// `FX1E` may park the index register one past the end of memory but not
/// beyond it.
#[test]
fn index_increment_stops_at_the_end_of_memory() {
    let (mut p, mut d, keys) = fresh();
    // I := 0xFFF ; V0 := 1 ; I += V0 ; I += V0
    load(&mut p, &[0xAF, 0xFF, 0x60, 0x01, 0xF0, 0x1E, 0xF0, 0x1E]);
    for _ in 0..3 {
        assert_eq!(p.next(&keys, &mut d), Ok(ProcessorState::Continue));
    }
    assert_eq!(p.mem_addr_register(), 4096);
    assert_eq!(p.next(&keys, &mut d), Err(Chip8Error::AddressOutOfRange { at: 518 }));
    assert_eq!(p.mem_addr_register(), 4096);
}

/// A BCD store needs three bytes of room below the end of memory.
#[test]
fn bcd_store_past_the_end_of_memory_is_reported() {
    let (mut p, mut d, keys) = fresh();
    // I := 0xFFE ; store BCD of V0
    load(&mut p, &[0xAF, 0xFE, 0xF0, 0x33]);
    p.next(&keys, &mut d).unwrap();
    assert_eq!(p.next(&keys, &mut d), Err(Chip8Error::AddressOutOfRange { at: 514 }));
}

/// A sprite read past the end of memory is reported before anything is
/// drawn.
#[test]
fn sprite_read_past_the_end_of_memory_is_reported() {
    let (mut p, mut d, keys) = fresh();
    // I := 0xFFF ; draw 2 rows at (V0, V0)
    load(&mut p, &[0xAF, 0xFF, 0xD0, 0x02]);
    p.next(&keys, &mut d).unwrap();
    assert_eq!(p.next(&keys, &mut d), Err(Chip8Error::AddressOutOfRange { at: 514 }));
    for y in 0..32 {
        for x in 0..64 {
            assert_eq!(d.pixel(x, y), 0);
        }
    }
}

/// A register-block store past the end of memory is reported and nothing is
/// written.
#[test]
fn register_store_past_the_end_of_memory_is_reported() {
    let (mut p, mut d, keys) = fresh();
    // I := 0xFFE ; store V0..=V2
    load(&mut p, &[0xAF, 0xFE, 0xF2, 0x55]);
    p.next(&keys, &mut d).unwrap();
    assert_eq!(p.next(&keys, &mut d), Err(Chip8Error::AddressOutOfRange { at: 514 }));
    assert_eq!(p.load_word(4094), 0);
    assert_eq!(p.mem_addr_register(), 0xFFE);
}

/// A keypad test against a register value above 15 names no key.
#[test]
fn key_test_above_fifteen_is_reported() {
    let (mut p, mut d, keys) = fresh();
    // V0 := 16 ; skip if key V0 pressed
    load(&mut p, &[0x60, 0x10, 0xE0, 0x9E]);
    p.next(&keys, &mut d).unwrap();
    assert_eq!(p.next(&keys, &mut d), Err(Chip8Error::KeyOutOfRange { at: 514 }));
    assert_eq!(p.pc(), 514);
}
