use chip8::isa::{decode, Instr};

/// Every documented pattern decodes to its table entry.
#[test]
fn documented_patterns_decode() {
    assert_eq!(decode(0x00, 0xE0), Some(Instr::ClearScreen));
    assert_eq!(decode(0x00, 0xEE), Some(Instr::Return));
    assert_eq!(decode(0x1A, 0xBC), Some(Instr::Jump { addr: 0xABC }));
    assert_eq!(decode(0x2F, 0x01), Some(Instr::Call { addr: 0xF01 }));
    assert_eq!(decode(0x31, 0x42), Some(Instr::SkipEqImm { x: 1, nn: 0x42 }));
    assert_eq!(decode(0x4F, 0x00), Some(Instr::SkipNeImm { x: 0xF, nn: 0 }));
    assert_eq!(decode(0x51, 0x20), Some(Instr::SkipEqReg { x: 1, y: 2 }));
    assert_eq!(decode(0x6A, 0xFF), Some(Instr::SetImm { x: 0xA, nn: 0xFF }));
    assert_eq!(decode(0x70, 0x01), Some(Instr::AddImm { x: 0, nn: 1 }));
    assert_eq!(decode(0x8A, 0xB4), Some(Instr::Alu { x: 0xA, y: 0xB, op: 4 }));
    assert_eq!(decode(0x81, 0x2E), Some(Instr::Alu { x: 1, y: 2, op: 0xE }));
    assert_eq!(decode(0x93, 0x40), Some(Instr::SkipNeReg { x: 3, y: 4 }));
    assert_eq!(decode(0xA1, 0x23), Some(Instr::SetIndex { addr: 0x123 }));
    assert_eq!(decode(0xB1, 0x23), Some(Instr::JumpPlusV0 { addr: 0x123 }));
    assert_eq!(decode(0xC7, 0x0F), Some(Instr::RandomMask { x: 7, nn: 0x0F }));
    assert_eq!(decode(0xD1, 0x25), Some(Instr::Draw { x: 1, y: 2, n: 5 }));
    assert_eq!(decode(0xE1, 0x9E), Some(Instr::SkipKeyPressed { x: 1 }));
    assert_eq!(decode(0xE1, 0xA1), Some(Instr::SkipKeyNotPressed { x: 1 }));
    assert_eq!(decode(0xF1, 0x07), Some(Instr::ReadDelay { x: 1 }));
    assert_eq!(decode(0xF1, 0x0A), Some(Instr::WaitKey { x: 1 }));
    assert_eq!(decode(0xF1, 0x15), Some(Instr::SetDelay { x: 1 }));
    assert_eq!(decode(0xF1, 0x18), Some(Instr::SetSound { x: 1 }));
    assert_eq!(decode(0xF1, 0x1E), Some(Instr::AddIndex { x: 1 }));
    assert_eq!(decode(0xF1, 0x29), Some(Instr::SetIndexFont { x: 1 }));
    assert_eq!(decode(0xF1, 0x33), Some(Instr::StoreBcd { x: 1 }));
    assert_eq!(decode(0xF1, 0x55), Some(Instr::StoreRegs { x: 1 }));
    assert_eq!(decode(0xF1, 0x65), Some(Instr::LoadRegs { x: 1 }));
}

/// Patterns outside the table decode to nothing.
#[test]
fn undocumented_patterns_do_not_decode() {
    assert_eq!(decode(0x00, 0x00), None);
    assert_eq!(decode(0x01, 0x23), None); // 0NNN machine call is not in the table
    assert_eq!(decode(0x51, 0x21), None); // 5XY1
    assert_eq!(decode(0x81, 0x28), None); // ALU selector 8
    assert_eq!(decode(0x81, 0x29), None);
    assert_eq!(decode(0x93, 0x41), None); // 9XY1
    assert_eq!(decode(0xE1, 0x9F), None);
    assert_eq!(decode(0xF1, 0x00), None);
    assert_eq!(decode(0xF1, 0x66), None);
}
