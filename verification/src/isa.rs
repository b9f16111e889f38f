use vstd::prelude::*;

verus! {

/// One decoded CHIP-8 instruction.
///
/// An instruction word is two bytes, decoded by its four nibbles
/// `(a, b, c, d)` from most to least significant.  `x` and `y` name register
/// indices (always below 16, being nibbles), `nn` the low byte used as an
/// immediate, `addr` the 12-bit address operand `(b << 8) | (c << 4) | d`,
/// and `n` the sprite-height nibble of a draw.
#[derive(Clone, Copy, Debug, PartialEq, Eq, Structural)]
pub enum Instr {
    /// `00E0`: clear the framebuffer.
    ClearScreen,
    /// `00EE`: pop the call stack into the program counter.
    Return,
    /// `1addr`: jump.
    Jump { addr: u16 },
    /// `2addr`: push the return address, then jump.
    Call { addr: u16 },
    /// `3XNN`: skip the next instruction if `VX == NN`.
    SkipEqImm { x: u8, nn: u8 },
    /// `4XNN`: skip the next instruction if `VX != NN`.
    SkipNeImm { x: u8, nn: u8 },
    /// `5XY0`: skip the next instruction if `VX == VY`.
    SkipEqReg { x: u8, y: u8 },
    /// `6XNN`: `VX := NN`.
    SetImm { x: u8, nn: u8 },
    /// `7XNN`: `VX := VX + NN`, wrapping, flags untouched.
    AddImm { x: u8, nn: u8 },
    /// `8XYo`: register-register ALU operation `o`.
    Alu { x: u8, y: u8, op: u8 },
    /// `9XY0`: skip the next instruction if `VX != VY`.
    SkipNeReg { x: u8, y: u8 },
    /// `ANNN`: `I := addr`.
    SetIndex { addr: u16 },
    /// `BNNN`: jump to `addr + V0`.
    JumpPlusV0 { addr: u16 },
    /// `CXNN`: `VX := random byte & NN`.
    RandomMask { x: u8, nn: u8 },
    /// `DXYN`: draw the `n`-byte sprite at `memory[I..]` at `(VX, VY)`.
    Draw { x: u8, y: u8, n: u8 },
    /// `EX9E`: skip the next instruction if key `VX` is pressed.
    SkipKeyPressed { x: u8 },
    /// `EXA1`: skip the next instruction if key `VX` is not pressed.
    SkipKeyNotPressed { x: u8 },
    /// `FX07`: `VX := delay`.
    ReadDelay { x: u8 },
    /// `FX0A`: block until some key is pressed, then `VX := lowest key`.
    WaitKey { x: u8 },
    /// `FX15`: `delay := VX`.
    SetDelay { x: u8 },
    /// `FX18`: `sound := VX`.
    SetSound { x: u8 },
    /// `FX1E`: `I := I + VX`.
    AddIndex { x: u8 },
    /// `FX29`: `I :=` the font sprite address of digit `VX`.
    SetIndexFont { x: u8 },
    /// `FX33`: store the three decimal digits of `VX` at `memory[I..I+3]`.
    StoreBcd { x: u8 },
    /// `FX55`: store `V0..=VX` at `memory[I..]`, then `I := I + X + 1`.
    StoreRegs { x: u8 },
    /// `FX65`: load `V0..=VX` from `memory[I..]`, then `I := I + X + 1`.
    LoadRegs { x: u8 },
}

/// The decoding of the instruction word `(hi, lo)`, or `None` for a nibble
/// pattern outside the 35 documented opcodes (a fatal decode error for the
/// interpreter).  Nibbles are read arithmetically: the high nibble of a byte
/// is `byte / 16` and the low nibble `byte % 16`.
pub open spec fn spec_decode(hi: u8, lo: u8) -> Option<Instr> {
    let a = hi / 16;
    let x = hi % 16;
    let y = lo / 16;
    let d = lo % 16;
    let addr = ((hi % 16) * 256 + lo) as u16;
    match a {
        0 => if hi == 0 && lo == 0xE0 {
            Some(Instr::ClearScreen)
        } else if hi == 0 && lo == 0xEE {
            Some(Instr::Return)
        } else {
            None
        },
        1 => Some(Instr::Jump { addr }),
        2 => Some(Instr::Call { addr }),
        3 => Some(Instr::SkipEqImm { x, nn: lo }),
        4 => Some(Instr::SkipNeImm { x, nn: lo }),
        5 => if d == 0 {
            Some(Instr::SkipEqReg { x, y })
        } else {
            None
        },
        6 => Some(Instr::SetImm { x, nn: lo }),
        7 => Some(Instr::AddImm { x, nn: lo }),
        8 => if d <= 7 || d == 0xE {
            Some(Instr::Alu { x, y, op: d })
        } else {
            None
        },
        9 => if d == 0 {
            Some(Instr::SkipNeReg { x, y })
        } else {
            None
        },
        10 => Some(Instr::SetIndex { addr }),
        11 => Some(Instr::JumpPlusV0 { addr }),
        12 => Some(Instr::RandomMask { x, nn: lo }),
        13 => Some(Instr::Draw { x, y, n: d }),
        14 => if lo == 0x9E {
            Some(Instr::SkipKeyPressed { x })
        } else if lo == 0xA1 {
            Some(Instr::SkipKeyNotPressed { x })
        } else {
            None
        },
        _ => match lo {
            0x07 => Some(Instr::ReadDelay { x }),
            0x0A => Some(Instr::WaitKey { x }),
            0x15 => Some(Instr::SetDelay { x }),
            0x18 => Some(Instr::SetSound { x }),
            0x1E => Some(Instr::AddIndex { x }),
            0x29 => Some(Instr::SetIndexFont { x }),
            0x33 => Some(Instr::StoreBcd { x }),
            0x55 => Some(Instr::StoreRegs { x }),
            0x65 => Some(Instr::LoadRegs { x }),
            _ => None,
        },
    }
}

/// Bounds every decoded operand satisfies by construction: register
/// indices, nibble operands and ALU selectors are nibbles, and address
/// operands are 12-bit.
pub open spec fn operands_bounded(instr: Instr) -> bool {
    match instr {
        Instr::ClearScreen => true,
        Instr::Return => true,
        Instr::Jump { addr } => addr < 4096,
        Instr::Call { addr } => addr < 4096,
        Instr::SkipEqImm { x, nn } => x < 16,
        Instr::SkipNeImm { x, nn } => x < 16,
        Instr::SkipEqReg { x, y } => x < 16 && y < 16,
        Instr::SetImm { x, nn } => x < 16,
        Instr::AddImm { x, nn } => x < 16,
        Instr::Alu { x, y, op } => x < 16 && y < 16 && (op <= 7 || op == 14),
        Instr::SkipNeReg { x, y } => x < 16 && y < 16,
        Instr::SetIndex { addr } => addr < 4096,
        Instr::JumpPlusV0 { addr } => addr < 4096,
        Instr::RandomMask { x, nn } => x < 16,
        Instr::Draw { x, y, n } => x < 16 && y < 16 && n < 16,
        Instr::SkipKeyPressed { x } => x < 16,
        Instr::SkipKeyNotPressed { x } => x < 16,
        Instr::ReadDelay { x } => x < 16,
        Instr::WaitKey { x } => x < 16,
        Instr::SetDelay { x } => x < 16,
        Instr::SetSound { x } => x < 16,
        Instr::AddIndex { x } => x < 16,
        Instr::SetIndexFont { x } => x < 16,
        Instr::StoreBcd { x } => x < 16,
        Instr::StoreRegs { x } => x < 16,
        Instr::LoadRegs { x } => x < 16,
    }
}

/// Whatever `spec_decode` yields has bounded operands.
pub proof fn lemma_decode_operand_ranges(hi: u8, lo: u8)
    ensures
        spec_decode(hi, lo) matches Some(instr) ==> operands_bounded(instr),
{
}

/// Decode the instruction word `(hi, lo)` into the opcode table, reporting
/// `None` for an undocumented nibble pattern.
pub fn decode(hi: u8, lo: u8) -> (instr: Option<Instr>)
    ensures
        instr == spec_decode(hi, lo),
{
    let a = hi >> 4;
    let x = hi & 0x0F;
    let y = lo >> 4;
    let d = lo & 0x0F;
    let addr: u16 = ((x as u16) << 8) | (lo as u16);
    proof {
        assert(hi >> 4 == hi / 16 && hi & 0x0F == hi % 16 && lo >> 4 == lo / 16
            && lo & 0x0F == lo % 16) by (bit_vector);
        assert((((hi & 0x0F) as u16) << 8) | (lo as u16) == ((hi as u16) % 16) * 256
            + (lo as u16)) by (bit_vector);
    }
    match a {
        0x0 => if hi == 0 && lo == 0xE0 {
            Some(Instr::ClearScreen)
        } else if hi == 0 && lo == 0xEE {
            Some(Instr::Return)
        } else {
            None
        },
        0x1 => Some(Instr::Jump { addr }),
        0x2 => Some(Instr::Call { addr }),
        0x3 => Some(Instr::SkipEqImm { x, nn: lo }),
        0x4 => Some(Instr::SkipNeImm { x, nn: lo }),
        0x5 => if d == 0 {
            Some(Instr::SkipEqReg { x, y })
        } else {
            None
        },
        0x6 => Some(Instr::SetImm { x, nn: lo }),
        0x7 => Some(Instr::AddImm { x, nn: lo }),
        0x8 => if d <= 7 || d == 0xE {
            Some(Instr::Alu { x, y, op: d })
        } else {
            None
        },
        0x9 => if d == 0 {
            Some(Instr::SkipNeReg { x, y })
        } else {
            None
        },
        0xA => Some(Instr::SetIndex { addr }),
        0xB => Some(Instr::JumpPlusV0 { addr }),
        0xC => Some(Instr::RandomMask { x, nn: lo }),
        0xD => Some(Instr::Draw { x, y, n: d }),
        0xE => if lo == 0x9E {
            Some(Instr::SkipKeyPressed { x })
        } else if lo == 0xA1 {
            Some(Instr::SkipKeyNotPressed { x })
        } else {
            None
        },
        _ => match lo {
            0x07 => Some(Instr::ReadDelay { x }),
            0x0A => Some(Instr::WaitKey { x }),
            0x15 => Some(Instr::SetDelay { x }),
            0x18 => Some(Instr::SetSound { x }),
            0x1E => Some(Instr::AddIndex { x }),
            0x29 => Some(Instr::SetIndexFont { x }),
            0x33 => Some(Instr::StoreBcd { x }),
            0x55 => Some(Instr::StoreRegs { x }),
            0x65 => Some(Instr::LoadRegs { x }),
            _ => None,
        },
    }
}

} // verus!
