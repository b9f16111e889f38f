use vstd::prelude::*;

verus! {

use crate::display::Display;
use crate::display::collision_spec;
use crate::display::draw_spec;
use crate::isa::Instr;
use crate::isa::spec_decode;
use crate::isa::decode;

/// Size of the address space in bytes.
pub const MEM_SIZE: usize = 4096;

/// First address of a loaded program; everything below is reserved for the
/// font.
pub const MEM_START: usize = 512;

/// Largest ROM that fits between `MEM_START` and the end of memory.
pub const MAX_ROM_SIZE: usize = 3584;

/// The sixteen 5-byte font sprites for the hexadecimal digits, preloaded at
/// addresses 0..80.
pub const DIGIT_SPRITES: [u8; 80] = [
    0xF0, 0x90, 0x90, 0x90, 0xF0, 0x20, 0x60, 0x20, 0x20, 0x70, 0xF0, 0x10, 0xF0, 0x80, 0xF0, 0xF0,
    0x10, 0xF0, 0x10, 0xF0, 0x90, 0x90, 0xF0, 0x10, 0x10, 0xF0, 0x80, 0xF0, 0x10, 0xF0, 0xF0, 0x80,
    0xF0, 0x90, 0xF0, 0xF0, 0x10, 0x20, 0x40, 0x40, 0xF0, 0x90, 0xF0, 0x90, 0xF0, 0xF0, 0x90, 0xF0,
    0x10, 0xF0, 0xF0, 0x90, 0xF0, 0x90, 0x90, 0xE0, 0x90, 0xE0, 0x90, 0xE0, 0xF0, 0x80, 0x80, 0x80,
    0xF0, 0xE0, 0x90, 0x90, 0x90, 0xE0, 0xF0, 0x80, 0xF0, 0x80, 0xF0, 0xF0, 0x80, 0xF0, 0x80, 0x80,
];

/// Whether the interpreter may go on after a step, or must retry the same
/// instruction with a fresh keypad snapshot.
#[derive(Clone, Copy, Debug, PartialEq, Eq, Structural)]
pub enum ProcessorState {
    Continue,
    BlockForIO,
}

/// The program-counter effect an instruction computes; the step routine
/// applies it centrally.
#[derive(Clone, Copy, Debug, PartialEq, Eq, Structural)]
pub enum ProgramCounter {
    /// Fall through to the next instruction word.
    Increment,
    /// Skip one instruction word when the predicate held.
    Skip(bool),
    /// Transfer control to an absolute address.
    Jump(u16),
    /// Stay put: the instruction is blocked on input.
    Halt,
}

/// A fatal condition: an undocumented opcode, an exhausted call stack, or an
/// access that would leave the address space.  The interpreter reports these
/// explicitly instead of inheriting unchecked indexing, and leaves its whole
/// state unchanged, so the offending instruction can be diagnosed.
#[derive(Clone, Copy, Debug, PartialEq, Eq, Structural)]
pub enum Chip8Error {
    /// A ROM longer than the 3584 bytes that fit above `MEM_START`.
    RomTooLarge { size: usize },
    /// A nibble pattern outside the opcode table, with the nibbles and the
    /// address of the offending word.
    UnknownOpcode { a: u8, b: u8, c: u8, d: u8, at: usize },
    /// A `CALL` past the sixteenth stack slot.
    StackOverflow { at: usize },
    /// A `RETURN` with an empty stack.
    StackUnderflow { at: usize },
    /// A fetch or a memory operation that would run off the address space.
    AddressOutOfRange { at: usize },
    /// A keypad test against a register value that names no key.
    KeyOutOfRange { at: usize },
}

/// The interpreter state as mathematical values: memory and registers as
/// sequences, counters as integers.
#[verifier::ext_equal]
pub struct ProcView {
    pub memory: Seq<u8>,
    pub registers: Seq<u8>,
    pub index: int,
    pub delay: u8,
    pub sound: u8,
    pub pc: int,
    pub sp: int,
    pub stack: Seq<int>,
}

impl ProcView {
    /// Bounds that every reachable interpreter state satisfies: counters
    /// within the address space, the stack pointer within the sixteen slots,
    /// and every stack slot a stored return address (at most one past the
    /// end of memory, as the index register may also be).
    pub open spec fn wf(self) -> bool {
        &&& self.memory.len() == 4096
        &&& self.registers.len() == 16
        &&& self.stack.len() == 16
        &&& 0 <= self.sp <= 16
        &&& 0 <= self.pc <= 4350
        &&& 0 <= self.index <= 4096
        &&& forall|k: int| 0 <= k < 16 ==> 0 <= #[trigger] self.stack[k] <= 4096
    }
}

/// One timer step: decrement, floored at zero.
pub open spec fn tick(t: u8) -> u8 {
    if t > 0 {
        (t - 1) as u8
    } else {
        0
    }
}

/// The value an ALU operation leaves in `VX`; all results wrap to 8 bits.
pub open spec fn alu_result(vx: u8, vy: u8, op: u8) -> u8 {
    match op {
        0 => vy,
        1 => vx | vy,
        2 => vx & vy,
        3 => vx ^ vy,
        4 => ((vx + vy) % 256) as u8,
        5 => (if vx >= vy {
            vx - vy
        } else {
            vx - vy + 256
        }) as u8,
        6 => vx / 2,
        7 => (if vy >= vx {
            vy - vx
        } else {
            vy - vx + 256
        }) as u8,
        _ => ((vx * 2) % 256) as u8,
    }
}

/// The flag an ALU operation writes to `VF` before the result is stored, or
/// `None` for the four operations that leave the flags alone: carry for add,
/// not-borrow for the two subtractions, and the shifted-out bit for shifts.
pub open spec fn alu_flag(vx: u8, vy: u8, op: u8) -> Option<u8> {
    match op {
        4 => Some(if vx + vy > 255 {
            1u8
        } else {
            0u8
        }),
        5 => Some(if vx >= vy {
            1u8
        } else {
            0u8
        }),
        6 => Some(vx % 2),
        7 => Some(if vy >= vx {
            1u8
        } else {
            0u8
        }),
        14 => Some(vx / 128),
        _ => None,
    }
}

/// The register file after ALU operation `op` on registers `x` and `y`: the
/// flag is written first, then the result, so a result aimed at `VF` wins.
pub open spec fn alu_regs(regs: Seq<u8>, x: int, y: int, op: u8) -> Seq<u8> {
    let vx = regs[x];
    let vy = regs[y];
    match alu_flag(vx, vy, op) {
        Some(f) => regs.update(15, f).update(x, alu_result(vx, vy, op)),
        None => regs.update(x, alu_result(vx, vy, op)),
    }
}

/// The lowest pressed key at or after slot `i` of a sixteen-slot snapshot.
pub open spec fn first_key_from(keys: Seq<bool>, i: int) -> Option<int>
    decreases 16 - i,
{
    if i < 0 || i >= 16 {
        None
    } else if keys[i] {
        Some(i)
    } else {
        first_key_from(keys, i + 1)
    }
}

/// The lowest pressed key of a snapshot, if any: what `FX0A` delivers.
pub open spec fn first_key(keys: Seq<bool>) -> Option<int> {
    first_key_from(keys, 0)
}

/// The framebuffer with every pixel cleared.
pub open spec fn blank_fb() -> Seq<u8> {
    Seq::new(2048, |p: int| 0u8)
}

/// With no key pressed at or after slot `i`, the scan finds nothing.
proof fn lemma_first_key_from_none(keys: Seq<bool>, i: int)
    requires
        forall|j: int| i <= j < 16 ==> !keys[j],
    ensures
        first_key_from(keys, i) is None,
    decreases 16 - i,
{
    if 0 <= i < 16 {
        lemma_first_key_from_none(keys, i + 1);
    }
}

/// With slot `k` pressed and nothing below it from `i` on, the scan from
/// `i` finds exactly `k`.
proof fn lemma_first_key_from_finds(keys: Seq<bool>, i: int, k: int)
    requires
        0 <= i <= k < 16,
        keys[k],
        forall|j: int| i <= j < k ==> !keys[j],
    ensures
        first_key_from(keys, i) == Option::Some(k),
    decreases k - i,
{
    if i < k {
        lemma_first_key_from_finds(keys, i + 1, k);
    }
}

/// A snapshot with all sixteen slots false delivers no key, so `FX0A`
/// blocks, leaving state and timers untouched (the `WaitKey` case of
/// `instr_rel` with `first_key` of `None`).
pub proof fn lemma_all_released_blocks(keys: Seq<bool>)
    requires
        forall|j: int| 0 <= j < 16 ==> !keys[j],
    ensures
        first_key(keys) is None,
{
    lemma_first_key_from_none(keys, 0);
}

/// A snapshot whose lowest pressed slot is `k` delivers exactly `k`, so
/// `FX0A` writes `k` and execution goes on (the `WaitKey` case of
/// `instr_rel` with `first_key` of `Some(k)`).
pub proof fn lemma_lowest_pressed_key_delivered(keys: Seq<bool>, k: int)
    requires
        0 <= k < 16,
        keys[k],
        forall|j: int| 0 <= j < k ==> !keys[j],
    ensures
        first_key(keys) == Option::Some(k),
{
    lemma_first_key_from_finds(keys, 0, k);
}

/// What one decoded instruction does: relates the state and framebuffer
/// before (`pre`, `fb0`) and after (`post`, `fb1`) and the reported outcome
/// `r`, given the keypad snapshot `keys`.  Timers decrement once on every
/// outcome but a block; a failed instruction changes nothing.
pub open spec fn instr_rel(
    pre: ProcView,
    instr: Instr,
    keys: Seq<bool>,
    fb0: Seq<u8>,
    post: ProcView,
    fb1: Seq<u8>,
    r: Result<ProcessorState, Chip8Error>,
) -> bool {
    match instr {
        Instr::ClearScreen => {
            &&& r == Ok::<ProcessorState, Chip8Error>(ProcessorState::Continue)
            &&& fb1 == blank_fb()
            &&& post == ProcView { pc: pre.pc + 2, delay: tick(pre.delay), sound: tick(pre.sound), ..pre }
        },
        Instr::Return => {
            if pre.sp == 0 {
                &&& r == Err::<ProcessorState, Chip8Error>(Chip8Error::StackUnderflow { at: pre.pc as usize })
                &&& post == pre
                &&& fb1 == fb0
            } else {
                &&& r == Ok::<ProcessorState, Chip8Error>(ProcessorState::Continue)
                &&& fb1 == fb0
                &&& post == ProcView {
                    sp: pre.sp - 1,
                    pc: pre.stack[pre.sp - 1],
                    delay: tick(pre.delay),
                    sound: tick(pre.sound),
                    ..pre
                }
            }
        },
        Instr::Jump { addr } => {
            &&& r == Ok::<ProcessorState, Chip8Error>(ProcessorState::Continue)
            &&& fb1 == fb0
            &&& post == ProcView { pc: addr as int, delay: tick(pre.delay), sound: tick(pre.sound), ..pre }
        },
        Instr::Call { addr } => {
            if pre.sp == 16 {
                &&& r == Err::<ProcessorState, Chip8Error>(Chip8Error::StackOverflow { at: pre.pc as usize })
                &&& post == pre
                &&& fb1 == fb0
            } else {
                &&& r == Ok::<ProcessorState, Chip8Error>(ProcessorState::Continue)
                &&& fb1 == fb0
                &&& post == ProcView {
                    stack: pre.stack.update(pre.sp, pre.pc + 2),
                    sp: pre.sp + 1,
                    pc: addr as int,
                    delay: tick(pre.delay),
                    sound: tick(pre.sound),
                    ..pre
                }
            }
        },
        Instr::SkipEqImm { x, nn } => {
            &&& r == Ok::<ProcessorState, Chip8Error>(ProcessorState::Continue)
            &&& fb1 == fb0
            &&& post == ProcView {
                pc: pre.pc + (if pre.registers[x as int] == nn { 4int } else { 2int }),
                delay: tick(pre.delay),
                sound: tick(pre.sound),
                ..pre
            }
        },
        Instr::SkipNeImm { x, nn } => {
            &&& r == Ok::<ProcessorState, Chip8Error>(ProcessorState::Continue)
            &&& fb1 == fb0
            &&& post == ProcView {
                pc: pre.pc + (if pre.registers[x as int] != nn { 4int } else { 2int }),
                delay: tick(pre.delay),
                sound: tick(pre.sound),
                ..pre
            }
        },
        Instr::SkipEqReg { x, y } => {
            &&& r == Ok::<ProcessorState, Chip8Error>(ProcessorState::Continue)
            &&& fb1 == fb0
            &&& post == ProcView {
                pc: pre.pc + (if pre.registers[x as int] == pre.registers[y as int] { 4int } else { 2int }),
                delay: tick(pre.delay),
                sound: tick(pre.sound),
                ..pre
            }
        },
        Instr::SetImm { x, nn } => {
            &&& r == Ok::<ProcessorState, Chip8Error>(ProcessorState::Continue)
            &&& fb1 == fb0
            &&& post == ProcView {
                registers: pre.registers.update(x as int, nn),
                pc: pre.pc + 2,
                delay: tick(pre.delay),
                sound: tick(pre.sound),
                ..pre
            }
        },
        Instr::AddImm { x, nn } => {
            &&& r == Ok::<ProcessorState, Chip8Error>(ProcessorState::Continue)
            &&& fb1 == fb0
            &&& post == ProcView {
                registers: pre.registers.update(
                    x as int,
                    ((pre.registers[x as int] + nn) % 256) as u8,
                ),
                pc: pre.pc + 2,
                delay: tick(pre.delay),
                sound: tick(pre.sound),
                ..pre
            }
        },
        Instr::Alu { x, y, op } => {
            &&& r == Ok::<ProcessorState, Chip8Error>(ProcessorState::Continue)
            &&& fb1 == fb0
            &&& post == ProcView {
                registers: alu_regs(pre.registers, x as int, y as int, op),
                pc: pre.pc + 2,
                delay: tick(pre.delay),
                sound: tick(pre.sound),
                ..pre
            }
        },
        Instr::SkipNeReg { x, y } => {
            &&& r == Ok::<ProcessorState, Chip8Error>(ProcessorState::Continue)
            &&& fb1 == fb0
            &&& post == ProcView {
                pc: pre.pc + (if pre.registers[x as int] != pre.registers[y as int] { 4int } else { 2int }),
                delay: tick(pre.delay),
                sound: tick(pre.sound),
                ..pre
            }
        },
        Instr::SetIndex { addr } => {
            &&& r == Ok::<ProcessorState, Chip8Error>(ProcessorState::Continue)
            &&& fb1 == fb0
            &&& post == ProcView {
                index: addr as int,
                pc: pre.pc + 2,
                delay: tick(pre.delay),
                sound: tick(pre.sound),
                ..pre
            }
        },
        Instr::JumpPlusV0 { addr } => {
            &&& r == Ok::<ProcessorState, Chip8Error>(ProcessorState::Continue)
            &&& fb1 == fb0
            &&& post == ProcView {
                pc: addr + pre.registers[0],
                delay: tick(pre.delay),
                sound: tick(pre.sound),
                ..pre
            }
        },
        Instr::RandomMask { x, nn } => {
            &&& r == Ok::<ProcessorState, Chip8Error>(ProcessorState::Continue)
            &&& fb1 == fb0
            &&& exists|rnd: u8|
                post == ProcView {
                    registers: pre.registers.update(x as int, #[trigger] (rnd & nn)),
                    pc: pre.pc + 2,
                    delay: tick(pre.delay),
                    sound: tick(pre.sound),
                    ..pre
                }
        },
        Instr::Draw { x, y, n } => {
            if pre.index + n > 4096 {
                &&& r == Err::<ProcessorState, Chip8Error>(Chip8Error::AddressOutOfRange { at: pre.pc as usize })
                &&& post == pre
                &&& fb1 == fb0
            } else {
                let sprite = pre.memory.subrange(pre.index, pre.index + n);
                let vx = pre.registers[x as int] as int;
                let vy = pre.registers[y as int] as int;
                &&& r == Ok::<ProcessorState, Chip8Error>(ProcessorState::Continue)
                &&& fb1 == draw_spec(fb0, vx, vy, sprite)
                &&& post == ProcView {
                    registers: pre.registers.update(
                        15,
                        if collision_spec(fb0, vx, vy, sprite) { 1u8 } else { 0u8 },
                    ),
                    pc: pre.pc + 2,
                    delay: tick(pre.delay),
                    sound: tick(pre.sound),
                    ..pre
                }
            }
        },
        Instr::SkipKeyPressed { x } => {
            if pre.registers[x as int] >= 16 {
                &&& r == Err::<ProcessorState, Chip8Error>(Chip8Error::KeyOutOfRange { at: pre.pc as usize })
                &&& post == pre
                &&& fb1 == fb0
            } else {
                &&& r == Ok::<ProcessorState, Chip8Error>(ProcessorState::Continue)
                &&& fb1 == fb0
                &&& post == ProcView {
                    pc: pre.pc + (if keys[pre.registers[x as int] as int] { 4int } else { 2int }),
                    delay: tick(pre.delay),
                    sound: tick(pre.sound),
                    ..pre
                }
            }
        },
        Instr::SkipKeyNotPressed { x } => {
            if pre.registers[x as int] >= 16 {
                &&& r == Err::<ProcessorState, Chip8Error>(Chip8Error::KeyOutOfRange { at: pre.pc as usize })
                &&& post == pre
                &&& fb1 == fb0
            } else {
                &&& r == Ok::<ProcessorState, Chip8Error>(ProcessorState::Continue)
                &&& fb1 == fb0
                &&& post == ProcView {
                    pc: pre.pc + (if !keys[pre.registers[x as int] as int] { 4int } else { 2int }),
                    delay: tick(pre.delay),
                    sound: tick(pre.sound),
                    ..pre
                }
            }
        },
        Instr::ReadDelay { x } => {
            &&& r == Ok::<ProcessorState, Chip8Error>(ProcessorState::Continue)
            &&& fb1 == fb0
            &&& post == ProcView {
                registers: pre.registers.update(x as int, pre.delay),
                pc: pre.pc + 2,
                delay: tick(pre.delay),
                sound: tick(pre.sound),
                ..pre
            }
        },
        Instr::WaitKey { x } => {
            match first_key(keys) {
                Option::None => {
                    &&& r == Ok::<ProcessorState, Chip8Error>(ProcessorState::BlockForIO)
                    &&& post == pre
                    &&& fb1 == fb0
                },
                Option::Some(k) => {
                    &&& r == Ok::<ProcessorState, Chip8Error>(ProcessorState::Continue)
                    &&& fb1 == fb0
                    &&& post == ProcView {
                        registers: pre.registers.update(x as int, k as u8),
                        pc: pre.pc + 2,
                        delay: tick(pre.delay),
                        sound: tick(pre.sound),
                        ..pre
                    }
                },
            }
        },
        Instr::SetDelay { x } => {
            &&& r == Ok::<ProcessorState, Chip8Error>(ProcessorState::Continue)
            &&& fb1 == fb0
            &&& post == ProcView {
                delay: tick(pre.registers[x as int]),
                sound: tick(pre.sound),
                pc: pre.pc + 2,
                ..pre
            }
        },
        Instr::SetSound { x } => {
            &&& r == Ok::<ProcessorState, Chip8Error>(ProcessorState::Continue)
            &&& fb1 == fb0
            &&& post == ProcView {
                sound: tick(pre.registers[x as int]),
                delay: tick(pre.delay),
                pc: pre.pc + 2,
                ..pre
            }
        },
        Instr::AddIndex { x } => {
            if pre.index + pre.registers[x as int] > 4096 {
                &&& r == Err::<ProcessorState, Chip8Error>(Chip8Error::AddressOutOfRange { at: pre.pc as usize })
                &&& post == pre
                &&& fb1 == fb0
            } else {
                &&& r == Ok::<ProcessorState, Chip8Error>(ProcessorState::Continue)
                &&& fb1 == fb0
                &&& post == ProcView {
                    index: pre.index + pre.registers[x as int],
                    pc: pre.pc + 2,
                    delay: tick(pre.delay),
                    sound: tick(pre.sound),
                    ..pre
                }
            }
        },
        Instr::SetIndexFont { x } => {
            &&& r == Ok::<ProcessorState, Chip8Error>(ProcessorState::Continue)
            &&& fb1 == fb0
            &&& post == ProcView {
                index: 5 * pre.registers[x as int],
                pc: pre.pc + 2,
                delay: tick(pre.delay),
                sound: tick(pre.sound),
                ..pre
            }
        },
        Instr::StoreBcd { x } => {
            if pre.index + 2 > 4095 {
                &&& r == Err::<ProcessorState, Chip8Error>(Chip8Error::AddressOutOfRange { at: pre.pc as usize })
                &&& post == pre
                &&& fb1 == fb0
            } else {
                let vx = pre.registers[x as int];
                &&& r == Ok::<ProcessorState, Chip8Error>(ProcessorState::Continue)
                &&& fb1 == fb0
                &&& post == ProcView {
                    memory: pre.memory
                        .update(pre.index, vx / 100)
                        .update(pre.index + 1, (vx % 100) / 10)
                        .update(pre.index + 2, vx % 10),
                    pc: pre.pc + 2,
                    delay: tick(pre.delay),
                    sound: tick(pre.sound),
                    ..pre
                }
            }
        },
        Instr::StoreRegs { x } => {
            if pre.index + x > 4095 {
                &&& r == Err::<ProcessorState, Chip8Error>(Chip8Error::AddressOutOfRange { at: pre.pc as usize })
                &&& post == pre
                &&& fb1 == fb0
            } else {
                &&& r == Ok::<ProcessorState, Chip8Error>(ProcessorState::Continue)
                &&& fb1 == fb0
                &&& post == ProcView {
                    memory: Seq::new(4096, |k: int|
                        if pre.index <= k <= pre.index + x {
                            pre.registers[k - pre.index]
                        } else {
                            pre.memory[k]
                        }),
                    index: pre.index + x + 1,
                    pc: pre.pc + 2,
                    delay: tick(pre.delay),
                    sound: tick(pre.sound),
                    ..pre
                }
            }
        },
        Instr::LoadRegs { x } => {
            if pre.index + x > 4095 {
                &&& r == Err::<ProcessorState, Chip8Error>(Chip8Error::AddressOutOfRange { at: pre.pc as usize })
                &&& post == pre
                &&& fb1 == fb0
            } else {
                &&& r == Ok::<ProcessorState, Chip8Error>(ProcessorState::Continue)
                &&& fb1 == fb0
                &&& post == ProcView {
                    registers: Seq::new(16, |k: int|
                        if 0 <= k <= x {
                            pre.memory[pre.index + k]
                        } else {
                            pre.registers[k]
                        }),
                    index: pre.index + x + 1,
                    pc: pre.pc + 2,
                    delay: tick(pre.delay),
                    sound: tick(pre.sound),
                    ..pre
                }
            }
        },
    }
}

/// One whole fetch-decode-execute step from `pre` with keypad snapshot
/// `keys` and framebuffer `fb0`: a fetch that would run off memory or an
/// undocumented opcode fails with nothing changed; otherwise the decoded
/// instruction's relation holds.
pub open spec fn step_rel(
    pre: ProcView,
    keys: Seq<bool>,
    fb0: Seq<u8>,
    post: ProcView,
    fb1: Seq<u8>,
    r: Result<ProcessorState, Chip8Error>,
) -> bool {
    if pre.pc + 1 > 4095 {
        &&& r == Err::<ProcessorState, Chip8Error>(Chip8Error::AddressOutOfRange { at: pre.pc as usize })
        &&& post == pre
        &&& fb1 == fb0
    } else {
        let hi = pre.memory[pre.pc];
        let lo = pre.memory[pre.pc + 1];
        match spec_decode(hi, lo) {
            Option::None => {
                &&& r == Err::<ProcessorState, Chip8Error>(Chip8Error::UnknownOpcode {
                    a: hi / 16,
                    b: hi % 16,
                    c: lo / 16,
                    d: lo % 16,
                    at: pre.pc as usize,
                })
                &&& post == pre
                &&& fb1 == fb0
            },
            Option::Some(instr) => instr_rel(pre, instr, keys, fb0, post, fb1, r),
        }
    }
}

/// The CHIP-8 interpreter: 4096 bytes of memory, sixteen 8-bit registers,
/// the index register, two timers, the program counter, and a sixteen-slot
/// call stack.
pub struct Processor {
    memory: [u8; 4096],
    registers: [u8; 16],
    mem_addr_register: usize,
    delay: u8,
    sound: u8,
    pc: usize,
    sp: usize,
    stack: [usize; 16],
}

impl Processor {
    /// The whole state as mathematical values.
    pub closed spec fn view(&self) -> ProcView {
        ProcView {
            memory: self.memory@,
            registers: self.registers@,
            index: self.mem_addr_register as int,
            delay: self.delay,
            sound: self.sound,
            pc: self.pc as int,
            sp: self.sp as int,
            stack: Seq::new(16, |k: int| self.stack@[k] as int),
        }
    }

    pub open spec fn wf(&self) -> bool {
        self@.wf()
    }

    /// The current program counter.
    pub fn pc(&self) -> (pc: usize)
        ensures
            pc == self@.pc,
    {
        self.pc
    }

    /// The current stack pointer: the number of call frames in use.
    pub fn sp(&self) -> (sp: usize)
        ensures
            sp == self@.sp,
    {
        self.sp
    }

    /// The current index register.
    pub fn mem_addr_register(&self) -> (index: usize)
        ensures
            index == self@.index,
    {
        self.mem_addr_register
    }

    /// The current delay timer.
    pub fn delay(&self) -> (delay: u8)
        ensures
            delay == self@.delay,
    {
        self.delay
    }

    /// The current sound timer.
    pub fn sound(&self) -> (sound: u8)
        ensures
            sound == self@.sound,
    {
        self.sound
    }

    /// Write one byte at `offset` past the index register.
    pub fn store_word(&mut self, offset: usize, word: u8)
        requires
            old(self)@.index + offset < 4096,
        ensures
            final(self)@ == (ProcView {
                memory: old(self)@.memory.update(old(self)@.index + offset, word),
                ..old(self)@
            }),
    {
        self.memory[self.mem_addr_register + offset] = word;
    }

    /// Read the byte at address `ptr`.
    pub fn load_word(&self, ptr: usize) -> (word: u8)
        requires
            ptr < 4096,
        ensures
            word == self@.memory[ptr as int],
    {
        self.memory[ptr]
    }

    /// Read the `n`-byte sprite at the index register.
    pub fn load_sprite(&self, n: u8) -> (sprite: Vec<u8>)
        requires
            self@.index + n <= 4096,
        ensures
            sprite@ == self@.memory.subrange(self@.index, self@.index + n),
    {
        let mut sprite: Vec<u8> = Vec::with_capacity(n as usize);
        let mut i: usize = 0;
        while i < n as usize
            invariant
                i <= n,
                self@.index + n <= 4096,
                self@.memory.len() == 4096,
                sprite@ == self@.memory.subrange(self@.index, self@.index + i),
            decreases n - i,
        {
            sprite.push(self.load_word(self.mem_addr_register + i));
            proof {
                assert(sprite@ =~= self@.memory.subrange(self@.index, self@.index + i + 1));
            }
            i += 1;
        }
        sprite
    }

    /// Read register `reg`.
    pub fn read_register(&self, reg: u8) -> (value: u8)
        requires
            reg < 16,
        ensures
            value == self@.registers[reg as int],
    {
        self.registers[reg as usize]
    }

    /// Write register `reg`; falls through to the next instruction.
    pub fn write_register(&mut self, reg: u8, value: u8) -> (pc: ProgramCounter)
        requires
            reg < 16,
        ensures
            pc == ProgramCounter::Increment,
            final(self)@ == (ProcView {
                registers: old(self)@.registers.update(reg as int, value),
                ..old(self)@
            }),
    {
        self.registers[reg as usize] = value;
        ProgramCounter::Increment
    }

    /// Point the index register at `value`.
    pub fn write_mem_addr_register(&mut self, value: u16) -> (pc: ProgramCounter)
        ensures
            pc == ProgramCounter::Increment,
            final(self)@ == (ProcView { index: value as int, ..old(self)@ }),
    {
        self.mem_addr_register = value as usize;
        ProgramCounter::Increment
    }

    /// `delay := V[reg]`.
    pub fn write_delay(&mut self, reg: u8) -> (pc: ProgramCounter)
        requires
            reg < 16,
        ensures
            pc == ProgramCounter::Increment,
            final(self)@ == (ProcView { delay: old(self)@.registers[reg as int], ..old(self)@ }),
    {
        self.delay = self.read_register(reg);
        ProgramCounter::Increment
    }

    /// `sound := V[reg]`.
    pub fn write_sound(&mut self, reg: u8) -> (pc: ProgramCounter)
        requires
            reg < 16,
        ensures
            pc == ProgramCounter::Increment,
            final(self)@ == (ProcView { sound: old(self)@.registers[reg as int], ..old(self)@ }),
    {
        self.sound = self.read_register(reg);
        ProgramCounter::Increment
    }

    /// Advance the index register by `incr` bytes; an increment that would
    /// leave the address space is a fatal error and changes nothing.
    pub fn increment_mem_addr_register(&mut self, incr: u8) -> (r: Result<
        ProgramCounter,
        Chip8Error,
    >)
        requires
            old(self)@.index <= 4096,
        ensures
            old(self)@.index + incr <= 4096 ==> r == Ok::<ProgramCounter, Chip8Error>(
                ProgramCounter::Increment,
            ) && final(self)@ == (ProcView { index: old(self)@.index + incr, ..old(self)@ }),
            old(self)@.index + incr > 4096 ==> r == Err::<ProgramCounter, Chip8Error>(
                Chip8Error::AddressOutOfRange { at: old(self)@.pc as usize },
            ) && final(self)@ == old(self)@,
    {
        if self.mem_addr_register > MEM_SIZE - incr as usize {
            return Err(Chip8Error::AddressOutOfRange { at: self.pc });
        }
        self.mem_addr_register = self.mem_addr_register + incr as usize;
        Ok(ProgramCounter::Increment)
    }

    /// `VF := value`; the flag register is register 15.
    pub fn write_flag(&mut self, value: u8) -> (pc: ProgramCounter)
        ensures
            pc == ProgramCounter::Increment,
            final(self)@ == (ProcView {
                registers: old(self)@.registers.update(15, value),
                ..old(self)@
            }),
    {
        self.write_register(0xF, value);
        ProgramCounter::Increment
    }

    /// Pop the call stack into the program counter.  A return with an empty
    /// stack is a fatal error and changes nothing.
    pub fn return_from_routine(&mut self) -> (r: Result<ProgramCounter, Chip8Error>)
        requires
            old(self).wf(),
        ensures
            old(self)@.sp == 0 ==> r == Err::<ProgramCounter, Chip8Error>(
                Chip8Error::StackUnderflow { at: old(self)@.pc as usize },
            ) && final(self)@ == old(self)@,
            old(self)@.sp > 0 ==> r == Ok::<ProgramCounter, Chip8Error>(
                ProgramCounter::Jump(old(self)@.stack[old(self)@.sp - 1] as u16),
            ) && final(self)@ == (ProcView { sp: old(self)@.sp - 1, ..old(self)@ }),
    {
        if self.sp == 0 {
            return Err(Chip8Error::StackUnderflow { at: self.pc });
        }
        self.sp -= 1;
        Ok(ProgramCounter::Jump(self.stack[self.sp] as u16))
    }

    /// Push the return address and jump to `addr`.  A call with all sixteen
    /// stack slots in use is a fatal error and changes nothing.
    pub fn call(&mut self, addr: u16) -> (r: Result<ProgramCounter, Chip8Error>)
        requires
            old(self).wf(),
            old(self)@.pc + 2 <= 4096,
        ensures
            old(self)@.sp == 16 ==> r == Err::<ProgramCounter, Chip8Error>(
                Chip8Error::StackOverflow { at: old(self)@.pc as usize },
            ) && final(self)@ == old(self)@,
            old(self)@.sp < 16 ==> r == Ok::<ProgramCounter, Chip8Error>(ProgramCounter::Jump(addr))
                && final(self)@ == (ProcView {
                    stack: old(self)@.stack.update(old(self)@.sp, old(self)@.pc + 2),
                    sp: old(self)@.sp + 1,
                    ..old(self)@
                }),
    {
        if self.sp == 16 {
            return Err(Chip8Error::StackOverflow { at: self.pc });
        }
        self.stack[self.sp] = self.pc + 2;
        self.sp += 1;
        proof {
            assert(self@.stack =~= old(self)@.stack.update(old(self)@.sp, old(self)@.pc + 2));
            assert(self@ =~= (ProcView {
                stack: old(self)@.stack.update(old(self)@.sp, old(self)@.pc + 2),
                sp: old(self)@.sp + 1,
                ..old(self)@
            }));
        }
        Ok(ProgramCounter::Jump(addr))
    }

    /// Perform ALU operation `flag` on registers `dst` and `src`: the flag
    /// is written to `VF` first (for the operations that write one), then
    /// the result to `dst`, so a result aimed at `VF` wins.
    pub fn arithmetic_instr(&mut self, dst: u8, src: u8, flag: u8) -> (pc: ProgramCounter)
        requires
            dst < 16,
            src < 16,
            flag <= 7 || flag == 0xE,
        ensures
            pc == ProgramCounter::Increment,
            final(self)@ == (ProcView {
                registers: alu_regs(old(self)@.registers, dst as int, src as int, flag),
                ..old(self)@
            }),
    {
        let dst_val = self.read_register(dst);
        let src_val = self.read_register(src);
        let res: u8 = match flag {
            0 => src_val,
            1 => dst_val | src_val,
            2 => dst_val & src_val,
            3 => dst_val ^ src_val,
            4 => {
                let sum: u16 = dst_val as u16 + src_val as u16;
                self.write_flag(if sum > 255 { 1 } else { 0 });
                (sum % 256) as u8
            },
            5 => {
                self.write_flag(if dst_val >= src_val { 1 } else { 0 });
                if dst_val >= src_val {
                    dst_val - src_val
                } else {
                    (256 + dst_val as u16 - src_val as u16) as u8
                }
            },
            6 => {
                let lsb = 0x01 & dst_val;
                proof {
                    assert(0x01 & dst_val == dst_val % 2 && dst_val >> 1u8 == dst_val / 2)
                        by (bit_vector);
                }
                self.write_flag(lsb);
                dst_val >> 1
            },
            7 => {
                self.write_flag(if src_val >= dst_val { 1 } else { 0 });
                if src_val >= dst_val {
                    src_val - dst_val
                } else {
                    (256 + src_val as u16 - dst_val as u16) as u8
                }
            },
            _ => {
                let msb = dst_val >> 7;
                proof {
                    assert(dst_val >> 7u8 == dst_val / 128 && (dst_val << 1u8) as int == (dst_val
                        * 2) % 256) by (bit_vector);
                }
                self.write_flag(msb);
                dst_val << 1
            },
        };
        self.write_register(dst, res)
    }

    /// `V[reg] := random byte & lower_word`.  The drawn byte is arbitrary:
    /// every contract downstream holds for each of its 256 values.
    pub fn generate_random(&mut self, reg: u8, lower_word: u8) -> (pc: ProgramCounter)
        requires
            reg < 16,
        ensures
            pc == ProgramCounter::Increment,
            exists|rnd: u8|
                final(self)@ == (ProcView {
                    registers: old(self)@.registers.update(reg as int, #[trigger] (rnd & lower_word)),
                    ..old(self)@
                }),
    {
        let rand: u8 = crate::rng::random_byte();
        let pc = self.write_register(reg, rand & lower_word);
        proof {
            assert(self@ == (ProcView {
                registers: old(self)@.registers.update(reg as int, rand & lower_word),
                ..old(self)@
            }));
        }
        pc
    }

    /// Store the three decimal digits of `V[reg]`, most significant first,
    /// at the index register.  A store that would run off memory is a fatal
    /// error and changes nothing.
    pub fn write_bcd(&mut self, reg: u8) -> (r: Result<ProgramCounter, Chip8Error>)
        requires
            old(self).wf(),
            reg < 16,
        ensures
            old(self)@.index + 2 > 4095 ==> r == Err::<ProgramCounter, Chip8Error>(
                Chip8Error::AddressOutOfRange { at: old(self)@.pc as usize },
            ) && final(self)@ == old(self)@,
            old(self)@.index + 2 <= 4095 ==> r == Ok::<ProgramCounter, Chip8Error>(
                ProgramCounter::Increment,
            ) && final(self)@ == (ProcView {
                memory: old(self)@.memory
                    .update(old(self)@.index, old(self)@.registers[reg as int] / 100)
                    .update(old(self)@.index + 1, (old(self)@.registers[reg as int] % 100) / 10)
                    .update(old(self)@.index + 2, old(self)@.registers[reg as int] % 10),
                ..old(self)@
            }),
    {
        if self.mem_addr_register + 2 > 4095 {
            return Err(Chip8Error::AddressOutOfRange { at: self.pc });
        }
        let dec = self.read_register(reg);
        self.store_word(0, dec / 100);
        self.store_word(1, (dec % 100) / 10);
        self.store_word(2, dec % 10);
        Ok(ProgramCounter::Increment)
    }

    /// Scan the keypad snapshot for its lowest pressed key: when one is
    /// found it lands in `V[reg]` and execution falls through; with no key
    /// pressed the effect is `Halt` and nothing changes, so the caller
    /// retries with a fresh snapshot.
    pub fn wait_for_keypress(&mut self, reg: u8, input: &[bool; 16]) -> (pc: ProgramCounter)
        requires
            reg < 16,
        ensures
            match first_key(input@) {
                Option::None => pc == ProgramCounter::Halt && final(self)@ == old(self)@,
                Option::Some(k) => pc == ProgramCounter::Increment && final(self)@ == (ProcView {
                    registers: old(self)@.registers.update(reg as int, k as u8),
                    ..old(self)@
                }),
            },
    {
        let ghost pre = self@;
        let mut i: usize = 0;
        while i < 16
            invariant
                i <= 16,
                reg < 16,
                self@ == pre,
                pre == old(self)@,
                first_key(input@) == first_key_from(input@, i as int),
            decreases 16 - i,
        {
            if input[i] {
                proof {
                    assert(first_key_from(input@, i as int) == Option::Some(i as int));
                }
                return self.write_register(reg, i as u8);
            }
            proof {
                assert(first_key_from(input@, i as int) == first_key_from(input@, i as int + 1));
            }
            i += 1;
        }
        proof {
            assert(first_key_from(input@, 16) == Option::<int>::None);
        }
        ProgramCounter::Halt
    }

    /// Store `V0..=V[reg]` at the index register, then advance it past the
    /// stored block.  A store that would run off memory is a fatal error
    /// and changes nothing.
    pub fn store_registers(&mut self, reg: u8) -> (r: Result<ProgramCounter, Chip8Error>)
        requires
            old(self).wf(),
            reg < 16,
        ensures
            old(self)@.index + reg > 4095 ==> r == Err::<ProgramCounter, Chip8Error>(
                Chip8Error::AddressOutOfRange { at: old(self)@.pc as usize },
            ) && final(self)@ == old(self)@,
            old(self)@.index + reg <= 4095 ==> r == Ok::<ProgramCounter, Chip8Error>(
                ProgramCounter::Increment,
            ) && final(self)@ == (ProcView {
                memory: Seq::new(4096, |k: int|
                    if old(self)@.index <= k <= old(self)@.index + reg {
                        old(self)@.registers[k - old(self)@.index]
                    } else {
                        old(self)@.memory[k]
                    }),
                index: old(self)@.index + reg + 1,
                ..old(self)@
            }),
    {
        if self.mem_addr_register + reg as usize > 4095 {
            return Err(Chip8Error::AddressOutOfRange { at: self.pc });
        }
        let ghost pre = self@;
        let mut i: usize = 0;
        while i <= reg as usize
            invariant
                pre == old(self)@,
                i <= reg + 1,
                reg < 16,
                pre.index + reg <= 4095,
                self@.memory.len() == 4096,
                self@.registers == pre.registers,
                self@.index == pre.index,
                self@.delay == pre.delay,
                self@.sound == pre.sound,
                self@.pc == pre.pc,
                self@.sp == pre.sp,
                self@.stack == pre.stack,
                forall|k: int| pre.index <= k < pre.index + i
                    ==> self@.memory[k] == pre.registers[k - pre.index],
                forall|k: int| 0 <= k < 4096 && !(pre.index <= k < pre.index + i)
                    ==> self@.memory[k] == pre.memory[k],
            decreases reg + 1 - i,
        {
            let val = self.read_register(i as u8);
            self.store_word(i, val);
            i += 1;
        }
        self.mem_addr_register = self.mem_addr_register + reg as usize + 1;
        proof {
            assert(self@.memory =~= Seq::new(4096, |k: int|
                if pre.index <= k <= pre.index + reg {
                    pre.registers[k - pre.index]
                } else {
                    pre.memory[k]
                }));
            assert(self@ =~= (ProcView {
                memory: Seq::new(4096, |k: int|
                    if pre.index <= k <= pre.index + reg {
                        pre.registers[k - pre.index]
                    } else {
                        pre.memory[k]
                    }),
                index: pre.index + reg + 1,
                ..pre
            }));
        }
        Ok(ProgramCounter::Increment)
    }

    /// Load `V0..=V[reg]` from the index register, then advance it past the
    /// loaded block.  A load that would run off memory is a fatal error and
    /// changes nothing.
    pub fn load_registers(&mut self, reg: u8) -> (r: Result<ProgramCounter, Chip8Error>)
        requires
            old(self).wf(),
            reg < 16,
        ensures
            old(self)@.index + reg > 4095 ==> r == Err::<ProgramCounter, Chip8Error>(
                Chip8Error::AddressOutOfRange { at: old(self)@.pc as usize },
            ) && final(self)@ == old(self)@,
            old(self)@.index + reg <= 4095 ==> r == Ok::<ProgramCounter, Chip8Error>(
                ProgramCounter::Increment,
            ) && final(self)@ == (ProcView {
                registers: Seq::new(16, |k: int|
                    if 0 <= k <= reg {
                        old(self)@.memory[old(self)@.index + k]
                    } else {
                        old(self)@.registers[k]
                    }),
                index: old(self)@.index + reg + 1,
                ..old(self)@
            }),
    {
        if self.mem_addr_register + reg as usize > 4095 {
            return Err(Chip8Error::AddressOutOfRange { at: self.pc });
        }
        let ghost pre = self@;
        let mut i: usize = 0;
        while i <= reg as usize
            invariant
                pre == old(self)@,
                i <= reg + 1,
                reg < 16,
                pre.index + reg <= 4095,
                pre.memory.len() == 4096,
                self@.memory == pre.memory,
                self@.registers.len() == 16,
                self@.index == pre.index,
                self@.delay == pre.delay,
                self@.sound == pre.sound,
                self@.pc == pre.pc,
                self@.sp == pre.sp,
                self@.stack == pre.stack,
                forall|k: int| 0 <= k < i ==> self@.registers[k] == pre.memory[pre.index + k],
                forall|k: int| i <= k < 16 ==> self@.registers[k] == pre.registers[k],
            decreases reg + 1 - i,
        {
            let val = self.load_word(self.mem_addr_register + i);
            self.write_register(i as u8, val);
            i += 1;
        }
        self.mem_addr_register = self.mem_addr_register + reg as usize + 1;
        proof {
            assert(self@.registers =~= Seq::new(16, |k: int|
                if 0 <= k <= reg {
                    pre.memory[pre.index + k]
                } else {
                    pre.registers[k]
                }));
            assert(self@ =~= (ProcView {
                registers: Seq::new(16, |k: int|
                    if 0 <= k <= reg {
                        pre.memory[pre.index + k]
                    } else {
                        pre.registers[k]
                    }),
                index: pre.index + reg + 1,
                ..pre
            }));
        }
        Ok(ProgramCounter::Increment)
    }

    /// Blank the framebuffer; the interpreter state itself is untouched.
    pub fn clear_display(&mut self, display: &mut Display) -> (pc: ProgramCounter)
        ensures
            pc == ProgramCounter::Increment,
            final(self)@ == old(self)@,
            final(display).wf(),
            final(display)@ == blank_fb(),
    {
        display.clear_buffer();
        proof {
            assert(display@ =~= blank_fb());
        }
        ProgramCounter::Increment
    }

    /// Draw the `sprite`-byte sprite at `memory[I..]` at the coordinates
    /// held in registers `x` and `y`, and record the collision flag in
    /// `VF`.  A sprite that would be read from past the end of memory is a
    /// fatal error and changes nothing.
    pub fn draw_sprite(&mut self, x: u8, y: u8, sprite: u8, display: &mut Display) -> (r: Result<
        ProgramCounter,
        Chip8Error,
    >)
        requires
            old(self).wf(),
            old(display).wf(),
            x < 16,
            y < 16,
            sprite < 16,
        ensures
            final(display).wf(),
            old(self)@.index + sprite > 4096 ==> r == Err::<ProgramCounter, Chip8Error>(
                Chip8Error::AddressOutOfRange { at: old(self)@.pc as usize },
            ) && final(self)@ == old(self)@ && final(display)@ == old(display)@,
            old(self)@.index + sprite <= 4096 ==> ({
                let spr = old(self)@.memory.subrange(old(self)@.index, old(self)@.index + sprite);
                let vx = old(self)@.registers[x as int] as int;
                let vy = old(self)@.registers[y as int] as int;
                &&& r == Ok::<ProgramCounter, Chip8Error>(ProgramCounter::Increment)
                &&& final(display)@ == draw_spec(old(display)@, vx, vy, spr)
                &&& final(self)@ == (ProcView {
                    registers: old(self)@.registers.update(
                        15,
                        if collision_spec(old(display)@, vx, vy, spr) { 1u8 } else { 0u8 },
                    ),
                    ..old(self)@
                })
            }),
    {
        if self.mem_addr_register > MEM_SIZE - sprite as usize {
            return Err(Chip8Error::AddressOutOfRange { at: self.pc });
        }
        let spr = self.load_sprite(sprite);
        let flag = display.write_buffer(self.read_register(x), self.read_register(y), &spr);
        self.write_flag(if flag { 1 } else { 0 });
        Ok(ProgramCounter::Increment)
    }

    /// Copy a ROM image into memory starting at `MEM_START`.  A ROM that
    /// would run past the end of memory is rejected whole: memory keeps its
    /// previous contents.
    pub fn load_rom(&mut self, rom: &[u8]) -> (r: Result<(), Chip8Error>)
        requires
            old(self).wf(),
        ensures
            final(self).wf(),
            r is Ok <==> rom@.len() <= 3584,
            r is Ok ==> final(self)@ == (ProcView {
                memory: Seq::new(4096, |k: int|
                    if 512 <= k < 512 + rom@.len() {
                        rom@[k - 512]
                    } else {
                        old(self)@.memory[k]
                    }),
                ..old(self)@
            }),
            r is Err ==> final(self)@ == old(self)@
                && r == Err::<(), Chip8Error>(Chip8Error::RomTooLarge { size: rom@.len() as usize }),
    {
        if rom.len() > MAX_ROM_SIZE {
            return Err(Chip8Error::RomTooLarge { size: rom.len() });
        }
        let n = rom.len();
        let mut i: usize = 0;
        while i < n
            invariant
                n == rom@.len() <= 3584,
                i <= n,
                self.memory@.len() == 4096,
                forall|k: int| 512 <= k < 512 + i ==> self.memory@[k] == rom@[k - 512],
                forall|k: int| 0 <= k < 4096 && !(512 <= k < 512 + i)
                    ==> self.memory@[k] == old(self).memory@[k],
                self.registers == old(self).registers,
                self.mem_addr_register == old(self).mem_addr_register,
                self.delay == old(self).delay,
                self.sound == old(self).sound,
                self.pc == old(self).pc,
                self.sp == old(self).sp,
                self.stack == old(self).stack,
            decreases n - i,
        {
            self.memory[MEM_START + i] = rom[i];
            i += 1;
        }
        proof {
            assert(self@.memory =~= Seq::new(4096, |k: int|
                if 512 <= k < 512 + rom@.len() {
                    rom@[k - 512]
                } else {
                    old(self)@.memory[k]
                }));
            assert(self@ =~= (ProcView {
                memory: Seq::new(4096, |k: int|
                    if 512 <= k < 512 + rom@.len() {
                        rom@[k - 512]
                    } else {
                        old(self)@.memory[k]
                    }),
                ..old(self)@
            }));
        }
        Ok(())
    }

    /// One fetch-decode-execute step, driven by the keypad snapshot `input`
    /// and drawing on `display`.
    ///
    /// A successful step applies the instruction's program-counter effect
    /// and then decrements both timers (floored at zero) and reports
    /// `Continue`; a step blocked on input (`FX0A` with no key pressed)
    /// leaves everything untouched, timers included, and reports
    /// `BlockForIO`; a fatal instruction reports its error with the whole
    /// state unchanged.  The exact transition is `step_rel`.
    pub fn next(&mut self, input: &[bool; 16], display: &mut Display) -> (r: Result<
        ProcessorState,
        Chip8Error,
    >)
        requires
            old(self).wf(),
            old(display).wf(),
        ensures
            final(self).wf(),
            final(display).wf(),
            step_rel(old(self)@, input@, old(display)@, final(self)@, final(display)@, r),
    {
        // Instruction fetch
        if self.pc + 1 > 4095 {
            return Err(Chip8Error::AddressOutOfRange { at: self.pc });
        }
        let upper_word = self.load_word(self.pc);
        let lower_word = self.load_word(self.pc + 1);

        // Instruction decode
        let instr = match decode(upper_word, lower_word) {
            Some(instr) => instr,
            None => {
                let a = upper_word >> 4;
                let b = upper_word & 0x0F;
                let c = lower_word >> 4;
                let d = lower_word & 0x0F;
                proof {
                    assert(upper_word >> 4 == upper_word / 16 && upper_word & 0x0F == upper_word
                        % 16 && lower_word >> 4 == lower_word / 16 && lower_word & 0x0F
                        == lower_word % 16) by (bit_vector);
                }
                return Err(Chip8Error::UnknownOpcode { a, b, c, d, at: self.pc });
            },
        };
        proof {
            crate::isa::lemma_decode_operand_ranges(upper_word, lower_word);
        }

        // Instruction execute
        let pc_state: ProgramCounter = match instr {
            Instr::ClearScreen => self.clear_display(display),
            Instr::Return => self.return_from_routine()?,
            Instr::Jump { addr } => ProgramCounter::Jump(addr),
            Instr::Call { addr } => self.call(addr)?,
            Instr::SkipEqImm { x, nn } => ProgramCounter::Skip(self.read_register(x) == nn),
            Instr::SkipNeImm { x, nn } => ProgramCounter::Skip(self.read_register(x) != nn),
            Instr::SkipEqReg { x, y } => ProgramCounter::Skip(
                self.read_register(x) == self.read_register(y),
            ),
            Instr::SetImm { x, nn } => self.write_register(x, nn),
            Instr::AddImm { x, nn } => {
                let sum = ((self.read_register(x) as u16 + nn as u16) % 256) as u8;
                self.write_register(x, sum)
            },
            Instr::Alu { x, y, op } => self.arithmetic_instr(x, y, op),
            Instr::SkipNeReg { x, y } => ProgramCounter::Skip(
                self.read_register(x) != self.read_register(y),
            ),
            Instr::SetIndex { addr } => self.write_mem_addr_register(addr),
            Instr::JumpPlusV0 { addr } => ProgramCounter::Jump(
                addr + self.read_register(0) as u16,
            ),
            Instr::RandomMask { x, nn } => self.generate_random(x, nn),
            Instr::Draw { x, y, n } => self.draw_sprite(x, y, n, display)?,
            Instr::SkipKeyPressed { x } => {
                let vx = self.read_register(x);
                if vx >= 16 {
                    return Err(Chip8Error::KeyOutOfRange { at: self.pc });
                }
                ProgramCounter::Skip(input[vx as usize])
            },
            Instr::SkipKeyNotPressed { x } => {
                let vx = self.read_register(x);
                if vx >= 16 {
                    return Err(Chip8Error::KeyOutOfRange { at: self.pc });
                }
                ProgramCounter::Skip(!input[vx as usize])
            },
            Instr::ReadDelay { x } => {
                let d = self.delay;
                self.write_register(x, d)
            },
            Instr::WaitKey { x } => self.wait_for_keypress(x, input),
            Instr::SetDelay { x } => self.write_delay(x),
            Instr::SetSound { x } => self.write_sound(x),
            Instr::AddIndex { x } => {
                let vx = self.read_register(x);
                self.increment_mem_addr_register(vx)?
            },
            Instr::SetIndexFont { x } => {
                let vx = self.read_register(x);
                self.write_mem_addr_register(5 * vx as u16)
            },
            Instr::StoreBcd { x } => self.write_bcd(x)?,
            Instr::StoreRegs { x } => self.store_registers(x)?,
            Instr::LoadRegs { x } => self.load_registers(x)?,
        };

        // Program-counter update, then one timer step
        match pc_state {
            ProgramCounter::Increment => {
                self.pc += 2;
            },
            ProgramCounter::Jump(addr) => {
                self.pc = addr as usize;
            },
            ProgramCounter::Skip(predicate) => {
                self.pc += if predicate { 4 } else { 2 };
            },
            ProgramCounter::Halt => {
                return Ok(ProcessorState::BlockForIO);
            },
        }
        if self.delay > 0 {
            self.delay -= 1;
        }
        if self.sound > 0 {
            self.sound -= 1;
        }
        Ok(ProcessorState::Continue)
    }
}

impl Default for Processor {
    /// The power-on state: font at the bottom of memory, everything else
    /// zeroed, and execution poised at `MEM_START`.
    fn default() -> (p: Processor)
        ensures
            p.wf(),
            p@.memory.len() == 4096,
            forall|k: int| 0 <= k < 80 ==> p@.memory[k] == DIGIT_SPRITES@[k],
            forall|k: int| 80 <= k < 4096 ==> p@.memory[k] == 0,
            forall|k: int| 0 <= k < 16 ==> p@.registers[k] == 0,
            p@.index == 0,
            p@.delay == 0,
            p@.sound == 0,
            p@.pc == 512,
            p@.sp == 0,
            forall|k: int| 0 <= k < 16 ==> p@.stack[k] == 0,
    {
        let mut memory = [0u8; 4096];
        let mut i: usize = 0;
        while i < 80
            invariant
                i <= 80,
                forall|k: int| 0 <= k < i ==> memory@[k] == DIGIT_SPRITES@[k],
                forall|k: int| i <= k < 4096 ==> memory@[k] == 0,
            decreases 80 - i,
        {
            memory[i] = DIGIT_SPRITES[i];
            i += 1;
        }
        Processor {
            memory,
            registers: [0; 16],
            mem_addr_register: 0,
            delay: 0,
            sound: 0,
            pc: 512,
            sp: 0,
            stack: [0; 16],
        }
    }
}

} // verus!
