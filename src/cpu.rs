use vstd::prelude::*;

use crate::graphics::{draw_collision, draw_pixels, DISPLAY_SIZE};
use crate::keypad::KEY_COUNT;
use crate::machine::Chip8Bus;
use crate::memory::{Chip8Memory, MEMORY_SIZE};

verus! {

/// Number of general-purpose registers; the last one, VF, doubles as the flag register.
pub const REGISTER_COUNT: usize = 16;

/// Index of the flag register VF.
pub const FLAG_REGISTER: usize = 15;

/// Number of slots of the call stack.
pub const STACK_SIZE: usize = 16;

/// Timers tick once every this many steps.
pub const TIMER_DIVIDER: u8 = 9;

/// A decoded instruction.
#[allow(non_camel_case_types)]
#[derive(Debug, Clone, Copy, PartialEq, Eq, Structural)]
pub enum IntermediateAsm {
    CLS,
    RET,
    SYS { addr: u16 },
    JUMP { addr: u16 },
    CALL { addr: u16 },
    SE_CONST { reg_index: u8, constant: u8 },
    SNE_CONST { reg_index: u8, constant: u8 },
    SE_REG { reg_x_index: u8, reg_y_index: u8 },
    LOAD_CONST { reg_index: u8, constant: u8 },
    ADD_CONST { reg_index: u8, constant: u8 },
    LOAD_REG { reg_x_index: u8, reg_y_index: u8 },
    OR { reg_x_index: u8, reg_y_index: u8 },
    AND { reg_x_index: u8, reg_y_index: u8 },
    XOR { reg_x_index: u8, reg_y_index: u8 },
    ADD_REG { reg_x_index: u8, reg_y_index: u8 },
    SUB_REG { reg_x_index: u8, reg_y_index: u8 },
    SHR { reg_x_index: u8, reg_y_index: u8 },
    SUBN { reg_x_index: u8, reg_y_index: u8 },
    SHL { reg_x_index: u8, reg_y_index: u8 },
    SNE_REG { reg_x_index: u8, reg_y_index: u8 },
    LOAD_ADDR { addr: u16 },
    JUMP_V0 { addr: u16 },
    RND { reg_x_index: u8, bitmask: u8 },
    DRW { reg_x_index: u8, reg_y_index: u8, nibble: u8 },
    SKP { reg_x_index: u8 },
    SKNP { reg_x_index: u8 },
    LOAD_DELAY_TIMER { reg_x_index: u8 },
    WAIT_FOR_KEY_PRESS { reg_x_index: u8 },
    SET_DELAY_TIMER { reg_x_index: u8 },
    SET_SOUND_TIMER { reg_x_index: u8 },
    ADD_I { reg_x_index: u8 },
    LOAD_SPRITE_LOCATION { reg_x_index: u8 },
    STORE_BCD { reg_x_index: u8 },
    STORE_REG_ARR { reg_x_index: u8 },
    LOAD_REG_ARR { reg_x_index: u8 },
}

/// The fatal conditions of the machine; `pc` is the address of the instruction
/// that raised it.
#[derive(Debug, Clone, Copy, PartialEq, Eq)]
pub enum Chip8Error {
    IllegalOpcode { pc: u16, opcode: u16 },
    UnsupportedInstruction { pc: u16, opcode: u16 },
    StackOverflow { pc: u16 },
    StackUnderflow { pc: u16 },
    OutOfBoundsAccess { pc: u16 },
    LoadTooLarge { size: usize },
}

/// The halt latch: running, or waiting for a key press that goes into `register`.
#[derive(Debug, Clone, Copy, PartialEq, Eq, Structural)]
pub enum RunState {
    Running,
    WaitingForKey { register: u8 },
}

/// The whole machine as plain values.
#[verifier::ext_equal]
pub struct MachineState {
    pub regs: Seq<u8>,
    pub i: u16,
    pub pc: u16,
    pub sp: u16,
    pub stack: Seq<u16>,
    pub delay: u8,
    pub sound: u8,
    pub divider: u8,
    pub run: RunState,
    pub memory: Seq<u8>,
    pub display: Seq<bool>,
    pub dirty: bool,
    pub keys: Seq<bool>,
}

impl MachineState {
    pub open spec fn wf(self) -> bool {
        &&& self.regs.len() == REGISTER_COUNT
        &&& self.stack.len() == STACK_SIZE
        &&& self.sp < STACK_SIZE
        &&& self.divider < TIMER_DIVIDER
        &&& self.memory.len() == MEMORY_SIZE
        &&& self.display.len() == DISPLAY_SIZE
        &&& self.keys.len() == KEY_COUNT
        &&& match self.run {
            RunState::WaitingForKey { register } => register < REGISTER_COUNT,
            RunState::Running => true,
        }
    }
}

impl IntermediateAsm {
    /// Register indices are below 16, addresses below 0x1000 and the sprite
    /// height below 16: what any decoded instruction satisfies.
    pub open spec fn wf(self) -> bool {
        match self {
            IntermediateAsm::CLS | IntermediateAsm::RET => true,
            IntermediateAsm::SYS { addr } => addr < 0x1000 && addr != 0x0E0 && addr != 0x0EE,
            IntermediateAsm::JUMP { addr }
            | IntermediateAsm::CALL { addr }
            | IntermediateAsm::LOAD_ADDR { addr }
            | IntermediateAsm::JUMP_V0 { addr } => addr < 0x1000,
            IntermediateAsm::SE_CONST { reg_index, .. }
            | IntermediateAsm::SNE_CONST { reg_index, .. }
            | IntermediateAsm::LOAD_CONST { reg_index, .. }
            | IntermediateAsm::ADD_CONST { reg_index, .. } => reg_index < 16,
            IntermediateAsm::SE_REG { reg_x_index, reg_y_index }
            | IntermediateAsm::LOAD_REG { reg_x_index, reg_y_index }
            | IntermediateAsm::OR { reg_x_index, reg_y_index }
            | IntermediateAsm::AND { reg_x_index, reg_y_index }
            | IntermediateAsm::XOR { reg_x_index, reg_y_index }
            | IntermediateAsm::ADD_REG { reg_x_index, reg_y_index }
            | IntermediateAsm::SUB_REG { reg_x_index, reg_y_index }
            | IntermediateAsm::SHR { reg_x_index, reg_y_index }
            | IntermediateAsm::SUBN { reg_x_index, reg_y_index }
            | IntermediateAsm::SHL { reg_x_index, reg_y_index }
            | IntermediateAsm::SNE_REG { reg_x_index, reg_y_index } => reg_x_index < 16 && reg_y_index < 16,
            IntermediateAsm::RND { reg_x_index, .. } => reg_x_index < 16,
            IntermediateAsm::DRW { reg_x_index, reg_y_index, nibble } => reg_x_index < 16 && reg_y_index < 16
                && nibble < 16,
            IntermediateAsm::SKP { reg_x_index }
            | IntermediateAsm::SKNP { reg_x_index }
            | IntermediateAsm::LOAD_DELAY_TIMER { reg_x_index }
            | IntermediateAsm::WAIT_FOR_KEY_PRESS { reg_x_index }
            | IntermediateAsm::SET_DELAY_TIMER { reg_x_index }
            | IntermediateAsm::SET_SOUND_TIMER { reg_x_index }
            | IntermediateAsm::ADD_I { reg_x_index }
            | IntermediateAsm::LOAD_SPRITE_LOCATION { reg_x_index }
            | IntermediateAsm::STORE_BCD { reg_x_index }
            | IntermediateAsm::STORE_REG_ARR { reg_x_index }
            | IntermediateAsm::LOAD_REG_ARR { reg_x_index } => reg_x_index < 16,
        }
    }
}

/// The 16-bit word built from four nibbles, most significant first.
pub open spec fn word_of(a: int, b: int, c: int, d: int) -> int {
    a * 0x1000 + b * 0x100 + c * 0x10 + d
}

/// The opcode word of an instruction.
pub open spec fn encode(ins: IntermediateAsm) -> int {
    match ins {
        IntermediateAsm::CLS => 0x00E0,
        IntermediateAsm::RET => 0x00EE,
        IntermediateAsm::SYS { addr } => addr as int,
        IntermediateAsm::JUMP { addr } => 0x1000 + addr,
        IntermediateAsm::CALL { addr } => 0x2000 + addr,
        IntermediateAsm::SE_CONST { reg_index, constant } => word_of(3, reg_index as int, 0, 0) + constant,
        IntermediateAsm::SNE_CONST { reg_index, constant } => word_of(4, reg_index as int, 0, 0) + constant,
        IntermediateAsm::SE_REG { reg_x_index, reg_y_index } => word_of(5, reg_x_index as int, reg_y_index as int, 0),
        IntermediateAsm::LOAD_CONST { reg_index, constant } => word_of(6, reg_index as int, 0, 0) + constant,
        IntermediateAsm::ADD_CONST { reg_index, constant } => word_of(7, reg_index as int, 0, 0) + constant,
        IntermediateAsm::LOAD_REG { reg_x_index, reg_y_index } => word_of(8, reg_x_index as int, reg_y_index as int, 0),
        IntermediateAsm::OR { reg_x_index, reg_y_index } => word_of(8, reg_x_index as int, reg_y_index as int, 1),
        IntermediateAsm::AND { reg_x_index, reg_y_index } => word_of(8, reg_x_index as int, reg_y_index as int, 2),
        IntermediateAsm::XOR { reg_x_index, reg_y_index } => word_of(8, reg_x_index as int, reg_y_index as int, 3),
        IntermediateAsm::ADD_REG { reg_x_index, reg_y_index } => word_of(8, reg_x_index as int, reg_y_index as int, 4),
        IntermediateAsm::SUB_REG { reg_x_index, reg_y_index } => word_of(8, reg_x_index as int, reg_y_index as int, 5),
        IntermediateAsm::SHR { reg_x_index, reg_y_index } => word_of(8, reg_x_index as int, reg_y_index as int, 6),
        IntermediateAsm::SUBN { reg_x_index, reg_y_index } => word_of(8, reg_x_index as int, reg_y_index as int, 7),
        IntermediateAsm::SHL { reg_x_index, reg_y_index } => word_of(8, reg_x_index as int, reg_y_index as int, 0xE),
        IntermediateAsm::SNE_REG { reg_x_index, reg_y_index } => word_of(9, reg_x_index as int, reg_y_index as int, 0),
        IntermediateAsm::LOAD_ADDR { addr } => 0xA000 + addr,
        IntermediateAsm::JUMP_V0 { addr } => 0xB000 + addr,
        IntermediateAsm::RND { reg_x_index, bitmask } => word_of(0xC, reg_x_index as int, 0, 0) + bitmask,
        IntermediateAsm::DRW { reg_x_index, reg_y_index, nibble } => word_of(
            0xD,
            reg_x_index as int,
            reg_y_index as int,
            nibble as int,
        ),
        IntermediateAsm::SKP { reg_x_index } => word_of(0xE, reg_x_index as int, 9, 0xE),
        IntermediateAsm::SKNP { reg_x_index } => word_of(0xE, reg_x_index as int, 0xA, 1),
        IntermediateAsm::LOAD_DELAY_TIMER { reg_x_index } => word_of(0xF, reg_x_index as int, 0, 7),
        IntermediateAsm::WAIT_FOR_KEY_PRESS { reg_x_index } => word_of(0xF, reg_x_index as int, 0, 0xA),
        IntermediateAsm::SET_DELAY_TIMER { reg_x_index } => word_of(0xF, reg_x_index as int, 1, 5),
        IntermediateAsm::SET_SOUND_TIMER { reg_x_index } => word_of(0xF, reg_x_index as int, 1, 8),
        IntermediateAsm::ADD_I { reg_x_index } => word_of(0xF, reg_x_index as int, 1, 0xE),
        IntermediateAsm::LOAD_SPRITE_LOCATION { reg_x_index } => word_of(0xF, reg_x_index as int, 2, 9),
        IntermediateAsm::STORE_BCD { reg_x_index } => word_of(0xF, reg_x_index as int, 3, 3),
        IntermediateAsm::STORE_REG_ARR { reg_x_index } => word_of(0xF, reg_x_index as int, 5, 5),
        IntermediateAsm::LOAD_REG_ARR { reg_x_index } => word_of(0xF, reg_x_index as int, 6, 5),
    }
}

/// The instruction table: what each opcode word decodes to, by its nibbles
/// (a = bits 15-12, b = 11-8, c = 7-4, d = 3-0).
pub open spec fn decode_spec(op: u16) -> Option<IntermediateAsm> {
    let a = (op >> 12u16) & 0xFu16;
    let b = (op >> 8u16) & 0xFu16;
    let c = (op >> 4u16) & 0xFu16;
    let d = op & 0xFu16;
    let x = b as u8;
    let y = c as u8;
    let kk = (op & 0xFFu16) as u8;
    let nnn = op & 0xFFFu16;
    if a == 0 {
        if b == 0 && c == 0xE && d == 0 {
            Some(IntermediateAsm::CLS)
        } else if b == 0 && c == 0xE && d == 0xE {
            Some(IntermediateAsm::RET)
        } else {
            Some(IntermediateAsm::SYS { addr: nnn })
        }
    } else if a == 1 {
        Some(IntermediateAsm::JUMP { addr: nnn })
    } else if a == 2 {
        Some(IntermediateAsm::CALL { addr: nnn })
    } else if a == 3 {
        Some(IntermediateAsm::SE_CONST { reg_index: x, constant: kk })
    } else if a == 4 {
        Some(IntermediateAsm::SNE_CONST { reg_index: x, constant: kk })
    } else if a == 5 {
        if d == 0 {
            Some(IntermediateAsm::SE_REG { reg_x_index: x, reg_y_index: y })
        } else {
            None
        }
    } else if a == 6 {
        Some(IntermediateAsm::LOAD_CONST { reg_index: x, constant: kk })
    } else if a == 7 {
        Some(IntermediateAsm::ADD_CONST { reg_index: x, constant: kk })
    } else if a == 8 {
        if d == 0 {
            Some(IntermediateAsm::LOAD_REG { reg_x_index: x, reg_y_index: y })
        } else if d == 1 {
            Some(IntermediateAsm::OR { reg_x_index: x, reg_y_index: y })
        } else if d == 2 {
            Some(IntermediateAsm::AND { reg_x_index: x, reg_y_index: y })
        } else if d == 3 {
            Some(IntermediateAsm::XOR { reg_x_index: x, reg_y_index: y })
        } else if d == 4 {
            Some(IntermediateAsm::ADD_REG { reg_x_index: x, reg_y_index: y })
        } else if d == 5 {
            Some(IntermediateAsm::SUB_REG { reg_x_index: x, reg_y_index: y })
        } else if d == 6 {
            Some(IntermediateAsm::SHR { reg_x_index: x, reg_y_index: y })
        } else if d == 7 {
            Some(IntermediateAsm::SUBN { reg_x_index: x, reg_y_index: y })
        } else if d == 0xE {
            Some(IntermediateAsm::SHL { reg_x_index: x, reg_y_index: y })
        } else {
            None
        }
    } else if a == 9 {
        if d == 0 {
            Some(IntermediateAsm::SNE_REG { reg_x_index: x, reg_y_index: y })
        } else {
            None
        }
    } else if a == 0xA {
        Some(IntermediateAsm::LOAD_ADDR { addr: nnn })
    } else if a == 0xB {
        Some(IntermediateAsm::JUMP_V0 { addr: nnn })
    } else if a == 0xC {
        Some(IntermediateAsm::RND { reg_x_index: x, bitmask: kk })
    } else if a == 0xD {
        Some(IntermediateAsm::DRW { reg_x_index: x, reg_y_index: y, nibble: d as u8 })
    } else if a == 0xE {
        if c == 9 && d == 0xE {
            Some(IntermediateAsm::SKP { reg_x_index: x })
        } else if c == 0xA && d == 1 {
            Some(IntermediateAsm::SKNP { reg_x_index: x })
        } else {
            None
        }
    } else if c == 0 && d == 7 {
        Some(IntermediateAsm::LOAD_DELAY_TIMER { reg_x_index: x })
    } else if c == 0 && d == 0xA {
        Some(IntermediateAsm::WAIT_FOR_KEY_PRESS { reg_x_index: x })
    } else if c == 1 && d == 5 {
        Some(IntermediateAsm::SET_DELAY_TIMER { reg_x_index: x })
    } else if c == 1 && d == 8 {
        Some(IntermediateAsm::SET_SOUND_TIMER { reg_x_index: x })
    } else if c == 1 && d == 0xE {
        Some(IntermediateAsm::ADD_I { reg_x_index: x })
    } else if c == 2 && d == 9 {
        Some(IntermediateAsm::LOAD_SPRITE_LOCATION { reg_x_index: x })
    } else if c == 3 && d == 3 {
        Some(IntermediateAsm::STORE_BCD { reg_x_index: x })
    } else if c == 5 && d == 5 {
        Some(IntermediateAsm::STORE_REG_ARR { reg_x_index: x })
    } else if c == 6 && d == 5 {
        Some(IntermediateAsm::LOAD_REG_ARR { reg_x_index: x })
    } else {
        None
    }
}

/// The big-endian word at `addr`.
pub open spec fn word_at(memory: Seq<u8>, addr: int) -> u16 {
    (memory[addr] as int * 256 + memory[addr + 1] as int) as u16
}

/// The address of the font glyph of hexadecimal digit `digit`.
pub open spec fn glyph_address(digit: int) -> int {
    5 * digit
}

/// The state with the program counter moved on by `n`.
pub open spec fn advance(s: MachineState, n: int) -> MachineState {
    MachineState { pc: (s.pc + n) as u16, ..s }
}

/// The state with register `x` set to `v`, then the program counter moved on.
pub open spec fn load(s: MachineState, x: int, v: u8) -> MachineState {
    advance(MachineState { regs: s.regs.update(x, v), ..s }, 2)
}

/// The state with register `x` set to `v` and then the flag register to `flag`,
/// then the program counter moved on.
pub open spec fn load_with_flag(s: MachineState, x: int, v: u8, flag: bool) -> MachineState {
    advance(MachineState { regs: s.regs.update(x, v).update(FLAG_REGISTER as int, if flag { 1u8 } else { 0u8 }), ..s }, 2)
}

/// The state with a skip taken when `cond` holds.
pub open spec fn skip_if(s: MachineState, cond: bool) -> MachineState {
    advance(s, if cond { 4 } else { 2 })
}

/// The registers after V0..=Vx are loaded from memory at I.
pub open spec fn loaded_registers(s: MachineState, x: int) -> Seq<u8> {
    Seq::new(REGISTER_COUNT as nat, |r: int| if r <= x { s.memory[s.i + r] } else { s.regs[r] })
}

/// The memory after V0..=Vx are stored at I.
pub open spec fn stored_registers(s: MachineState, x: int) -> Seq<u8> {
    Seq::new(MEMORY_SIZE as nat, |a: int| if s.i <= a <= s.i + x { s.regs[a - s.i] } else { s.memory[a] })
}

/// What executing `ins` does to the machine in state `s`; `rnd` is the byte
/// drawn for the random instruction. An error leaves the machine as it was.
pub open spec fn execute_spec(s: MachineState, ins: IntermediateAsm, rnd: u8) -> Result<MachineState, Chip8Error> {
    let pc = s.pc;
    if pc + 1 >= MEMORY_SIZE {
        Err(Chip8Error::OutOfBoundsAccess { pc })
    } else {
        match ins {
            IntermediateAsm::CLS => Ok(
                advance(MachineState { display: Seq::new(DISPLAY_SIZE as nat, |k: int| false), dirty: true, ..s }, 2),
            ),
            IntermediateAsm::RET => if s.sp == 0 {
                Err(Chip8Error::StackUnderflow { pc })
            } else {
                Ok(MachineState { pc: s.stack[s.sp as int], sp: (s.sp - 1) as u16, ..s })
            },
            IntermediateAsm::SYS { addr } => Err(Chip8Error::UnsupportedInstruction { pc, opcode: addr }),
            IntermediateAsm::JUMP { addr } => Ok(MachineState { pc: addr, ..s }),
            IntermediateAsm::CALL { addr } => if s.sp + 1 >= STACK_SIZE {
                Err(Chip8Error::StackOverflow { pc })
            } else {
                Ok(
                    MachineState {
                        sp: (s.sp + 1) as u16,
                        stack: s.stack.update(s.sp + 1, (pc + 2) as u16),
                        pc: addr,
                        ..s
                    },
                )
            },
            IntermediateAsm::SE_CONST { reg_index, constant } => Ok(skip_if(s, s.regs[reg_index as int] == constant)),
            IntermediateAsm::SNE_CONST { reg_index, constant } => Ok(skip_if(s, s.regs[reg_index as int] != constant)),
            IntermediateAsm::SE_REG { reg_x_index, reg_y_index } => Ok(
                skip_if(s, s.regs[reg_x_index as int] == s.regs[reg_y_index as int]),
            ),
            IntermediateAsm::LOAD_CONST { reg_index, constant } => Ok(load(s, reg_index as int, constant)),
            IntermediateAsm::ADD_CONST { reg_index, constant } => Ok(
                load(s, reg_index as int, ((s.regs[reg_index as int] + constant) % 256) as u8),
            ),
            IntermediateAsm::LOAD_REG { reg_x_index, reg_y_index } => Ok(
                load(s, reg_x_index as int, s.regs[reg_y_index as int]),
            ),
            IntermediateAsm::OR { reg_x_index, reg_y_index } => Ok(
                load(s, reg_x_index as int, s.regs[reg_x_index as int] | s.regs[reg_y_index as int]),
            ),
            IntermediateAsm::AND { reg_x_index, reg_y_index } => Ok(
                load(s, reg_x_index as int, s.regs[reg_x_index as int] & s.regs[reg_y_index as int]),
            ),
            IntermediateAsm::XOR { reg_x_index, reg_y_index } => Ok(
                load(s, reg_x_index as int, s.regs[reg_x_index as int] ^ s.regs[reg_y_index as int]),
            ),
            IntermediateAsm::ADD_REG { reg_x_index, reg_y_index } => {
                let sum = s.regs[reg_x_index as int] + s.regs[reg_y_index as int];
                Ok(load_with_flag(s, reg_x_index as int, (sum % 256) as u8, sum > 255))
            },
            IntermediateAsm::SUB_REG { reg_x_index, reg_y_index } => {
                let vx = s.regs[reg_x_index as int];
                let vy = s.regs[reg_y_index as int];
                Ok(load_with_flag(s, reg_x_index as int, ((vx - vy + 256) % 256) as u8, vx >= vy))
            },
            IntermediateAsm::SUBN { reg_x_index, reg_y_index } => {
                let vx = s.regs[reg_x_index as int];
                let vy = s.regs[reg_y_index as int];
                Ok(load_with_flag(s, reg_x_index as int, ((vy - vx + 256) % 256) as u8, vy >= vx))
            },
            IntermediateAsm::SHR { reg_x_index, reg_y_index } => {
                let vy = s.regs[reg_y_index as int];
                let shifted = (vy / 2) as u8;
                Ok(
                    load_with_flag(
                        MachineState { regs: s.regs.update(reg_y_index as int, shifted), ..s },
                        reg_x_index as int,
                        shifted,
                        vy % 2 == 1,
                    ),
                )
            },
            IntermediateAsm::SHL { reg_x_index, reg_y_index } => {
                let vy = s.regs[reg_y_index as int];
                let shifted = ((vy * 2) % 256) as u8;
                Ok(
                    load_with_flag(
                        MachineState { regs: s.regs.update(reg_y_index as int, shifted), ..s },
                        reg_x_index as int,
                        shifted,
                        vy >= 128,
                    ),
                )
            },
            IntermediateAsm::SNE_REG { reg_x_index, reg_y_index } => Ok(
                skip_if(s, s.regs[reg_x_index as int] != s.regs[reg_y_index as int]),
            ),
            IntermediateAsm::LOAD_ADDR { addr } => Ok(advance(MachineState { i: addr, ..s }, 2)),
            IntermediateAsm::JUMP_V0 { addr } => Ok(MachineState { pc: (addr + s.regs[0]) as u16, ..s }),
            IntermediateAsm::RND { reg_x_index, bitmask } => Ok(load(s, reg_x_index as int, rnd & bitmask)),
            IntermediateAsm::DRW { reg_x_index, reg_y_index, nibble } => if s.i + nibble > MEMORY_SIZE {
                Err(Chip8Error::OutOfBoundsAccess { pc })
            } else {
                let sprite = s.memory.subrange(s.i as int, s.i + nibble);
                let x = s.regs[reg_x_index as int] as int;
                let y = s.regs[reg_y_index as int] as int;
                Ok(
                    advance(
                        MachineState {
                            display: draw_pixels(s.display, x, y, sprite),
                            dirty: true,
                            regs: s.regs.update(
                                FLAG_REGISTER as int,
                                if draw_collision(s.display, x, y, sprite) { 1u8 } else { 0u8 },
                            ),
                            ..s
                        },
                        2,
                    ),
                )
            },
            IntermediateAsm::SKP { reg_x_index } => {
                let k = s.regs[reg_x_index as int];
                Ok(skip_if(s, k < KEY_COUNT && s.keys[k as int]))
            },
            IntermediateAsm::SKNP { reg_x_index } => {
                let k = s.regs[reg_x_index as int];
                Ok(skip_if(s, !(k < KEY_COUNT && s.keys[k as int])))
            },
            IntermediateAsm::LOAD_DELAY_TIMER { reg_x_index } => Ok(load(s, reg_x_index as int, s.delay)),
            IntermediateAsm::WAIT_FOR_KEY_PRESS { reg_x_index } => Ok(
                advance(MachineState { run: RunState::WaitingForKey { register: reg_x_index }, ..s }, 2),
            ),
            IntermediateAsm::SET_DELAY_TIMER { reg_x_index } => Ok(
                advance(MachineState { delay: s.regs[reg_x_index as int], ..s }, 2),
            ),
            IntermediateAsm::SET_SOUND_TIMER { reg_x_index } => Ok(
                advance(MachineState { sound: s.regs[reg_x_index as int], ..s }, 2),
            ),
            IntermediateAsm::ADD_I { reg_x_index } => Ok(
                advance(MachineState { i: ((s.i + s.regs[reg_x_index as int]) % 0x10000) as u16, ..s }, 2),
            ),
            IntermediateAsm::LOAD_SPRITE_LOCATION { reg_x_index } => Ok(
                advance(MachineState { i: glyph_address(s.regs[reg_x_index as int] as int % 16) as u16, ..s }, 2),
            ),
            IntermediateAsm::STORE_BCD { reg_x_index } => if s.i + 3 > MEMORY_SIZE {
                Err(Chip8Error::OutOfBoundsAccess { pc })
            } else {
                let v = s.regs[reg_x_index as int];
                Ok(
                    advance(
                        MachineState {
                            memory: s.memory.update(s.i as int, (v / 100) as u8).update(
                                s.i + 1,
                                ((v / 10) % 10) as u8,
                            ).update(s.i + 2, (v % 10) as u8),
                            ..s
                        },
                        2,
                    ),
                )
            },
            IntermediateAsm::STORE_REG_ARR { reg_x_index } => if s.i + reg_x_index + 1 > MEMORY_SIZE {
                Err(Chip8Error::OutOfBoundsAccess { pc })
            } else {
                Ok(advance(MachineState { memory: stored_registers(s, reg_x_index as int), ..s }, 2))
            },
            IntermediateAsm::LOAD_REG_ARR { reg_x_index } => if s.i + reg_x_index + 1 > MEMORY_SIZE {
                Err(Chip8Error::OutOfBoundsAccess { pc })
            } else {
                Ok(advance(MachineState { regs: loaded_registers(s, reg_x_index as int), ..s }, 2))
            },
        }
    }
}

/// The timers after one step: every ninth step both count down towards zero.
pub open spec fn tick(s: MachineState) -> MachineState {
    let divider = ((s.divider + 1) % TIMER_DIVIDER as int) as u8;
    if divider == 0 {
        MachineState {
            divider,
            delay: if s.delay > 0 { (s.delay - 1) as u8 } else { 0 },
            sound: if s.sound > 0 { (s.sound - 1) as u8 } else { 0 },
            ..s
        }
    } else {
        MachineState { divider, ..s }
    }
}

/// Decoding and executing the fetched word `op`, then a timer tick.
pub open spec fn run_opcode(s: MachineState, op: u16, rnd: u8) -> Result<MachineState, Chip8Error> {
    match decode_spec(op) {
        None => Err(Chip8Error::IllegalOpcode { pc: s.pc, opcode: op }),
        Some(ins) => match execute_spec(s, ins, rnd) {
            Ok(t) => Ok(tick(t)),
            Err(e) => Err(e),
        },
    }
}

/// One fetch-decode-execute cycle followed by a timer tick.
pub open spec fn cycle_spec(s: MachineState, rnd: u8) -> Result<MachineState, Chip8Error> {
    if s.pc + 1 >= MEMORY_SIZE {
        Err(Chip8Error::OutOfBoundsAccess { pc: s.pc })
    } else {
        run_opcode(s, word_at(s.memory, s.pc as int), rnd)
    }
}

/// Whether a call that returned `r` and left the machine in `after`, starting
/// from `before`, did what `outcome` prescribes; on an error nothing changed.
pub open spec fn follows(
    r: Result<(), Chip8Error>,
    before: MachineState,
    after: MachineState,
    outcome: Result<MachineState, Chip8Error>,
) -> bool {
    match outcome {
        Ok(t) => r is Ok && after == t,
        Err(e) => r == Err::<(), Chip8Error>(e) && after == before,
    }
}

/// Relies on rand::random: a byte drawn from the thread-local generator;
/// nothing is known of its value.
#[verifier::external_body]
pub(crate) fn random_byte() -> (r: u8) {
    rand::random::<u8>()
}

/// The registers, stack, timers and halt latch.
pub struct Chip8CPU {
    pub reg_gp: Vec<u8>,
    pub reg_i: u16,
    pub reg_delay: u8,
    pub reg_sound: u8,
    pub reg_pc: u16,
    pub reg_sp: u16,
    pub stack: Vec<u16>,
    pub timer_update_flag: u8,
    pub run_state: RunState,
}

/// The machine made of a CPU and a bus, as plain values.
pub open spec fn machine_state(cpu: &Chip8CPU, bus: &Chip8Bus) -> MachineState {
    MachineState {
        regs: cpu.reg_gp@,
        i: cpu.reg_i,
        pc: cpu.reg_pc,
        sp: cpu.reg_sp,
        stack: cpu.stack@,
        delay: cpu.reg_delay,
        sound: cpu.reg_sound,
        divider: cpu.timer_update_flag,
        run: cpu.run_state,
        memory: bus.memory.memory@,
        display: bus.graphics.memory@,
        dirty: bus.graphics.dirty,
        keys: bus.keypad.keys@,
    }
}

impl Chip8CPU {
    pub open spec fn wf(&self) -> bool {
        &&& self.reg_gp@.len() == REGISTER_COUNT
        &&& self.stack@.len() == STACK_SIZE
        &&& self.reg_sp < STACK_SIZE
        &&& self.timer_update_flag < TIMER_DIVIDER
        &&& match self.run_state {
            RunState::WaitingForKey { register } => register < REGISTER_COUNT,
            RunState::Running => true,
        }
    }

    /// A CPU at power-on: registers, timers and stack cleared, the program
    /// counter at the program start, running.
    pub fn new() -> (r: Chip8CPU)
        ensures
            r.wf(),
            r.reg_gp@ == Seq::new(REGISTER_COUNT as nat, |k: int| 0u8),
            r.stack@ == Seq::new(STACK_SIZE as nat, |k: int| 0u16),
            r.reg_i == 0,
            r.reg_pc == 0x200,
            r.reg_sp == 0,
            r.reg_delay == 0,
            r.reg_sound == 0,
            r.timer_update_flag == 0,
            r.run_state == RunState::Running,
    {
        let mut reg_gp: Vec<u8> = Vec::new();
        let mut stack: Vec<u16> = Vec::new();
        let mut k: usize = 0;
        while k < REGISTER_COUNT
            invariant
                k <= REGISTER_COUNT,
                reg_gp@.len() == k,
                stack@.len() == k,
                forall|j: int| 0 <= j < k ==> reg_gp@[j] == 0u8 && stack@[j] == 0u16,
            decreases REGISTER_COUNT - k,
        {
            reg_gp.push(0u8);
            stack.push(0u16);
            k = k + 1;
        }
        let r = Chip8CPU {
            reg_gp,
            reg_i: 0,
            reg_delay: 0,
            reg_sound: 0,
            reg_pc: 0x200,
            reg_sp: 0,
            stack,
            timer_update_flag: 0,
            run_state: RunState::Running,
        };
        assert(r.reg_gp@ =~= Seq::new(REGISTER_COUNT as nat, |k: int| 0u8));
        assert(r.stack@ =~= Seq::new(STACK_SIZE as nat, |k: int| 0u16));
        r
    }

    /// The big-endian opcode word at the program counter.
    pub fn fetch_opcode(&self, memory_ref: &Chip8Memory) -> (r: u16)
        requires
            memory_ref.wf(),
            self.reg_pc + 1 < MEMORY_SIZE,
        ensures
            r == word_at(memory_ref.memory@, self.reg_pc as int),
    {
        let hi = memory_ref.read_byte(self.reg_pc as usize);
        let lo = memory_ref.read_byte(self.reg_pc as usize + 1);
        hi as u16 * 256 + lo as u16
    }

    /// Decodes an opcode word; `None` when it matches no instruction. Decoding
    /// never changes the machine.
    pub fn decode_opcode(opcode: u16) -> (r: Option<IntermediateAsm>)
        ensures
            r == decode_spec(opcode),
            r matches Some(ins) ==> ins.wf(),
    {
        let a = (opcode >> 12u16) & 0xFu16;
        let b = (opcode >> 8u16) & 0xFu16;
        let c = (opcode >> 4u16) & 0xFu16;
        let d = opcode & 0xFu16;
        let kk = (opcode & 0xFFu16) as u8;
        let nnn = opcode & 0xFFFu16;
        assert(b < 16 && c < 16 && d < 16 && nnn < 0x1000 && (nnn == 0x0E0 ==> b == 0 && c == 0xE && d == 0)
            && (nnn == 0x0EE ==> b == 0 && c == 0xE && d == 0xE)) by (bit_vector)
            requires
                b == (opcode >> 8u16) & 0xFu16,
                c == (opcode >> 4u16) & 0xFu16,
                d == opcode & 0xFu16,
                nnn == opcode & 0xFFFu16,
        ;
        let x = b as u8;
        let y = c as u8;
        if a == 0 {
            if b == 0 && c == 0xE && d == 0 {
                Some(IntermediateAsm::CLS)
            } else if b == 0 && c == 0xE && d == 0xE {
                Some(IntermediateAsm::RET)
            } else {
                Some(IntermediateAsm::SYS { addr: nnn })
            }
        } else if a == 1 {
            Some(IntermediateAsm::JUMP { addr: nnn })
        } else if a == 2 {
            Some(IntermediateAsm::CALL { addr: nnn })
        } else if a == 3 {
            Some(IntermediateAsm::SE_CONST { reg_index: x, constant: kk })
        } else if a == 4 {
            Some(IntermediateAsm::SNE_CONST { reg_index: x, constant: kk })
        } else if a == 5 {
            if d == 0 {
                Some(IntermediateAsm::SE_REG { reg_x_index: x, reg_y_index: y })
            } else {
                None
            }
        } else if a == 6 {
            Some(IntermediateAsm::LOAD_CONST { reg_index: x, constant: kk })
        } else if a == 7 {
            Some(IntermediateAsm::ADD_CONST { reg_index: x, constant: kk })
        } else if a == 8 {
            if d == 0 {
                Some(IntermediateAsm::LOAD_REG { reg_x_index: x, reg_y_index: y })
            } else if d == 1 {
                Some(IntermediateAsm::OR { reg_x_index: x, reg_y_index: y })
            } else if d == 2 {
                Some(IntermediateAsm::AND { reg_x_index: x, reg_y_index: y })
            } else if d == 3 {
                Some(IntermediateAsm::XOR { reg_x_index: x, reg_y_index: y })
            } else if d == 4 {
                Some(IntermediateAsm::ADD_REG { reg_x_index: x, reg_y_index: y })
            } else if d == 5 {
                Some(IntermediateAsm::SUB_REG { reg_x_index: x, reg_y_index: y })
            } else if d == 6 {
                Some(IntermediateAsm::SHR { reg_x_index: x, reg_y_index: y })
            } else if d == 7 {
                Some(IntermediateAsm::SUBN { reg_x_index: x, reg_y_index: y })
            } else if d == 0xE {
                Some(IntermediateAsm::SHL { reg_x_index: x, reg_y_index: y })
            } else {
                None
            }
        } else if a == 9 {
            if d == 0 {
                Some(IntermediateAsm::SNE_REG { reg_x_index: x, reg_y_index: y })
            } else {
                None
            }
        } else if a == 0xA {
            Some(IntermediateAsm::LOAD_ADDR { addr: nnn })
        } else if a == 0xB {
            Some(IntermediateAsm::JUMP_V0 { addr: nnn })
        } else if a == 0xC {
            Some(IntermediateAsm::RND { reg_x_index: x, bitmask: kk })
        } else if a == 0xD {
            Some(IntermediateAsm::DRW { reg_x_index: x, reg_y_index: y, nibble: d as u8 })
        } else if a == 0xE {
            if c == 9 && d == 0xE {
                Some(IntermediateAsm::SKP { reg_x_index: x })
            } else if c == 0xA && d == 1 {
                Some(IntermediateAsm::SKNP { reg_x_index: x })
            } else {
                None
            }
        } else if c == 0 && d == 7 {
            Some(IntermediateAsm::LOAD_DELAY_TIMER { reg_x_index: x })
        } else if c == 0 && d == 0xA {
            Some(IntermediateAsm::WAIT_FOR_KEY_PRESS { reg_x_index: x })
        } else if c == 1 && d == 5 {
            Some(IntermediateAsm::SET_DELAY_TIMER { reg_x_index: x })
        } else if c == 1 && d == 8 {
            Some(IntermediateAsm::SET_SOUND_TIMER { reg_x_index: x })
        } else if c == 1 && d == 0xE {
            Some(IntermediateAsm::ADD_I { reg_x_index: x })
        } else if c == 2 && d == 9 {
            Some(IntermediateAsm::LOAD_SPRITE_LOCATION { reg_x_index: x })
        } else if c == 3 && d == 3 {
            Some(IntermediateAsm::STORE_BCD { reg_x_index: x })
        } else if c == 5 && d == 5 {
            Some(IntermediateAsm::STORE_REG_ARR { reg_x_index: x })
        } else if c == 6 && d == 5 {
            Some(IntermediateAsm::LOAD_REG_ARR { reg_x_index: x })
        } else {
            None
        }
    }

    /// Copies V0..=Vx to memory at I.
    fn store_registers(&self, memory_ref: &mut Chip8Memory, x: u8)
        requires
            self.wf(),
            old(memory_ref).wf(),
            x < 16,
            self.reg_i + x + 1 <= MEMORY_SIZE,
        ensures
            final(memory_ref).wf(),
            forall|a: int|
                0 <= a < MEMORY_SIZE ==> #[trigger] final(memory_ref).memory@[a] == if self.reg_i <= a <= self.reg_i
                    + x {
                    self.reg_gp@[a - self.reg_i]
                } else {
                    old(memory_ref).memory@[a]
                },
    {
        let ghost m0 = memory_ref.memory@;
        let base = self.reg_i as usize;
        let mut k: usize = 0;
        while k <= x as usize
            invariant
                self.wf(),
                memory_ref.wf(),
                m0.len() == MEMORY_SIZE,
                x < 16,
                base == self.reg_i,
                base + x + 1 <= MEMORY_SIZE,
                k <= x + 1,
                forall|a: int|
                    0 <= a < MEMORY_SIZE ==> #[trigger] memory_ref.memory@[a] == if base <= a < base + k {
                        self.reg_gp@[a - base]
                    } else {
                        m0[a]
                    },
            decreases x + 1 - k,
        {
            let v = self.reg_gp[k];
            memory_ref.write_byte(base + k, v);
            k = k + 1;
        }
    }

    /// Loads V0..=Vx from memory at I.
    fn load_registers(&mut self, memory_ref: &Chip8Memory, x: u8)
        requires
            old(self).wf(),
            memory_ref.wf(),
            x < 16,
            old(self).reg_i + x + 1 <= MEMORY_SIZE,
        ensures
            final(self).wf(),
            final(self).reg_gp@ == Seq::new(
                REGISTER_COUNT as nat,
                |r: int|
                    if r <= x {
                        memory_ref.memory@[old(self).reg_i + r]
                    } else {
                        old(self).reg_gp@[r]
                    },
            ),
            final(self).reg_i == old(self).reg_i,
            final(self).reg_pc == old(self).reg_pc,
            final(self).reg_sp == old(self).reg_sp,
            final(self).stack@ == old(self).stack@,
            final(self).reg_delay == old(self).reg_delay,
            final(self).reg_sound == old(self).reg_sound,
            final(self).timer_update_flag == old(self).timer_update_flag,
            final(self).run_state == old(self).run_state,
    {
        let ghost r0 = self.reg_gp@;
        let base = self.reg_i as usize;
        let mut k: usize = 0;
        while k <= x as usize
            invariant
                self.wf(),
                memory_ref.wf(),
                r0.len() == REGISTER_COUNT,
                x < 16,
                base == self.reg_i,
                base == old(self).reg_i,
                base + x + 1 <= MEMORY_SIZE,
                k <= x + 1,
                self.reg_pc == old(self).reg_pc,
                self.reg_sp == old(self).reg_sp,
                self.stack@ == old(self).stack@,
                self.reg_delay == old(self).reg_delay,
                self.reg_sound == old(self).reg_sound,
                self.timer_update_flag == old(self).timer_update_flag,
                self.run_state == old(self).run_state,
                r0 == old(self).reg_gp@,
                forall|r: int|
                    0 <= r < REGISTER_COUNT ==> #[trigger] self.reg_gp@[r] == if r < k {
                        memory_ref.memory@[base + r]
                    } else {
                        r0[r]
                    },
            decreases x + 1 - k,
        {
            let v = memory_ref.read_byte(base + k);
            self.reg_gp.set(k, v);
            k = k + 1;
        }
        assert(self.reg_gp@ =~= Seq::new(
            REGISTER_COUNT as nat,
            |r: int|
                if r <= x {
                    memory_ref.memory@[old(self).reg_i + r]
                } else {
                    old(self).reg_gp@[r]
                },
        ));
    }

    /// Executes one decoded instruction with `random_byte` as the byte drawn
    /// by the random instruction. On an error nothing changes.
    #[verifier::rlimit(30)]
    pub fn execute_with_random(&mut self, bus_ref: &mut Chip8Bus, instruction: IntermediateAsm, random_byte: u8) -> (r:
        Result<(), Chip8Error>)
        requires
            old(self).wf(),
            old(bus_ref).wf(),
            instruction.wf(),
        ensures
            final(self).wf(),
            final(bus_ref).wf(),
            follows(
                r,
                machine_state(old(self), old(bus_ref)),
                machine_state(final(self), final(bus_ref)),
                execute_spec(machine_state(old(self), old(bus_ref)), instruction, random_byte),
            ),
    {
        let ghost s0 = machine_state(self, bus_ref);
        let pc = self.reg_pc;
        let r: Result<(), Chip8Error> = if pc as usize + 1 >= MEMORY_SIZE {
            Err(Chip8Error::OutOfBoundsAccess { pc })
        } else {
            match instruction {
                IntermediateAsm::CLS => {
                    bus_ref.graphics.clear();
                    self.reg_pc = pc + 2;
                    Ok(())
                },
                IntermediateAsm::RET => {
                    if self.reg_sp == 0 {
                        Err(Chip8Error::StackUnderflow { pc })
                    } else {
                        self.reg_pc = self.stack[self.reg_sp as usize];
                        self.reg_sp = self.reg_sp - 1;
                        Ok(())
                    }
                },
                IntermediateAsm::SYS { addr } => Err(Chip8Error::UnsupportedInstruction { pc, opcode: addr }),
                IntermediateAsm::JUMP { addr } => {
                    self.reg_pc = addr;
                    Ok(())
                },
                IntermediateAsm::CALL { addr } => {
                    if self.reg_sp as usize + 1 >= STACK_SIZE {
                        Err(Chip8Error::StackOverflow { pc })
                    } else {
                        self.reg_sp = self.reg_sp + 1;
                        self.stack.set(self.reg_sp as usize, pc + 2);
                        self.reg_pc = addr;
                        Ok(())
                    }
                },
                IntermediateAsm::SE_CONST { reg_index, constant } => {
                    self.reg_pc = if self.reg_gp[reg_index as usize] == constant { pc + 4 } else { pc + 2 };
                    Ok(())
                },
                IntermediateAsm::SNE_CONST { reg_index, constant } => {
                    self.reg_pc = if self.reg_gp[reg_index as usize] != constant { pc + 4 } else { pc + 2 };
                    Ok(())
                },
                IntermediateAsm::SE_REG { reg_x_index, reg_y_index } => {
                    self.reg_pc = if self.reg_gp[reg_x_index as usize] == self.reg_gp[reg_y_index as usize] {
                        pc + 4
                    } else {
                        pc + 2
                    };
                    Ok(())
                },
                IntermediateAsm::LOAD_CONST { reg_index, constant } => {
                    self.reg_gp.set(reg_index as usize, constant);
                    self.reg_pc = pc + 2;
                    Ok(())
                },
                IntermediateAsm::ADD_CONST { reg_index, constant } => {
                    let v = self.reg_gp[reg_index as usize].wrapping_add(constant);
                    self.reg_gp.set(reg_index as usize, v);
                    self.reg_pc = pc + 2;
                    Ok(())
                },
                IntermediateAsm::LOAD_REG { reg_x_index, reg_y_index } => {
                    let v = self.reg_gp[reg_y_index as usize];
                    self.reg_gp.set(reg_x_index as usize, v);
                    self.reg_pc = pc + 2;
                    Ok(())
                },
                IntermediateAsm::OR { reg_x_index, reg_y_index } => {
                    let v = self.reg_gp[reg_x_index as usize] | self.reg_gp[reg_y_index as usize];
                    self.reg_gp.set(reg_x_index as usize, v);
                    self.reg_pc = pc + 2;
                    Ok(())
                },
                IntermediateAsm::AND { reg_x_index, reg_y_index } => {
                    let v = self.reg_gp[reg_x_index as usize] & self.reg_gp[reg_y_index as usize];
                    self.reg_gp.set(reg_x_index as usize, v);
                    self.reg_pc = pc + 2;
                    Ok(())
                },
                IntermediateAsm::XOR { reg_x_index, reg_y_index } => {
                    let v = self.reg_gp[reg_x_index as usize] ^ self.reg_gp[reg_y_index as usize];
                    self.reg_gp.set(reg_x_index as usize, v);
                    self.reg_pc = pc + 2;
                    Ok(())
                },
                IntermediateAsm::ADD_REG { reg_x_index, reg_y_index } => {
                    let sum: u16 = self.reg_gp[reg_x_index as usize] as u16 + self.reg_gp[reg_y_index as usize] as u16;
                    self.reg_gp.set(reg_x_index as usize, (sum % 256) as u8);
                    self.reg_gp.set(FLAG_REGISTER, if sum > 255 { 1 } else { 0 });
                    self.reg_pc = pc + 2;
                    Ok(())
                },
                IntermediateAsm::SUB_REG { reg_x_index, reg_y_index } => {
                    let vx = self.reg_gp[reg_x_index as usize];
                    let vy = self.reg_gp[reg_y_index as usize];
                    self.reg_gp.set(reg_x_index as usize, vx.wrapping_sub(vy));
                    self.reg_gp.set(FLAG_REGISTER, if vx >= vy { 1 } else { 0 });
                    self.reg_pc = pc + 2;
                    Ok(())
                },
                IntermediateAsm::SUBN { reg_x_index, reg_y_index } => {
                    let vx = self.reg_gp[reg_x_index as usize];
                    let vy = self.reg_gp[reg_y_index as usize];
                    self.reg_gp.set(reg_x_index as usize, vy.wrapping_sub(vx));
                    self.reg_gp.set(FLAG_REGISTER, if vy >= vx { 1 } else { 0 });
                    self.reg_pc = pc + 2;
                    Ok(())
                },
                IntermediateAsm::SHR { reg_x_index, reg_y_index } => {
                    let vy = self.reg_gp[reg_y_index as usize];
                    let shifted = vy / 2;
                    self.reg_gp.set(reg_y_index as usize, shifted);
                    self.reg_gp.set(reg_x_index as usize, shifted);
                    self.reg_gp.set(FLAG_REGISTER, vy % 2);
                    self.reg_pc = pc + 2;
                    Ok(())
                },
                IntermediateAsm::SHL { reg_x_index, reg_y_index } => {
                    let vy = self.reg_gp[reg_y_index as usize];
                    let shifted = ((vy as u16 * 2) % 256) as u8;
                    self.reg_gp.set(reg_y_index as usize, shifted);
                    self.reg_gp.set(reg_x_index as usize, shifted);
                    self.reg_gp.set(FLAG_REGISTER, if vy >= 128 { 1 } else { 0 });
                    self.reg_pc = pc + 2;
                    Ok(())
                },
                IntermediateAsm::SNE_REG { reg_x_index, reg_y_index } => {
                    self.reg_pc = if self.reg_gp[reg_x_index as usize] != self.reg_gp[reg_y_index as usize] {
                        pc + 4
                    } else {
                        pc + 2
                    };
                    Ok(())
                },
                IntermediateAsm::LOAD_ADDR { addr } => {
                    self.reg_i = addr;
                    self.reg_pc = pc + 2;
                    Ok(())
                },
                IntermediateAsm::JUMP_V0 { addr } => {
                    self.reg_pc = addr + self.reg_gp[0] as u16;
                    Ok(())
                },
                IntermediateAsm::RND { reg_x_index, bitmask } => {
                    self.reg_gp.set(reg_x_index as usize, random_byte & bitmask);
                    self.reg_pc = pc + 2;
                    Ok(())
                },
                IntermediateAsm::DRW { reg_x_index, reg_y_index, nibble } => {
                    if self.reg_i as usize + nibble as usize > MEMORY_SIZE {
                        Err(Chip8Error::OutOfBoundsAccess { pc })
                    } else {
                        let x = self.reg_gp[reg_x_index as usize];
                        let y = self.reg_gp[reg_y_index as usize];
                        let collision = bus_ref.graphics.draw_sprite(
                            &bus_ref.memory.memory,
                            x as usize,
                            y as usize,
                            self.reg_i,
                            nibble,
                        );
                        self.reg_gp.set(FLAG_REGISTER, if collision { 1 } else { 0 });
                        self.reg_pc = pc + 2;
                        Ok(())
                    }
                },
                IntermediateAsm::SKP { reg_x_index } => {
                    let k = self.reg_gp[reg_x_index as usize];
                    self.reg_pc = if (k as usize) < KEY_COUNT && bus_ref.keypad.is_pressed(k) {
                        pc + 4
                    } else {
                        pc + 2
                    };
                    Ok(())
                },
                IntermediateAsm::SKNP { reg_x_index } => {
                    let k = self.reg_gp[reg_x_index as usize];
                    self.reg_pc = if (k as usize) < KEY_COUNT && bus_ref.keypad.is_pressed(k) {
                        pc + 2
                    } else {
                        pc + 4
                    };
                    Ok(())
                },
                IntermediateAsm::LOAD_DELAY_TIMER { reg_x_index } => {
                    self.reg_gp.set(reg_x_index as usize, self.reg_delay);
                    self.reg_pc = pc + 2;
                    Ok(())
                },
                IntermediateAsm::WAIT_FOR_KEY_PRESS { reg_x_index } => {
                    self.run_state = RunState::WaitingForKey { register: reg_x_index };
                    self.reg_pc = pc + 2;
                    Ok(())
                },
                IntermediateAsm::SET_DELAY_TIMER { reg_x_index } => {
                    self.reg_delay = self.reg_gp[reg_x_index as usize];
                    self.reg_pc = pc + 2;
                    Ok(())
                },
                IntermediateAsm::SET_SOUND_TIMER { reg_x_index } => {
                    self.reg_sound = self.reg_gp[reg_x_index as usize];
                    self.reg_pc = pc + 2;
                    Ok(())
                },
                IntermediateAsm::ADD_I { reg_x_index } => {
                    self.reg_i = self.reg_i.wrapping_add(self.reg_gp[reg_x_index as usize] as u16);
                    self.reg_pc = pc + 2;
                    Ok(())
                },
                IntermediateAsm::LOAD_SPRITE_LOCATION { reg_x_index } => {
                    self.reg_i = Self::sprite_location(self.reg_gp[reg_x_index as usize] % 16);
                    self.reg_pc = pc + 2;
                    Ok(())
                },
                IntermediateAsm::STORE_BCD { reg_x_index } => {
                    if self.reg_i as usize + 3 > MEMORY_SIZE {
                        Err(Chip8Error::OutOfBoundsAccess { pc })
                    } else {
                        let v = self.reg_gp[reg_x_index as usize];
                        let base = self.reg_i as usize;
                        bus_ref.memory.write_byte(base, v / 100);
                        bus_ref.memory.write_byte(base + 1, (v / 10) % 10);
                        bus_ref.memory.write_byte(base + 2, v % 10);
                        self.reg_pc = pc + 2;
                        Ok(())
                    }
                },
                IntermediateAsm::STORE_REG_ARR { reg_x_index } => {
                    if self.reg_i as usize + reg_x_index as usize + 1 > MEMORY_SIZE {
                        Err(Chip8Error::OutOfBoundsAccess { pc })
                    } else {
                        self.store_registers(&mut bus_ref.memory, reg_x_index);
                        self.reg_pc = pc + 2;
                        Ok(())
                    }
                },
                IntermediateAsm::LOAD_REG_ARR { reg_x_index } => {
                    if self.reg_i as usize + reg_x_index as usize + 1 > MEMORY_SIZE {
                        Err(Chip8Error::OutOfBoundsAccess { pc })
                    } else {
                        self.load_registers(&bus_ref.memory, reg_x_index);
                        self.reg_pc = pc + 2;
                        Ok(())
                    }
                },
            }
        };
        proof {
            match execute_spec(s0, instruction, random_byte) {
                Ok(t) => {
                    assert(machine_state(self, bus_ref) =~= t);
                },
                Err(e) => {
                    assert(machine_state(self, bus_ref) =~= s0);
                },
            }
        }
        r
    }

    /// Draws a random byte and executes one decoded instruction with it. On an
    /// error nothing changes.
    pub fn execute_opcode(&mut self, bus_ref: &mut Chip8Bus, instruction: IntermediateAsm) -> (r: Result<
        (),
        Chip8Error,
    >)
        requires
            old(self).wf(),
            old(bus_ref).wf(),
            instruction.wf(),
        ensures
            final(self).wf(),
            final(bus_ref).wf(),
            exists|b: u8|
                follows(
                    r,
                    machine_state(old(self), old(bus_ref)),
                    machine_state(final(self), final(bus_ref)),
                    #[trigger] execute_spec(machine_state(old(self), old(bus_ref)), instruction, b),
                ),
    {
        let b = random_byte();
        self.execute_with_random(bus_ref, instruction, b)
    }

    /// Advances the timer divider; every ninth call both timers count down
    /// by one unless already zero.
    pub fn update_timer(&mut self)
        requires
            old(self).wf(),
        ensures
            final(self).wf(),
            final(self).timer_update_flag == (old(self).timer_update_flag + 1) % TIMER_DIVIDER as int,
            final(self).reg_delay == if final(self).timer_update_flag == 0 && old(self).reg_delay > 0 {
                old(self).reg_delay - 1
            } else {
                old(self).reg_delay as int
            },
            final(self).reg_sound == if final(self).timer_update_flag == 0 && old(self).reg_sound > 0 {
                old(self).reg_sound - 1
            } else {
                old(self).reg_sound as int
            },
            final(self).reg_gp == old(self).reg_gp,
            final(self).stack == old(self).stack,
            final(self).reg_i == old(self).reg_i,
            final(self).reg_pc == old(self).reg_pc,
            final(self).reg_sp == old(self).reg_sp,
            final(self).run_state == old(self).run_state,
    {
        self.timer_update_flag = (self.timer_update_flag + 1) % TIMER_DIVIDER;
        if self.timer_update_flag == 0 {
            if self.reg_delay > 0 {
                self.reg_delay = self.reg_delay - 1;
            }
            if self.reg_sound > 0 {
                self.reg_sound = self.reg_sound - 1;
            }
        }
    }

    /// One fetch-decode-execute cycle with `random_byte` for the random
    /// instruction, then a timer tick. On an error nothing changes.
    pub fn cycle(&mut self, bus_ref: &mut Chip8Bus, random_byte: u8) -> (r: Result<(), Chip8Error>)
        requires
            old(self).wf(),
            old(bus_ref).wf(),
        ensures
            final(self).wf(),
            final(bus_ref).wf(),
            follows(
                r,
                machine_state(old(self), old(bus_ref)),
                machine_state(final(self), final(bus_ref)),
                cycle_spec(machine_state(old(self), old(bus_ref)), random_byte),
            ),
    {
        let ghost s0 = machine_state(self, bus_ref);
        let pc = self.reg_pc;
        if pc as usize + 1 >= MEMORY_SIZE {
            return Err(Chip8Error::OutOfBoundsAccess { pc });
        }
        let opcode = self.fetch_opcode(&bus_ref.memory);
        match Self::decode_opcode(opcode) {
            None => Err(Chip8Error::IllegalOpcode { pc, opcode }),
            Some(instruction) => {
                let r = self.execute_with_random(bus_ref, instruction, random_byte);
                if r.is_ok() {
                    let ghost s1 = machine_state(self, bus_ref);
                    self.update_timer();
                    assert(machine_state(self, bus_ref) =~= tick(s1));
                }
                r
            },
        }
    }

    /// One fetch-decode-execute cycle with a freshly drawn random byte, then a
    /// timer tick. On an error nothing changes.
    pub fn step(&mut self, bus_ref: &mut Chip8Bus) -> (r: Result<(), Chip8Error>)
        requires
            old(self).wf(),
            old(bus_ref).wf(),
        ensures
            final(self).wf(),
            final(bus_ref).wf(),
            exists|b: u8|
                follows(
                    r,
                    machine_state(old(self), old(bus_ref)),
                    machine_state(final(self), final(bus_ref)),
                    #[trigger] cycle_spec(machine_state(old(self), old(bus_ref)), b),
                ),
    {
        let b = random_byte();
        self.cycle(bus_ref, b)
    }

    /// The address of the font glyph of hexadecimal digit `digit`.
    pub fn sprite_location(digit: u8) -> (r: u16)
        requires
            digit < 16,
        ensures
            r == glyph_address(digit as int),
    {
        5 * digit as u16
    }
}

/// The nibbles of the word `word_of(a, b, c, d)` are a, b, c and d.
proof fn lemma_word_nibbles(a: int, b: int, c: int, d: int)
    requires
        0 <= a < 16,
        0 <= b < 16,
        0 <= c < 16,
        0 <= d < 16,
    ensures
        word_of(a, b, c, d) / 0x1000 == a,
        (word_of(a, b, c, d) / 0x100) % 16 == b,
        (word_of(a, b, c, d) / 0x10) % 16 == c,
        word_of(a, b, c, d) % 16 == d,
        word_of(a, b, c, d) % 0x100 == c * 16 + d,
        word_of(a, b, c, d) % 0x1000 == b * 0x100 + c * 16 + d,
{
    let w = word_of(a, b, c, d);
    vstd::arithmetic::div_mod::lemma_fundamental_div_mod_converse(w, 0x1000, a, b * 0x100 + c * 16 + d);
    vstd::arithmetic::div_mod::lemma_fundamental_div_mod_converse(w, 0x100, a * 16 + b, c * 16 + d);
    vstd::arithmetic::div_mod::lemma_fundamental_div_mod_converse(a * 16 + b, 16, a, b);
    vstd::arithmetic::div_mod::lemma_fundamental_div_mod_converse(w, 0x10, a * 0x100 + b * 16 + c, d);
    vstd::arithmetic::div_mod::lemma_fundamental_div_mod_converse(a * 0x100 + b * 16 + c, 16, a * 16 + b, c);
}

/// The masks and shifts that pick fields out of an opcode word, as arithmetic.
proof fn lemma_fields(op: u16)
    ensures
        (op >> 12u16) & 0xFu16 == op / 0x1000,
        (op >> 8u16) & 0xFu16 == (op / 0x100) % 16,
        (op >> 4u16) & 0xFu16 == (op / 0x10) % 16,
        op & 0xFu16 == op % 16,
        op & 0xFFu16 == op % 0x100,
        op & 0xFFFu16 == op % 0x1000,
{
    assert((op >> 12u16) & 0xFu16 == op / 0x1000) by (bit_vector);
    assert((op >> 8u16) & 0xFu16 == (op / 0x100) % 16) by (bit_vector);
    assert((op >> 4u16) & 0xFu16 == (op / 0x10) % 16) by (bit_vector);
    assert(op & 0xFu16 == op % 16) by (bit_vector);
    assert(op & 0xFFu16 == op % 0x100) by (bit_vector);
    assert(op & 0xFFFu16 == op % 0x1000) by (bit_vector);
}

/// Decoding inverts encoding: every well-formed instruction decodes from its
/// own opcode word.
pub proof fn lemma_decode_encode(ins: IntermediateAsm)
    requires
        ins.wf(),
    ensures
        0 <= encode(ins) < 0x10000,
        decode_spec(encode(ins) as u16) == Some(ins),
{
    let op = encode(ins) as u16;
    match ins {
        IntermediateAsm::CLS => lemma_word_nibbles(0, 0, 0xE, 0),
        IntermediateAsm::RET => lemma_word_nibbles(0, 0, 0xE, 0xE),
        IntermediateAsm::SYS { addr }
        | IntermediateAsm::JUMP { addr }
        | IntermediateAsm::CALL { addr }
        | IntermediateAsm::LOAD_ADDR { addr }
        | IntermediateAsm::JUMP_V0 { addr } => {
            let b = addr / 0x100;
            let c = (addr / 0x10) % 16;
            let d = addr % 16;
            vstd::arithmetic::div_mod::lemma_fundamental_div_mod(addr as int, 0x100);
            vstd::arithmetic::div_mod::lemma_fundamental_div_mod((addr % 0x100) as int, 0x10);
            vstd::arithmetic::div_mod::lemma_fundamental_div_mod(addr as int, 0x10);
            vstd::arithmetic::div_mod::lemma_fundamental_div_mod((addr / 0x10) as int, 0x10);
            assert(addr == b * 0x100 + c * 16 + d);
            assert(encode(ins) == word_of(encode(ins) / 0x1000, b as int, c as int, d as int));
            lemma_word_nibbles(encode(ins) / 0x1000, b as int, c as int, d as int);
        },
        IntermediateAsm::SE_CONST { reg_index, constant }
        | IntermediateAsm::SNE_CONST { reg_index, constant }
        | IntermediateAsm::LOAD_CONST { reg_index, constant }
        | IntermediateAsm::ADD_CONST { reg_index, constant } => {
            vstd::arithmetic::div_mod::lemma_fundamental_div_mod(constant as int, 0x10);
            lemma_word_nibbles(encode(ins) / 0x1000, reg_index as int, constant as int / 16, constant as int % 16);
        },
        IntermediateAsm::RND { reg_x_index, bitmask } => {
            vstd::arithmetic::div_mod::lemma_fundamental_div_mod(bitmask as int, 0x10);
            lemma_word_nibbles(0xC, reg_x_index as int, bitmask as int / 16, bitmask as int % 16);
        },
        IntermediateAsm::SE_REG { reg_x_index, reg_y_index } => lemma_word_nibbles(5, reg_x_index as int, reg_y_index as int, 0),
        IntermediateAsm::LOAD_REG { reg_x_index, reg_y_index } => lemma_word_nibbles(8, reg_x_index as int, reg_y_index as int, 0),
        IntermediateAsm::OR { reg_x_index, reg_y_index } => lemma_word_nibbles(8, reg_x_index as int, reg_y_index as int, 1),
        IntermediateAsm::AND { reg_x_index, reg_y_index } => lemma_word_nibbles(8, reg_x_index as int, reg_y_index as int, 2),
        IntermediateAsm::XOR { reg_x_index, reg_y_index } => lemma_word_nibbles(8, reg_x_index as int, reg_y_index as int, 3),
        IntermediateAsm::ADD_REG { reg_x_index, reg_y_index } => lemma_word_nibbles(8, reg_x_index as int, reg_y_index as int, 4),
        IntermediateAsm::SUB_REG { reg_x_index, reg_y_index } => lemma_word_nibbles(8, reg_x_index as int, reg_y_index as int, 5),
        IntermediateAsm::SHR { reg_x_index, reg_y_index } => lemma_word_nibbles(8, reg_x_index as int, reg_y_index as int, 6),
        IntermediateAsm::SUBN { reg_x_index, reg_y_index } => lemma_word_nibbles(8, reg_x_index as int, reg_y_index as int, 7),
        IntermediateAsm::SHL { reg_x_index, reg_y_index } => lemma_word_nibbles(8, reg_x_index as int, reg_y_index as int, 0xE),
        IntermediateAsm::SNE_REG { reg_x_index, reg_y_index } => lemma_word_nibbles(9, reg_x_index as int, reg_y_index as int, 0),
        IntermediateAsm::DRW { reg_x_index, reg_y_index, nibble } => lemma_word_nibbles(
            0xD,
            reg_x_index as int,
            reg_y_index as int,
            nibble as int,
        ),
        IntermediateAsm::SKP { reg_x_index } => lemma_word_nibbles(0xE, reg_x_index as int, 9, 0xE),
        IntermediateAsm::SKNP { reg_x_index } => lemma_word_nibbles(0xE, reg_x_index as int, 0xA, 1),
        IntermediateAsm::LOAD_DELAY_TIMER { reg_x_index } => lemma_word_nibbles(0xF, reg_x_index as int, 0, 7),
        IntermediateAsm::WAIT_FOR_KEY_PRESS { reg_x_index } => lemma_word_nibbles(0xF, reg_x_index as int, 0, 0xA),
        IntermediateAsm::SET_DELAY_TIMER { reg_x_index } => lemma_word_nibbles(0xF, reg_x_index as int, 1, 5),
        IntermediateAsm::SET_SOUND_TIMER { reg_x_index } => lemma_word_nibbles(0xF, reg_x_index as int, 1, 8),
        IntermediateAsm::ADD_I { reg_x_index } => lemma_word_nibbles(0xF, reg_x_index as int, 1, 0xE),
        IntermediateAsm::LOAD_SPRITE_LOCATION { reg_x_index } => lemma_word_nibbles(0xF, reg_x_index as int, 2, 9),
        IntermediateAsm::STORE_BCD { reg_x_index } => lemma_word_nibbles(0xF, reg_x_index as int, 3, 3),
        IntermediateAsm::STORE_REG_ARR { reg_x_index } => lemma_word_nibbles(0xF, reg_x_index as int, 5, 5),
        IntermediateAsm::LOAD_REG_ARR { reg_x_index } => lemma_word_nibbles(0xF, reg_x_index as int, 6, 5),
    }
    lemma_fields(op);
}

/// Encoding inverts decoding: a word that decodes to an instruction is that
/// instruction's opcode word, and the instruction is well formed.
pub proof fn lemma_encode_decode(op: u16)
    requires
        decode_spec(op) is Some,
    ensures
        decode_spec(op).unwrap().wf(),
        encode(decode_spec(op).unwrap()) == op,
{
    lemma_fields(op);
    let a = op / 0x1000;
    let b = (op / 0x100) % 16;
    let c = (op / 0x10) % 16;
    let d = op % 16;
    vstd::arithmetic::div_mod::lemma_fundamental_div_mod(op as int, 0x1000);
    vstd::arithmetic::div_mod::lemma_fundamental_div_mod(op as int, 0x100);
    vstd::arithmetic::div_mod::lemma_fundamental_div_mod(op as int, 0x10);
    vstd::arithmetic::div_mod::lemma_fundamental_div_mod((op / 0x100) as int, 16);
    vstd::arithmetic::div_mod::lemma_fundamental_div_mod((op / 0x10) as int, 16);
    vstd::arithmetic::div_mod::lemma_div_denominator(op as int, 0x10, 0x10);
    vstd::arithmetic::div_mod::lemma_div_denominator(op as int, 0x100, 0x10);
    assert(op == word_of(a as int, b as int, c as int, d as int));
    lemma_word_nibbles(a as int, b as int, c as int, d as int);
}

/// A call followed by a return resumes right after the call, at the
/// stack depth from before the call.
pub proof fn lemma_call_then_return(s: MachineState, addr: u16, rnd: u8)
    requires
        s.wf(),
        s.run == RunState::Running,
        s.pc + 1 < MEMORY_SIZE,
        s.sp + 1 < STACK_SIZE,
        addr + 1 < MEMORY_SIZE,
    ensures
        execute_spec(s, IntermediateAsm::CALL { addr }, rnd) is Ok,
        execute_spec(s, IntermediateAsm::CALL { addr }, rnd).unwrap().pc == addr,
        execute_spec(s, IntermediateAsm::CALL { addr }, rnd).unwrap().sp == s.sp + 1,
        execute_spec(s, IntermediateAsm::CALL { addr }, rnd).unwrap().stack[s.sp + 1] == s.pc + 2,
        execute_spec(execute_spec(s, IntermediateAsm::CALL { addr }, rnd).unwrap(), IntermediateAsm::RET, rnd) is Ok,
        execute_spec(
            execute_spec(s, IntermediateAsm::CALL { addr }, rnd).unwrap(),
            IntermediateAsm::RET,
            rnd,
        ).unwrap().pc == s.pc + 2,
        execute_spec(
            execute_spec(s, IntermediateAsm::CALL { addr }, rnd).unwrap(),
            IntermediateAsm::RET,
            rnd,
        ).unwrap().sp == s.sp,
{
}

/// A word that decodes to no instruction stops the cycle with an illegal
/// opcode error that carries the program counter and the word.
pub proof fn lemma_illegal_opcode(s: MachineState, rnd: u8)
    requires
        s.pc + 1 < MEMORY_SIZE,
        decode_spec(word_at(s.memory, s.pc as int)) is None,
    ensures
        cycle_spec(s, rnd) == Err::<MachineState, Chip8Error>(
            Chip8Error::IllegalOpcode { pc: s.pc, opcode: word_at(s.memory, s.pc as int) },
        ),
{
}

} // verus!
