//! Decoding the current opcode and dispatching it to its instruction.

use vstd::prelude::*;
use crate::display::{C8_WIDTH, C8_HEIGHT};
use crate::sprite::fits_screen;
use crate::cpu::{
    CPU, CpuView, MEMORY_SIZE, op_kind, op_n, field_kind, field_n, field_nnn, field_x, field_y,
    field_kk,
};

verus! {

/// The instructions that the emulator dispatches.
#[derive(Clone, Copy, Debug, PartialEq, Eq, Structural)]
pub enum Instruction {
    /// `00E0`
    ClearScreen,
    /// `00EE`
    Return,
    /// `1nnn`
    Jump,
    /// `2nnn`
    Call,
    /// `3xkk`
    SkipIfEqualByte,
    /// `4xkk`
    SkipIfNotEqualByte,
    /// `5xy0`
    SkipIfEqualRegister,
    /// `6xkk`
    LoadByte,
    /// `7xkk`
    AddByte,
    /// `8xy0`
    LoadRegister,
    /// `8xy1`
    Or,
    /// `8xy2`
    And,
    /// `8xy3`
    Xor,
    /// `8xy4`
    AddRegister,
    /// `Annn`
    LoadIndex,
    /// `Dxyn`
    Draw,
    /// Any other opcode: only the next instruction is fetched.
    Unknown,
}

/// What the surroundings of the machine have to do after an instruction.
#[derive(Clone, Copy, Debug, PartialEq, Eq, Structural)]
pub enum Effect {
    /// Nothing.
    Nothing,
    /// Clear the window.
    ClearScreen,
    /// Show the lit pixels of the screen.
    Redraw,
}

/// The instruction that opcode `op` stands for.
pub open spec fn instruction_of(op: u16) -> Instruction {
    let kind = op_kind(op);
    let n = op_n(op);
    if op == 0x00E0 {
        Instruction::ClearScreen
    } else if op == 0x00EE {
        Instruction::Return
    } else if kind == 0x1 {
        Instruction::Jump
    } else if kind == 0x2 {
        Instruction::Call
    } else if kind == 0x3 {
        Instruction::SkipIfEqualByte
    } else if kind == 0x4 {
        Instruction::SkipIfNotEqualByte
    } else if kind == 0x5 && n == 0x0 {
        Instruction::SkipIfEqualRegister
    } else if kind == 0x6 {
        Instruction::LoadByte
    } else if kind == 0x7 {
        Instruction::AddByte
    } else if kind == 0x8 && n == 0x0 {
        Instruction::LoadRegister
    } else if kind == 0x8 && n == 0x1 {
        Instruction::Or
    } else if kind == 0x8 && n == 0x2 {
        Instruction::And
    } else if kind == 0x8 && n == 0x3 {
        Instruction::Xor
    } else if kind == 0x8 && n == 0x4 {
        Instruction::AddRegister
    } else if kind == 0xA {
        Instruction::LoadIndex
    } else if kind == 0xD {
        Instruction::Draw
    } else {
        Instruction::Unknown
    }
}

/// What the surroundings have to do after instruction `i`.
pub open spec fn effect_of(i: Instruction) -> Effect {
    match i {
        Instruction::ClearScreen => Effect::ClearScreen,
        Instruction::Draw => Effect::Redraw,
        _ => Effect::Nothing,
    }
}

impl CpuView {
    /// Whether the current instruction can run without leaving memory or an empty stack.
    pub open spec fn executable(self) -> bool {
        match instruction_of(self.opcode) {
            Instruction::Return => self.can_return(),
            Instruction::Jump => self.can_jump(),
            Instruction::Call => self.can_call(),
            Instruction::SkipIfEqualByte => self.can_skip_if(self.vx_equals_kk()),
            Instruction::SkipIfNotEqualByte => self.can_skip_if(!self.vx_equals_kk()),
            Instruction::SkipIfEqualRegister => self.can_skip_if(self.vx() == self.vy()),
            Instruction::Draw => self.can_read_sprite() && self.sprite_fits_screen()
                && self.can_fetch(),
            _ => self.can_fetch(),
        }
    }

    /// The machine after running the current instruction.
    pub open spec fn after_execute(self) -> CpuView {
        match instruction_of(self.opcode) {
            Instruction::ClearScreen => self.after_00e0(),
            Instruction::Return => self.after_00ee(),
            Instruction::Jump => self.after_1nnn(),
            Instruction::Call => self.after_2nnn(),
            Instruction::SkipIfEqualByte => self.after_3xkk(),
            Instruction::SkipIfNotEqualByte => self.after_4xkk(),
            Instruction::SkipIfEqualRegister => self.after_5xy0(),
            Instruction::LoadByte => self.after_6xnn(),
            Instruction::AddByte => self.after_7xnn(),
            Instruction::LoadRegister => self.after_8xy0(),
            Instruction::Or => self.after_8xy1(),
            Instruction::And => self.after_8xy2(),
            Instruction::Xor => self.after_8xy3(),
            Instruction::AddRegister => self.after_8xy4(),
            Instruction::LoadIndex => self.after_annn(),
            Instruction::Draw => self.after_dxyn(),
            Instruction::Unknown => self.fetch(),
        }
    }
}

/// Decode an opcode by its nibbles.
pub fn decode(opcode: u16) -> (r: Instruction)
    ensures
        r == instruction_of(opcode),
{
    let kind = field_kind(opcode);
    let n = field_n(opcode);
    if opcode == 0x00E0 {
        Instruction::ClearScreen
    } else if opcode == 0x00EE {
        Instruction::Return
    } else if kind == 0x1 {
        Instruction::Jump
    } else if kind == 0x2 {
        Instruction::Call
    } else if kind == 0x3 {
        Instruction::SkipIfEqualByte
    } else if kind == 0x4 {
        Instruction::SkipIfNotEqualByte
    } else if kind == 0x5 && n == 0x0 {
        Instruction::SkipIfEqualRegister
    } else if kind == 0x6 {
        Instruction::LoadByte
    } else if kind == 0x7 {
        Instruction::AddByte
    } else if kind == 0x8 && n == 0x0 {
        Instruction::LoadRegister
    } else if kind == 0x8 && n == 0x1 {
        Instruction::Or
    } else if kind == 0x8 && n == 0x2 {
        Instruction::And
    } else if kind == 0x8 && n == 0x3 {
        Instruction::Xor
    } else if kind == 0x8 && n == 0x4 {
        Instruction::AddRegister
    } else if kind == 0xA {
        Instruction::LoadIndex
    } else if kind == 0xD {
        Instruction::Draw
    } else {
        Instruction::Unknown
    }
}

impl CPU {
    /// Whether the current instruction can run: the test that `execute` requires.
    pub fn can_execute(&self) -> (r: bool)
        ensures
            r == self@.executable(),
    {
        let last: usize = MEMORY_SIZE - 1;
        match decode(self.opcode) {
            Instruction::Return => {
                let len = self.stack.len();
                len > 0 && self.sp >= 1 && self.stack[len - 1] < last
            },
            Instruction::Jump => (field_nnn(self.opcode) as usize) < last,
            Instruction::Call => (field_nnn(self.opcode) as usize) < last && self.sp < usize::MAX,
            Instruction::SkipIfEqualByte => {
                if self.registers[field_x(self.opcode)] == field_kk(self.opcode) {
                    self.pc < MEMORY_SIZE - 3
                } else {
                    self.pc < last
                }
            },
            Instruction::SkipIfNotEqualByte => {
                if self.registers[field_x(self.opcode)] != field_kk(self.opcode) {
                    self.pc < MEMORY_SIZE - 3
                } else {
                    self.pc < last
                }
            },
            Instruction::SkipIfEqualRegister => {
                if self.registers[field_x(self.opcode)] == self.registers[field_y(self.opcode)] {
                    self.pc < MEMORY_SIZE - 3
                } else {
                    self.pc < last
                }
            },
            Instruction::Draw => {
                let n = field_n(self.opcode);
                let x0: u32 = (self.registers[field_x(self.opcode)] % C8_WIDTH) as u32;
                let y0: u32 = (self.registers[field_y(self.opcode)] % C8_HEIGHT) as u32;
                (n == 0 || (self.index as usize) + (n as usize) <= MEMORY_SIZE) && fits_screen(
                    self.display.width,
                    x0,
                    y0,
                    n,
                ) && self.pc < last
            },
            _ => self.pc < last,
        }
    }

    /// Run the current instruction, as decoded from `opcode`, and say what the window needs.
    pub fn execute(&mut self) -> (e: Effect)
        requires
            old(self)@.executable(),
        ensures
            final(self)@ == old(self)@.after_execute(),
            e == effect_of(instruction_of(old(self)@.opcode)),
    {
        match decode(self.opcode) {
            Instruction::ClearScreen => {
                self.op_00e0();
                Effect::ClearScreen
            },
            Instruction::Return => {
                self.op_00ee();
                Effect::Nothing
            },
            Instruction::Jump => {
                self.op_1nnn();
                Effect::Nothing
            },
            Instruction::Call => {
                self.op_2nnn();
                Effect::Nothing
            },
            Instruction::SkipIfEqualByte => {
                self.op_3xkk();
                Effect::Nothing
            },
            Instruction::SkipIfNotEqualByte => {
                self.op_4xkk();
                Effect::Nothing
            },
            Instruction::SkipIfEqualRegister => {
                self.op_5xy0();
                Effect::Nothing
            },
            Instruction::LoadByte => {
                self.op_6xnn();
                Effect::Nothing
            },
            Instruction::AddByte => {
                self.op_7xnn();
                Effect::Nothing
            },
            Instruction::LoadRegister => {
                self.op_8xy0();
                Effect::Nothing
            },
            Instruction::Or => {
                self.op_8xy1();
                Effect::Nothing
            },
            Instruction::And => {
                self.op_8xy2();
                Effect::Nothing
            },
            Instruction::Xor => {
                self.op_8xy3();
                Effect::Nothing
            },
            Instruction::AddRegister => {
                self.op_8xy4();
                Effect::Nothing
            },
            Instruction::LoadIndex => {
                self.op_annn();
                Effect::Nothing
            },
            Instruction::Draw => {
                self.op_dxyn();
                Effect::Redraw
            },
            Instruction::Unknown => {
                self.cycle();
                Effect::Nothing
            },
        }
    }
}

} // verus!
