//! The first layout of the machine state, with a fixed call stack of 16 addresses.

use vstd::prelude::*;
use crate::cpu::ROM_START;

verus! {

/// State of a CHIP-8 machine with a fixed-size stack and a 32 bit word per pixel.
pub struct Chip8 {
    /// 16 registers that are 8 bit wide
    pub registers: [u8; 16],
    /// 4096 bytes of memory
    pub memory: [u8; 4096],
    /// The display is 64 x 32
    pub display: [u32; 2048],
    /// The program counter holds the currently executing address
    pub pc: u16,
    /// The index is a special register that stores addresses
    pub index: u16,
    /// A stack of 16 return addresses
    pub stack: [u16; 16],
    pub delaytimer: u8,
    pub soundtimer: u8,
}

impl Default for Chip8 {
    /// Everything zero, with the program counter at the start of the program area.
    fn default() -> (c8: Chip8)
        ensures
            c8.registers@ == Seq::new(16, |i: int| 0u8),
            c8.memory@ == Seq::new(4096, |i: int| 0u8),
            c8.display@ == Seq::new(2048, |i: int| 0u32),
            c8.pc == ROM_START,
            c8.index == 0,
            c8.stack@ == Seq::new(16, |i: int| 0u16),
            c8.delaytimer == 0,
            c8.soundtimer == 0,
    {
        let c8 = Chip8 {
            registers: [0x0; 16],
            memory: [0x0; 4096],
            display: [0x0; 2048],
            pc: ROM_START as u16,
            index: 0x0,
            stack: [0x0; 16],
            delaytimer: 0x0,
            soundtimer: 0x0,
        };
        assert(c8.registers@ =~= Seq::new(16, |i: int| 0u8));
        assert(c8.memory@ =~= Seq::new(4096, |i: int| 0u8));
        assert(c8.display@ =~= Seq::new(2048, |i: int| 0u32));
        assert(c8.stack@ =~= Seq::new(16, |i: int| 0u16));
        c8
    }
}

} // verus!
