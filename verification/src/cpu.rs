//! The CHIP-8 processor: its state, the instruction fetch and the instructions.

use vstd::prelude::*;
use crate::display::{VData, VDataView, fresh_vdata, C8_WIDTH, C8_HEIGHT};
use crate::sprite::{
    draw_sprite, sprite_collides, draw_bits, pixel_index, sprite_fits, lemma_mask_bit,
};

verus! {

/// Bytes of memory.
pub const MEMORY_SIZE: usize = 4096;

/// Number of general purpose registers V0 to VF.
pub const REGISTER_COUNT: usize = 16;

/// VF, the register that instructions use as a flag.
pub const FLAG_REGISTER: usize = 0xF;

/// Bytes of the built-in font: 16 glyphs of 5 bytes.
pub const FONTSET_SIZE: usize = 80;

/// Address of the first byte of the font.
pub const FONTSET_START: usize = 0x50;

/// Address at which a program is loaded and starts.
pub const ROM_START: usize = 0x200;

/// The built-in font, glyphs 0 to F, one byte per row of 8 pixels.
pub open spec fn font_glyphs() -> Seq<u8> {
    seq![
        0xF0u8, 0x90, 0x90, 0x90, 0xF0, // 0
        0x20, 0x60, 0x20, 0x20, 0x70, // 1
        0xF0, 0x10, 0xF0, 0x80, 0xF0, // 2
        0xF0, 0x10, 0xF0, 0x10, 0xF0, // 3
        0x90, 0x90, 0xF0, 0x10, 0x10, // 4
        0xF0, 0x80, 0xF0, 0x10, 0xF0, // 5
        0xF0, 0x80, 0xF0, 0x90, 0xF0, // 6
        0xF0, 0x10, 0x20, 0x40, 0x40, // 7
        0xF0, 0x90, 0xF0, 0x90, 0xF0, // 8
        0xF0, 0x90, 0xF0, 0x10, 0xF0, // 9
        0xF0, 0x90, 0xF0, 0x90, 0x90, // A
        0xE0, 0x90, 0xE0, 0x90, 0xE0, // B
        0xF0, 0x80, 0x80, 0x80, 0xF0, // C
        0xE0, 0x90, 0x90, 0x90, 0xE0, // D
        0xF0, 0x80, 0xF0, 0x80, 0xF0, // E
        0xF0, 0x80, 0xF0, 0x80, 0x80, // F
    ]
}

/// The built-in font as an array.
fn fontset() -> (r: [u8; 80])
    ensures
        r@ == font_glyphs(),
{
    let r: [u8; 80] = [
        0xF0, 0x90, 0x90, 0x90, 0xF0, // 0
        0x20, 0x60, 0x20, 0x20, 0x70, // 1
        0xF0, 0x10, 0xF0, 0x80, 0xF0, // 2
        0xF0, 0x10, 0xF0, 0x10, 0xF0, // 3
        0x90, 0x90, 0xF0, 0x10, 0x10, // 4
        0xF0, 0x80, 0xF0, 0x10, 0xF0, // 5
        0xF0, 0x80, 0xF0, 0x90, 0xF0, // 6
        0xF0, 0x10, 0x20, 0x40, 0x40, // 7
        0xF0, 0x90, 0xF0, 0x90, 0xF0, // 8
        0xF0, 0x90, 0xF0, 0x10, 0xF0, // 9
        0xF0, 0x90, 0xF0, 0x90, 0x90, // A
        0xE0, 0x90, 0xE0, 0x90, 0xE0, // B
        0xF0, 0x80, 0x80, 0x80, 0xF0, // C
        0xE0, 0x90, 0x90, 0x90, 0xE0, // D
        0xF0, 0x80, 0xF0, 0x80, 0xF0, // E
        0xF0, 0x80, 0xF0, 0x80, 0x80, // F
    ];
    assert(r@ =~= font_glyphs());
    r
}


/// The relevant memory locations.
pub enum MemLocations {
    /// Beginning of the interpreter area
    Interpreter,
    /// End of the interpreter area
    InterpreterEnd,
    /// Beginning of the font set
    FontSet,
    /// End of the font set
    FontSetEnd,
    /// Start of the program
    Rom,
    /// End of memory
    RomEnd,
}

impl MemLocations {
    /// The address that the location stands for.
    pub open spec fn location(self) -> usize {
        match self {
            MemLocations::Interpreter => 0x000,
            MemLocations::InterpreterEnd => 0x01FF,
            MemLocations::FontSet => 0x050,
            MemLocations::FontSetEnd => 0x0A0,
            MemLocations::Rom => 0x200,
            MemLocations::RomEnd => 0xFFF,
        }
    }

    /// The address of this location.
    pub fn address(&self) -> (r: usize)
        ensures
            r == self.location(),
    {
        match self {
            MemLocations::Interpreter => 0x000,
            MemLocations::InterpreterEnd => 0x01FF,
            MemLocations::FontSet => 0x050,
            MemLocations::FontSetEnd => 0x0A0,
            MemLocations::Rom => 0x200,
            MemLocations::RomEnd => 0xFFF,
        }
    }
}

// Fields of an instruction word `0xKXYN`, with `KK` its low byte and `NNN` its low 12 bits.

/// The first nibble: the kind of the instruction.
pub open spec fn op_kind(op: u16) -> int {
    op as int / 0x1000
}

/// The second nibble: the register `x`.
pub open spec fn op_x(op: u16) -> int {
    (op as int / 0x100) % 0x10
}

/// The third nibble: the register `y`.
pub open spec fn op_y(op: u16) -> int {
    (op as int / 0x10) % 0x10
}

/// The last nibble `n`.
pub open spec fn op_n(op: u16) -> int {
    op as int % 0x10
}

/// The low byte `kk`.
pub open spec fn op_kk(op: u16) -> u8 {
    (op as int % 0x100) as u8
}

/// The low 12 bits: the address `nnn`.
pub open spec fn op_nnn(op: u16) -> int {
    op as int % 0x1000
}

/// The opcode's first nibble, read from the word.
pub(crate) fn field_kind(op: u16) -> (r: u16)
    ensures
        r == op_kind(op),
{
    assert(((op & 0xF000) >> 12) as int == op as int / 0x1000) by (bit_vector);
    (op & 0xF000) >> 12
}

pub(crate) fn field_x(op: u16) -> (r: usize)
    ensures
        r == op_x(op),
{
    assert(((op & 0x0F00) >> 8) as int == (op as int / 0x100) % 0x10) by (bit_vector);
    ((op & 0x0F00) >> 8) as usize
}

pub(crate) fn field_y(op: u16) -> (r: usize)
    ensures
        r == op_y(op),
{
    assert(((op & 0x00F0) >> 4) as int == (op as int / 0x10) % 0x10) by (bit_vector);
    ((op & 0x00F0) >> 4) as usize
}

pub(crate) fn field_n(op: u16) -> (r: u32)
    ensures
        r == op_n(op),
{
    assert((op & 0x000F) as int == op as int % 0x10) by (bit_vector);
    (op & 0x000F) as u32
}

pub(crate) fn field_kk(op: u16) -> (r: u8)
    ensures
        r == op_kk(op),
{
    assert((op & 0x00FF) as int == op as int % 0x100) by (bit_vector);
    (op & 0x00FF) as u8
}

pub(crate) fn field_nnn(op: u16) -> (r: u16)
    ensures
        r == op_nnn(op),
{
    assert((op & 0x0FFF) as int == op as int % 0x1000) by (bit_vector);
    op & 0x0FFF
}

/// The mathematical content of a [`CPU`].
#[verifier::ext_equal]
pub struct CpuView {
    pub registers: Seq<u8>,
    pub memory: Seq<u8>,
    pub pc: usize,
    pub stack: Seq<usize>,
    pub sp: usize,
    pub index: u16,
    pub opcode: u16,
    pub display: VDataView,
    pub delay_timer: u8,
    pub sound_timer: u8,
}

/// The state of the CHIP-8 machine.
pub struct CPU {
    /// 16 registers that are 8 bit wide
    pub registers: [u8; 16],
    /// 4096 bytes of memory
    pub memory: [u8; 4096],
    /// The program counter holds the address of the next instruction to fetch
    pub pc: usize,
    /// The return addresses of the subroutines being executed, the latest last
    pub stack: Vec<usize>,
    /// Stack pointer: incremented by a call, decremented by a return
    pub sp: usize,
    /// The index is a special register that stores addresses
    pub index: u16,
    /// The current 16 bit instruction
    pub opcode: u16,
    /// Display information
    pub display: VData,
    /// A timer that counts down
    pub delay_timer: u8,
    /// A timer that sounds while it counts down
    pub sound_timer: u8,
}

impl View for CPU {
    type V = CpuView;

    open spec fn view(&self) -> CpuView {
        CpuView {
            registers: self.registers@,
            memory: self.memory@,
            pc: self.pc,
            stack: self.stack@,
            sp: self.sp,
            index: self.index,
            opcode: self.opcode,
            display: self.display@,
            delay_timer: self.delay_timer,
            sound_timer: self.sound_timer,
        }
    }
}

/// Memory of a freshly built machine: the font at `FONTSET_START`, zero elsewhere.
pub open spec fn initial_memory() -> Seq<u8> {
    Seq::new(
        MEMORY_SIZE as nat,
        |i: int|
            if FONTSET_START <= i < FONTSET_START + FONTSET_SIZE {
                font_glyphs()[i - FONTSET_START]
            } else {
                0u8
            },
    )
}

/// A freshly built machine.
pub open spec fn initial_cpu() -> CpuView {
    CpuView {
        registers: Seq::new(16, |i: int| 0u8),
        memory: initial_memory(),
        pc: ROM_START,
        stack: Seq::empty(),
        sp: 0,
        index: 0,
        opcode: 0,
        display: fresh_vdata(1),
        delay_timer: 0,
        sound_timer: 0,
    }
}

/// `mem` with the bytes of `rom` written from `ROM_START` on.
pub open spec fn memory_with_rom(mem: Seq<u8>, rom: Seq<u8>) -> Seq<u8> {
    Seq::new(
        mem.len(),
        |i: int|
            if ROM_START <= i < ROM_START + rom.len() {
                rom[i - ROM_START]
            } else {
                mem[i]
            },
    )
}

impl CpuView {
    /// The big-endian 16 bit word at `addr`.
    pub open spec fn word_at(self, addr: int) -> u16 {
        (self.memory[addr] * 256 + self.memory[addr + 1]) as u16
    }

    /// Whether the instruction at `pc` lies inside memory.
    pub open spec fn can_fetch(self) -> bool {
        self.pc + 1 < MEMORY_SIZE
    }

    /// The machine after fetching the instruction at `pc`.
    pub open spec fn fetch(self) -> CpuView {
        CpuView { opcode: self.word_at(self.pc as int), pc: (self.pc + 2) as usize, ..self }
    }

    /// Register `x` of the current instruction.
    pub open spec fn vx(self) -> u8 {
        self.registers[op_x(self.opcode)]
    }

    /// Register `y` of the current instruction.
    pub open spec fn vy(self) -> u8 {
        self.registers[op_y(self.opcode)]
    }

    /// The machine with register `i` set to `v`.
    pub open spec fn set_register(self, i: int, v: u8) -> CpuView {
        CpuView { registers: self.registers.update(i, v), ..self }
    }

    /// Whether the instruction after the next one, if `cond` holds, or else the next one,
    /// lies inside memory.
    pub open spec fn can_skip_if(self, cond: bool) -> bool {
        if cond {
            self.pc + 3 < MEMORY_SIZE
        } else {
            self.can_fetch()
        }
    }

    /// The machine with the next instruction skipped when `cond` holds.
    pub open spec fn skip_if(self, cond: bool) -> CpuView {
        if cond {
            CpuView { pc: (self.pc + 2) as usize, ..self }
        } else {
            self
        }
    }
}

/// The flag a comparison leaves in VF.
pub open spec fn flag(b: bool) -> u8 {
    if b { 1u8 } else { 0u8 }
}

impl CpuView {
    /// The machine with all pixels of the screen off.
    pub open spec fn cleared(self) -> CpuView {
        CpuView {
            display: VDataView { pixels: Seq::new(2048, |i: int| 0u8), ..self.display },
            ..self
        }
    }

    /// The machine that `00E0` leaves: screen cleared, next instruction fetched.
    pub open spec fn after_00e0(self) -> CpuView {
        self.cleared().fetch()
    }

    /// The machine back in the caller: `pc` taken from the top of the stack, which is popped,
    /// and the stack pointer decremented.
    pub open spec fn returned(self) -> CpuView {
        CpuView {
            pc: self.stack.last(),
            stack: self.stack.drop_last(),
            sp: (self.sp - 1) as usize,
            ..self
        }
    }

    /// Whether `00EE` is defined: the stack holds a return address inside memory and the
    /// stack pointer can be decremented.
    pub open spec fn can_return(self) -> bool {
        self.stack.len() > 0 && self.sp >= 1 && self.returned().can_fetch()
    }

    /// The machine that `00EE` leaves.
    pub open spec fn after_00ee(self) -> CpuView {
        self.returned().fetch()
    }

    /// The machine with `pc` set to the address `nnn` of the current instruction.
    pub open spec fn jumped(self) -> CpuView {
        CpuView { pc: op_nnn(self.opcode) as usize, ..self }
    }

    /// Whether the target `nnn` of the current instruction can be fetched.
    pub open spec fn can_jump(self) -> bool {
        self.jumped().can_fetch()
    }

    /// The machine that `1nnn` leaves.
    pub open spec fn after_1nnn(self) -> CpuView {
        self.jumped().fetch()
    }

    /// The machine that `2nnn` leaves: stack pointer incremented, return address pushed,
    /// jumped to `nnn`.
    pub open spec fn after_2nnn(self) -> CpuView {
        CpuView {
            stack: self.stack.push(self.pc),
            sp: (self.sp + 1) as usize,
            ..self
        }.jumped().fetch()
    }

    /// Whether `2nnn` is defined: its target can be fetched and the stack pointer incremented.
    pub open spec fn can_call(self) -> bool {
        self.can_jump() && self.sp < usize::MAX
    }

    /// Whether `Vx == kk` for the current instruction.
    pub open spec fn vx_equals_kk(self) -> bool {
        self.vx() == op_kk(self.opcode)
    }

    /// The machine that `3xkk` leaves.
    pub open spec fn after_3xkk(self) -> CpuView {
        self.skip_if(self.vx_equals_kk()).fetch()
    }

    /// The machine that `4xkk` leaves.
    pub open spec fn after_4xkk(self) -> CpuView {
        self.skip_if(!self.vx_equals_kk()).fetch()
    }

    /// The machine that `5xy0` leaves.
    pub open spec fn after_5xy0(self) -> CpuView {
        self.skip_if(self.vx() == self.vy()).fetch()
    }

    /// The machine that `6xkk` leaves.
    pub open spec fn after_6xnn(self) -> CpuView {
        self.set_register(op_x(self.opcode), op_kk(self.opcode)).fetch()
    }

    /// The machine that `7xkk` leaves: `kk` added to `Vx` modulo 256.
    pub open spec fn after_7xnn(self) -> CpuView {
        self.set_register(
            op_x(self.opcode),
            ((self.vx() + op_kk(self.opcode)) % 256) as u8,
        ).fetch()
    }

    /// The machine that `8xy0` leaves.
    pub open spec fn after_8xy0(self) -> CpuView {
        self.set_register(op_x(self.opcode), self.vy()).fetch()
    }

    /// The machine that `8xy1` leaves.
    pub open spec fn after_8xy1(self) -> CpuView {
        self.set_register(op_x(self.opcode), self.vx() | self.vy()).fetch()
    }

    /// The machine that `8xy2` leaves.
    pub open spec fn after_8xy2(self) -> CpuView {
        self.set_register(op_x(self.opcode), self.vx() & self.vy()).fetch()
    }

    /// The machine that `8xy3` leaves.
    pub open spec fn after_8xy3(self) -> CpuView {
        self.set_register(op_x(self.opcode), self.vx() ^ self.vy()).fetch()
    }

    /// The machine that `8xy4` leaves: VF set to the carry, then `Vx` to the low byte of the sum.
    pub open spec fn after_8xy4(self) -> CpuView {
        let sum = self.vx() + self.vy();
        self.set_register(FLAG_REGISTER as int, flag(sum > 255)).set_register(
            op_x(self.opcode),
            (sum % 256) as u8,
        ).fetch()
    }

    /// The machine that `8xy5` leaves, with no fetch: VF set to 0 on a borrow (else 1), then `Vx - Vy` modulo 256.
    pub open spec fn after_8xy5(self) -> CpuView {
        self.set_register(FLAG_REGISTER as int, flag(self.vy() <= self.vx())).set_register(
            op_x(self.opcode),
            ((self.vx() - self.vy() + 256) % 256) as u8,
        )
    }

    /// The machine that `8xy6` leaves, with no fetch: VF set to the low bit of `Vx`, then `Vx` halved.
    pub open spec fn after_8xy6(self) -> CpuView {
        self.set_register(FLAG_REGISTER as int, self.vx() % 2).set_register(
            op_x(self.opcode),
            self.vx() / 2,
        )
    }

    /// The machine that `8xy7` leaves, with no fetch: VF set to 0 on a borrow (else 1), then `Vy - Vx` modulo 256.
    pub open spec fn after_8xy7(self) -> CpuView {
        self.set_register(FLAG_REGISTER as int, flag(self.vx() <= self.vy())).set_register(
            op_x(self.opcode),
            ((self.vy() - self.vx() + 256) % 256) as u8,
        )
    }

    /// The machine that `8xyE` leaves, with no fetch: VF set to the high bit of `Vx`, then `Vx` doubled modulo 256.
    pub open spec fn after_8xye(self) -> CpuView {
        self.set_register(FLAG_REGISTER as int, self.vx() / 128).set_register(
            op_x(self.opcode),
            ((self.vx() * 2) % 256) as u8,
        )
    }

    /// The machine that `Annn` leaves.
    pub open spec fn after_annn(self) -> CpuView {
        CpuView { index: op_nnn(self.opcode) as u16, ..self }.fetch()
    }

    /// Left column of the sprite of the current instruction.
    pub open spec fn sprite_x(self) -> int {
        self.vx() as int % 64
    }

    /// Top row of the sprite of the current instruction.
    pub open spec fn sprite_y(self) -> int {
        self.vy() as int % 32
    }

    /// Whether the `n` sprite bytes from `index` on lie inside memory.
    pub open spec fn can_read_sprite(self) -> bool {
        op_n(self.opcode) == 0 || self.index + op_n(self.opcode) <= MEMORY_SIZE
    }

    /// Whether every bit of the sprite lands inside the 2048 pixels of the screen, rows
    /// `display.width` pixels apart.
    pub open spec fn sprite_fits_screen(self) -> bool {
        sprite_fits(self.display.width as int, self.sprite_x(), self.sprite_y(), op_n(self.opcode))
    }

    /// The machine with the sprite of the current instruction drawn and, when the sprite has
    /// rows, VF set to 1 if a pixel was turned off, else 0.
    pub open spec fn drawn(self) -> CpuView {
        let n = op_n(self.opcode);
        let pixels = self.display.pixels;
        let index = self.index as int;
        CpuView {
            display: VDataView {
                pixels: draw_sprite(
                    pixels,
                    self.memory,
                    index,
                    self.display.width as int,
                    self.sprite_x(),
                    self.sprite_y(),
                    n,
                ),
                ..self.display
            },
            registers: if n == 0 {
                self.registers
            } else {
                self.registers.update(
                    FLAG_REGISTER as int,
                    flag(
                        sprite_collides(
                            pixels,
                            self.memory,
                            index,
                            self.display.width as int,
                            self.sprite_x(),
                            self.sprite_y(),
                            n,
                        ),
                    ),
                )
            },
            ..self
        }
    }

    /// The machine that `Dxyn` leaves.
    pub open spec fn after_dxyn(self) -> CpuView {
        self.drawn().fetch()
    }
}

/// Facts on bytes used by the arithmetic instructions.
proof fn lemma_byte_ops(x: u8)
    ensures
        x & 1 == x % 2,
        x >> 1u8 == x / 2,
        x >> 7u8 == x / 128,
        (x << 1u8) as int == (x * 2) % 256,
{
    assert(x & 1 == x % 2 && x >> 1u8 == x / 2 && x >> 7u8 == x / 128 && (x << 1u8) as int == (x
        * 2) % 256) by (bit_vector);
}

impl Default for CPU {
    /// The same as [`CPU::new`].
    fn default() -> (r: CPU)
        ensures
            r@ == initial_cpu(),
    {
        CPU::new()
    }
}

impl CPU {
    /// A machine with the font loaded, ready to run a program at `ROM_START`.
    pub fn new() -> (r: CPU)
        ensures
            r@ == initial_cpu(),
    {
        let mut c8 = CPU {
            registers: [0x0; 16],
            memory: [0x0; 4096],
            pc: ROM_START,
            stack: Vec::with_capacity(16),
            sp: 0x0,
            index: 0x0,
            opcode: 0x0,
            display: VData::new(1),
            delay_timer: 0x0,
            sound_timer: 0x0,
        };
        let font = fontset();
        let mut i: usize = 0;
        while i < FONTSET_SIZE
            invariant
                i <= FONTSET_SIZE,
                font@ == font_glyphs(),
                c8@ == (CpuView {
                    memory: Seq::new(
                        MEMORY_SIZE as nat,
                        |k: int|
                            if FONTSET_START <= k < FONTSET_START + i {
                                font_glyphs()[k - FONTSET_START]
                            } else {
                                0u8
                            },
                    ),
                    ..initial_cpu()
                }),
            decreases FONTSET_SIZE - i,
        {
            c8.memory[FONTSET_START + i] = font[i];
            i = i + 1;
        }
        c8
    }

    /// Copy the bytes of a program into memory from `ROM_START` on.
    pub fn open(&mut self, rom: &[u8])
        requires
            ROM_START + rom@.len() <= MEMORY_SIZE,
        ensures
            final(self)@ == (CpuView { memory: memory_with_rom(old(self)@.memory, rom@), ..old(self)@ }),
    {
        let mut i: usize = 0;
        while i < rom.len()
            invariant
                i <= rom@.len(),
                ROM_START + rom@.len() <= MEMORY_SIZE,
                self@ == (CpuView {
                    memory: memory_with_rom(old(self)@.memory, rom@.take(i as int)),
                    ..old(self)@
                }),
            decreases rom@.len() - i,
        {
            self.memory[ROM_START + i] = rom[i];
            i = i + 1;
        }
        assert(rom@.take(rom@.len() as int) =~= rom@);
    }

    /// Fetch the instruction at `pc` into `opcode` and advance `pc` past it.
    pub fn cycle(&mut self)
        requires
            old(self)@.can_fetch(),
        ensures
            final(self)@ == old(self)@.fetch(),
    {
        let hi: u8 = self.memory[self.pc];
        let lo: u8 = self.memory[self.pc + 1];
        assert((((hi as u16) << 8u16) | (lo as u16)) as int == hi as int * 256 + lo as int)
            by (bit_vector);
        self.opcode = ((hi as u16) << 8) | (lo as u16);
        self.pc = self.pc + 2;
    }

    /// `0nnn`: jump to a machine code routine; ignored.
    pub fn op_0nnn(&mut self)
        ensures
            final(self)@ == old(self)@,
    {
    }

    /// `00E0`: clear the display.
    pub fn op_00e0(&mut self)
        requires
            old(self)@.can_fetch(),
        ensures
            final(self)@ == old(self)@.after_00e0(),
    {
        self.display.pixels = [0; 2048];
        assert(self@ =~= old(self)@.cleared());
        self.cycle();
    }

    /// `00EE`: return from a subroutine: `pc` is set to the top of the stack, which is popped,
    /// and 1 is subtracted from the stack pointer.
    pub fn op_00ee(&mut self)
        requires
            old(self)@.can_return(),
        ensures
            final(self)@ == old(self)@.after_00ee(),
    {
        let top: usize = self.stack[self.stack.len() - 1];
        self.pc = top;
        self.stack.pop();
        self.sp = self.sp - 1;
        assert(self@ =~= old(self)@.returned());
        self.cycle();
    }

    /// `1nnn`: jump to location `nnn`.
    pub fn op_1nnn(&mut self)
        requires
            old(self)@.can_jump(),
        ensures
            final(self)@ == old(self)@.after_1nnn(),
    {
        let addr = field_nnn(self.opcode) as usize;
        self.pc = addr;
        self.cycle();
    }

    /// `2nnn`: call the subroutine at `nnn`: the stack pointer is incremented, `pc` is pushed
    /// on the stack, then set to `nnn`.
    pub fn op_2nnn(&mut self)
        requires
            old(self)@.can_call(),
        ensures
            final(self)@ == old(self)@.after_2nnn(),
    {
        let byte = field_nnn(self.opcode);
        self.sp = self.sp + 1;
        self.stack.push(self.pc);
        self.pc = byte as usize;
        assert(self@ =~= CpuView {
            stack: old(self)@.stack.push(old(self)@.pc),
            sp: (old(self)@.sp + 1) as usize,
            ..old(self)@
        }.jumped());
        self.cycle();
    }

    /// `3xkk`: skip the next instruction if `Vx == kk`.
    pub fn op_3xkk(&mut self)
        requires
            old(self)@.can_skip_if(old(self)@.vx_equals_kk()),
        ensures
            final(self)@ == old(self)@.after_3xkk(),
    {
        let vx = field_x(self.opcode);
        let byte = field_kk(self.opcode);
        if self.registers[vx] == byte {
            self.pc += 2;
        }
        self.cycle();
    }

    /// `4xkk`: skip the next instruction if `Vx != kk`.
    pub fn op_4xkk(&mut self)
        requires
            old(self)@.can_skip_if(!old(self)@.vx_equals_kk()),
        ensures
            final(self)@ == old(self)@.after_4xkk(),
    {
        let vx = field_x(self.opcode);
        let byte = field_kk(self.opcode);
        if self.registers[vx] != byte {
            self.pc += 2;
        }
        self.cycle();
    }

    /// `5xy0`: skip the next instruction if `Vx == Vy`.
    pub fn op_5xy0(&mut self)
        requires
            old(self)@.can_skip_if(old(self)@.vx() == old(self)@.vy()),
        ensures
            final(self)@ == old(self)@.after_5xy0(),
    {
        let vx = field_x(self.opcode);
        let vy = field_y(self.opcode);
        if self.registers[vx] == self.registers[vy] {
            self.pc += 2;
        }
        self.cycle();
    }

    /// `6xkk`: set `Vx = kk`.
    pub fn op_6xnn(&mut self)
        requires
            old(self)@.can_fetch(),
        ensures
            final(self)@ == old(self)@.after_6xnn(),
    {
        let vx = field_x(self.opcode);
        let byte = field_kk(self.opcode);
        self.registers[vx] = byte;
        self.cycle();
    }

    /// `7xkk`: set `Vx = Vx + kk`, wrapping around at 256.
    pub fn op_7xnn(&mut self)
        requires
            old(self)@.can_fetch(),
        ensures
            final(self)@ == old(self)@.after_7xnn(),
    {
        let vx = field_x(self.opcode);
        let byte = field_kk(self.opcode);
        self.registers[vx] = self.registers[vx].wrapping_add(byte);
        self.cycle();
    }

    /// `8xy0`: set `Vx = Vy`.
    pub fn op_8xy0(&mut self)
        requires
            old(self)@.can_fetch(),
        ensures
            final(self)@ == old(self)@.after_8xy0(),
    {
        let vx = field_x(self.opcode);
        let vy = field_y(self.opcode);
        self.registers[vx] = self.registers[vy];
        self.cycle();
    }

    /// `8xy1`: set `Vx = Vx | Vy`.
    pub fn op_8xy1(&mut self)
        requires
            old(self)@.can_fetch(),
        ensures
            final(self)@ == old(self)@.after_8xy1(),
    {
        let vx = field_x(self.opcode);
        let vy = field_y(self.opcode);
        self.registers[vx] = self.registers[vx] | self.registers[vy];
        self.cycle();
    }

    /// `8xy2`: set `Vx = Vx & Vy`.
    pub fn op_8xy2(&mut self)
        requires
            old(self)@.can_fetch(),
        ensures
            final(self)@ == old(self)@.after_8xy2(),
    {
        let vx = field_x(self.opcode);
        let vy = field_y(self.opcode);
        self.registers[vx] = self.registers[vx] & self.registers[vy];
        self.cycle();
    }

    /// `8xy3`: set `Vx = Vx ^ Vy`.
    pub fn op_8xy3(&mut self)
        requires
            old(self)@.can_fetch(),
        ensures
            final(self)@ == old(self)@.after_8xy3(),
    {
        let vx = field_x(self.opcode);
        let vy = field_y(self.opcode);
        self.registers[vx] = self.registers[vx] ^ self.registers[vy];
        self.cycle();
    }

    /// `8xy4`: set `Vx = Vx + Vy`; VF is 1 if the sum does not fit in 8 bits, else 0.
    pub fn op_8xy4(&mut self)
        requires
            old(self)@.can_fetch(),
        ensures
            final(self)@ == old(self)@.after_8xy4(),
    {
        let vx = field_x(self.opcode);
        let vy = field_y(self.opcode);
        let sum: u16 = (self.registers[vx] as u16) + (self.registers[vy] as u16);
        if sum > 255 {
            self.registers[FLAG_REGISTER] = 0x1;
        } else {
            self.registers[FLAG_REGISTER] = 0x0;
        }
        assert((sum & 0x00FF) as int == sum as int % 256) by (bit_vector);
        self.registers[vx] = (sum & 0x00FF) as u8;
        self.cycle();
    }

    /// `8xy5`: set `Vx = Vx - Vy`; VF is 0 on a borrow (`Vy > Vx`), else 1.
    pub fn op_8xy5(&mut self)
        ensures
            final(self)@ == old(self)@.after_8xy5(),
    {
        let vx = field_x(self.opcode);
        let vy = field_y(self.opcode);
        let x: u8 = self.registers[vx];
        let y: u8 = self.registers[vy];
        if y > x {
            self.registers[FLAG_REGISTER] = 0x0;
        } else {
            self.registers[FLAG_REGISTER] = 0x1;
        }
        self.registers[vx] = x.wrapping_sub(y);
    }

    /// `8xy6`: shift `Vx` right by one bit; VF takes the bit shifted out.
    pub fn op_8xy6(&mut self)
        ensures
            final(self)@ == old(self)@.after_8xy6(),
    {
        let vx = field_x(self.opcode);
        let x: u8 = self.registers[vx];
        proof {
            lemma_byte_ops(x);
        }
        self.registers[FLAG_REGISTER] = x & 1;
        self.registers[vx] = x >> 1u8;
    }

    /// `8xy7`: set `Vx = Vy - Vx`; VF is 0 on a borrow (`Vx > Vy`), else 1.
    pub fn op_8xy7(&mut self)
        ensures
            final(self)@ == old(self)@.after_8xy7(),
    {
        let vx = field_x(self.opcode);
        let vy = field_y(self.opcode);
        let x: u8 = self.registers[vx];
        let y: u8 = self.registers[vy];
        if x > y {
            self.registers[FLAG_REGISTER] = 0x0;
        } else {
            self.registers[FLAG_REGISTER] = 0x1;
        }
        self.registers[vx] = y.wrapping_sub(x);
    }

    /// `8xyE`: shift `Vx` left by one bit; VF takes the bit shifted out.
    pub fn op_8xye(&mut self)
        ensures
            final(self)@ == old(self)@.after_8xye(),
    {
        let vx = field_x(self.opcode);
        let x: u8 = self.registers[vx];
        proof {
            lemma_byte_ops(x);
        }
        self.registers[FLAG_REGISTER] = x >> 7u8;
        self.registers[vx] = x << 1u8;
    }

    /// `Annn`: set the index register to `nnn`.
    pub fn op_annn(&mut self)
        requires
            old(self)@.can_fetch(),
        ensures
            final(self)@ == old(self)@.after_annn(),
    {
        let addr = field_nnn(self.opcode);
        self.index = addr;
        self.cycle();
    }
    /// `Dxyn`: draw the `n`-byte sprite at memory location `index` at `(Vx, Vy)`.
    ///
    /// The sprite's bits are visited row by row, left to right; every screen pixel under a
    /// set bit is flipped. When the sprite has rows, VF is set to 1 if a set bit found its
    /// pixel on (a collision), else 0. The start point is taken modulo the screen size and the
    /// sprite wraps around the edges; row `y`, column `x` is pixel `display.width * y + x`.
    pub fn op_dxyn(&mut self)
        requires
            old(self)@.can_read_sprite(),
            old(self)@.sprite_fits_screen(),
            old(self)@.can_fetch(),
        ensures
            final(self)@ == old(self)@.after_dxyn(),
    {
        let vx = field_x(self.opcode);
        let vy = field_y(self.opcode);
        let height = field_n(self.opcode);
        let x_point: u32 = (self.registers[vx] % C8_WIDTH) as u32;
        let y_point: u32 = (self.registers[vy] % C8_HEIGHT) as u32;
        let width: u32 = self.display.width;
        let mut pixels: [u8; 2048] = self.display.pixels;
        let ghost old_pixels = pixels@;
        let ghost mem = self.memory@;
        let ghost index = self.index as int;
        let ghost w = width as int;
        let ghost x0 = x_point as int;
        let ghost y0 = y_point as int;
        let mut collision: bool = false;
        let mut row: u32 = 0;
        while row < height
            invariant
                row <= height < 16,
                x0 == x_point < 64,
                y0 == y_point < 32,
                w == width,
                index == self.index,
                mem == self.memory@,
                height == 0 || index + height <= MEMORY_SIZE,
                sprite_fits(w, x0, y0, height as int),
                pixels@ == draw_bits(old_pixels, mem, index, w, x0, y0, (8 * row) as nat).0,
                collision == draw_bits(old_pixels, mem, index, w, x0, y0, (8 * row) as nat).1,
            decreases height - row,
        {
            let idx: usize = (self.index + (row as u16)) as usize;
            let sprite: u8 = self.memory[idx];
            let mut column: u32 = 0;
            while column < 8
                invariant
                    column <= 8,
                    row < height < 16,
                    x0 == x_point < 64,
                    y0 == y_point < 32,
                    w == width,
                    sprite == mem[index + row],
                    sprite_fits(w, x0, y0, height as int),
                    pixels@ == draw_bits(
                        old_pixels,
                        mem,
                        index,
                        w,
                        x0,
                        y0,
                        (8 * row + column) as nat,
                    ).0,
                    collision == draw_bits(
                        old_pixels,
                        mem,
                        index,
                        w,
                        x0,
                        y0,
                        (8 * row + column) as nat,
                    ).1,
                decreases 8 - column,
            {
                let ghost r = row as int;
                let ghost c = column as int;
                let ghost k = (8 * row + column) as nat;
                assert(pixel_index(w, x0, y0, r, c) < 2048);
                let yy: u32 = (y_point + row) % 32;
                let xx: u32 = (x_point + column) % 64;
                assert(0 <= w * yy <= w * yy + xx < 2048) by (nonlinear_arith)
                    requires
                        w * yy + xx == pixel_index(w, x0, y0, r, c),
                        pixel_index(w, x0, y0, r, c) < 2048,
                        0 <= w,
                        0 <= yy,
                        0 <= xx,
                ;
                let px: usize = (width * yy + xx) as usize;
                proof {
                    lemma_mask_bit(sprite, column);
                    assert((k + 1 - 1) / 8 == r && (k + 1 - 1) % 8 == c);
                }
                let draw_bit: u8 = (0x80u8 >> column) & sprite;
                if draw_bit != 0 {
                    if pixels[px] == 1 {
                        collision = true;
                    }
                    pixels[px] = pixels[px] ^ 1;
                }
                column = column + 1;
            }
            row = row + 1;
        }
        self.display.pixels = pixels;
        if height != 0 {
            if collision {
                self.registers[FLAG_REGISTER] = 0x1;
            } else {
                self.registers[FLAG_REGISTER] = 0x0;
            }
        }
        assert(self@ =~= old(self)@.drawn());
        self.cycle();
    }
}

} // verus!
