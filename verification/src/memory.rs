//! The addressable machine state: 4096 bytes of memory with the preloaded
//! font table, sixteen 8-bit registers, the program counter, the index
//! register, the 32-slot call stack, and the timer pair it owns.

use vstd::prelude::*;
use crate::chip_timers::ChipTimers;
use crate::error::ChipError;
use crate::instruction::Instruction;

verus! {

pub const ROM_STARTING_MEMORY_LOCATION: usize = 0x200;

pub const FONT_ROM_STARTING_MEMORY_LOCATION: usize = 0x50;

/// The sixteen 5-byte glyphs for the hex digits 0 through F, in order.
pub open spec fn font_data() -> Seq<u8> {
    seq![
        0xF0u8, 0x90, 0x90, 0x90, 0xF0,
        0x20, 0x60, 0x20, 0x20, 0x70,
        0xF0, 0x10, 0xF0, 0x80, 0xF0,
        0xF0, 0x10, 0xF0, 0x10, 0xF0,
        0x90, 0x90, 0xF0, 0x10, 0x10,
        0xF0, 0x80, 0xF0, 0x10, 0xF0,
        0xF0, 0x80, 0xF0, 0x90, 0xF0,
        0xF0, 0x10, 0x20, 0x40, 0x40,
        0xF0, 0x90, 0xF0, 0x90, 0xF0,
        0xF0, 0x90, 0xF0, 0x10, 0xF0,
        0xF0, 0x90, 0xF0, 0x90, 0x90,
        0xE0, 0x90, 0xE0, 0x90, 0xE0,
        0xF0, 0x80, 0x80, 0x80, 0xF0,
        0xE0, 0x90, 0x90, 0x90, 0xE0,
        0xF0, 0x80, 0xF0, 0x80, 0xF0,
        0xF0, 0x80, 0xF0, 0x80, 0x80,
    ]
}

/// Memory at startup: all zero except the font table at its base address.
pub open spec fn initial_ram() -> Seq<u8> {
    Seq::new(
        4096,
        |a: int|
            if 0x50 <= a < 0x50 + 80 {
                font_data()[a - 0x50]
            } else {
                0u8
            },
    )
}

pub struct ChipMemory {
    pub ram: [u8; 4096],
    pub pc: u16,
    pub i: u16,
    pub stack: [u16; 32],
    pub stack_ptr: usize,
    pub timers: ChipTimers,
    pub registers: [u8; 16],
}

impl ChipMemory {
    /// The call stack never holds more return addresses than it has slots.
    pub open spec fn wf(&self) -> bool {
        self.stack_ptr <= 32
    }

    pub fn new() -> (m: ChipMemory)
        ensures
            m.wf(),
            m.ram@ == initial_ram(),
            m.pc == 0,
            m.i == 0,
            m.stack@ == Seq::new(32, |k: int| 0u16),
            m.stack_ptr == 0,
            m.timers.delay == 0,
            m.timers.sound == 0,
            m.registers@ == Seq::new(16, |k: int| 0u8),
    {
        let mut ram: [u8; 4096] = [0u8; 4096];
        ram[0x50] = 0xF0;
        ram[0x51] = 0x90;
        ram[0x52] = 0x90;
        ram[0x53] = 0x90;
        ram[0x54] = 0xF0;
        ram[0x55] = 0x20;
        ram[0x56] = 0x60;
        ram[0x57] = 0x20;
        ram[0x58] = 0x20;
        ram[0x59] = 0x70;
        ram[0x5A] = 0xF0;
        ram[0x5B] = 0x10;
        ram[0x5C] = 0xF0;
        ram[0x5D] = 0x80;
        ram[0x5E] = 0xF0;
        ram[0x5F] = 0xF0;
        ram[0x60] = 0x10;
        ram[0x61] = 0xF0;
        ram[0x62] = 0x10;
        ram[0x63] = 0xF0;
        ram[0x64] = 0x90;
        ram[0x65] = 0x90;
        ram[0x66] = 0xF0;
        ram[0x67] = 0x10;
        ram[0x68] = 0x10;
        ram[0x69] = 0xF0;
        ram[0x6A] = 0x80;
        ram[0x6B] = 0xF0;
        ram[0x6C] = 0x10;
        ram[0x6D] = 0xF0;
        ram[0x6E] = 0xF0;
        ram[0x6F] = 0x80;
        ram[0x70] = 0xF0;
        ram[0x71] = 0x90;
        ram[0x72] = 0xF0;
        ram[0x73] = 0xF0;
        ram[0x74] = 0x10;
        ram[0x75] = 0x20;
        ram[0x76] = 0x40;
        ram[0x77] = 0x40;
        ram[0x78] = 0xF0;
        ram[0x79] = 0x90;
        ram[0x7A] = 0xF0;
        ram[0x7B] = 0x90;
        ram[0x7C] = 0xF0;
        ram[0x7D] = 0xF0;
        ram[0x7E] = 0x90;
        ram[0x7F] = 0xF0;
        ram[0x80] = 0x10;
        ram[0x81] = 0xF0;
        ram[0x82] = 0xF0;
        ram[0x83] = 0x90;
        ram[0x84] = 0xF0;
        ram[0x85] = 0x90;
        ram[0x86] = 0x90;
        ram[0x87] = 0xE0;
        ram[0x88] = 0x90;
        ram[0x89] = 0xE0;
        ram[0x8A] = 0x90;
        ram[0x8B] = 0xE0;
        ram[0x8C] = 0xF0;
        ram[0x8D] = 0x80;
        ram[0x8E] = 0x80;
        ram[0x8F] = 0x80;
        ram[0x90] = 0xF0;
        ram[0x91] = 0xE0;
        ram[0x92] = 0x90;
        ram[0x93] = 0x90;
        ram[0x94] = 0x90;
        ram[0x95] = 0xE0;
        ram[0x96] = 0xF0;
        ram[0x97] = 0x80;
        ram[0x98] = 0xF0;
        ram[0x99] = 0x80;
        ram[0x9A] = 0xF0;
        ram[0x9B] = 0xF0;
        ram[0x9C] = 0x80;
        ram[0x9D] = 0xF0;
        ram[0x9E] = 0x80;
        ram[0x9F] = 0x80;
        let m = ChipMemory {
            ram,
            pc: 0u16,
            i: 0u16,
            stack: [0u16; 32],
            stack_ptr: 0,
            timers: ChipTimers::new(),
            registers: [0u8; 16],
        };
        proof {
            assert(m.ram@ =~= initial_ram());
            assert(m.stack@ =~= Seq::new(32, |k: int| 0u16));
            assert(m.registers@ =~= Seq::new(16, |k: int| 0u8));
        }
        m
    }

    /// Fetch the two instruction bytes at the program counter and advance it
    /// by two. A fetch that would read outside memory is reported and leaves
    /// the machine untouched.
    pub fn get_instruction(&mut self) -> (r: Result<Instruction, ChipError>)
        ensures
            old(self).pc < 4095 ==> (r matches Ok(ins)
                && ins.val[0] == old(self).ram@[old(self).pc as int]
                && ins.val[1] == old(self).ram@[old(self).pc as int + 1]
                && *final(self) == (ChipMemory { pc: (old(self).pc + 2) as u16, ..*old(self) })),
            old(self).pc >= 4095 ==> (r matches Err(e)
                && e == ChipError::MemoryOutOfBounds
                && *final(self) == *old(self)),
    {
        if self.pc >= 4095 {
            return Err(ChipError::MemoryOutOfBounds);
        }
        let k: [u8; 2] = [self.ram[self.pc as usize], self.ram[self.pc as usize + 1]];
        let ret_val = Instruction::new(k);
        self.pc += 2;
        Ok(ret_val)
    }
}

} // verus!
