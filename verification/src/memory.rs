//! The register file and memory behind unchecked accessors.
//!
//! `MemoryController` is the counterpart of the emulator for callers that
//! prove their indices in range: where the emulator reports a fault, these
//! accessors have a precondition.

use vstd::prelude::*;
use crate::chip8::{FONT_SIZE, HEX_DIGITS, MAX_ROM_SIZE, RAM_SIZE, STACK_SIZE, START_ADDR};
use crate::emulator::{ram_with_font, ram_with_rom};

verus! {

/// Memory, registers, stack and timers as plain data.
pub struct Memory {
    /// 4096 bytes; the first 512 are reserved, programs start behind them.
    pub ram: [u8; 4096],
    /// Return addresses of up to 16 nested subroutine calls.
    pub stack: [u16; 16],
    /// The registers V0 to VF.
    pub v_reg: [u8; 16],
    /// The index register.
    pub i_reg: u16,
    /// The stack pointer: the number of stack entries in use.
    pub sp: u8,
    /// The program counter.
    pub pc: u16,
    /// The delay timer.
    pub dt: u8,
    /// The sound timer.
    pub st: u8,
}

impl Memory {
    /// Memory with every byte, register and timer zero, the stack empty and
    /// the program counter at the load address.
    pub fn new() -> (memory: Self)
        ensures
            memory.ram@ == Seq::new(RAM_SIZE as nat, |a: int| 0u8),
            memory.stack@ == Seq::new(STACK_SIZE as nat, |s: int| 0u16),
            memory.v_reg@ == Seq::new(16, |r: int| 0u8),
            memory.i_reg == 0,
            memory.sp == 0,
            memory.pc == START_ADDR,
            memory.dt == 0,
            memory.st == 0,
    {
        let memory = Self {
            ram: [0; 4096],
            stack: [0; 16],
            v_reg: [0; 16],
            i_reg: 0,
            sp: 0,
            pc: START_ADDR,
            dt: 0,
            st: 0,
        };
        assert(memory.ram@ =~= Seq::new(RAM_SIZE as nat, |a: int| 0u8));
        assert(memory.stack@ =~= Seq::new(STACK_SIZE as nat, |s: int| 0u16));
        assert(memory.v_reg@ =~= Seq::new(16, |r: int| 0u8));
        memory
    }

    /// The reserved bytes below the load address.
    pub fn get_reserved_memory(&self) -> (reserved: Vec<u8>)
        ensures
            reserved@ == self.ram@.subrange(0, START_ADDR as int),
    {
        let mut reserved: Vec<u8> = Vec::new();
        let mut a: usize = 0;
        while a < 512
            invariant
                a <= 512,
                reserved@ == self.ram@.subrange(0, a as int),
            decreases 512 - a,
        {
            reserved.push(self.ram[a]);
            a += 1;
            assert(reserved@ =~= self.ram@.subrange(0, a as int));
        }
        reserved
    }
}

/// Unchecked access to a `Memory`.
pub struct MemoryController {
    memory: Memory,
}

impl View for MemoryController {
    type V = Memory;

    closed spec fn view(&self) -> Memory {
        self.memory
    }
}

impl MemoryController {
    /// Takes charge of `mem`.
    pub fn new(mem: Memory) -> (controller: Self)
        ensures
            controller@ == mem,
    {
        Self { memory: mem }
    }

    /// Loads a program image and then the font table.
    pub fn init_ram(&mut self, rom: &[u8])
        requires
            rom@.len() <= MAX_ROM_SIZE,
        ensures
            final(self)@.ram@ == ram_with_font(ram_with_rom(old(self)@.ram@, rom@)),
            final(self)@ == (Memory { ram: final(self)@.ram, ..old(self)@ }),
    {
        self.load_rom(rom);
        self.load_hex_digits();
    }

    /// Copies a program image to memory from the load address on.
    pub fn load_rom(&mut self, rom: &[u8])
        requires
            rom@.len() <= MAX_ROM_SIZE,
        ensures
            final(self)@.ram@ == ram_with_rom(old(self)@.ram@, rom@),
            final(self)@ == (Memory { ram: final(self)@.ram, ..old(self)@ }),
    {
        let mut k: usize = 0;
        while k < rom.len()
            invariant
                k <= rom@.len() <= MAX_ROM_SIZE,
                self@ == (Memory { ram: self@.ram, ..old(self)@ }),
                forall|a: int|
                    0 <= a < RAM_SIZE ==> self@.ram@[a] == if START_ADDR <= a < START_ADDR + k {
                        rom@[a - START_ADDR]
                    } else {
                        old(self)@.ram@[a]
                    },
            decreases rom@.len() - k,
        {
            self.memory.ram[0x200 + k] = rom[k];
            k += 1;
        }
        assert(self@.ram@ =~= ram_with_rom(old(self)@.ram@, rom@));
    }

    /// Copies the font table to the bottom of memory.
    pub fn load_hex_digits(&mut self)
        ensures
            final(self)@.ram@ == ram_with_font(old(self)@.ram@),
            final(self)@ == (Memory { ram: final(self)@.ram, ..old(self)@ }),
    {
        let mut a: usize = 0;
        while a < FONT_SIZE
            invariant
                a <= FONT_SIZE,
                self@ == (Memory { ram: self@.ram, ..old(self)@ }),
                forall|b: int|
                    0 <= b < RAM_SIZE ==> self@.ram@[b] == if b < a {
                        HEX_DIGITS@[b]
                    } else {
                        old(self)@.ram@[b]
                    },
            decreases FONT_SIZE - a,
        {
            self.memory.ram[a] = HEX_DIGITS[a];
            a += 1;
        }
        assert(self@.ram@ =~= ram_with_font(old(self)@.ram@));
    }

    /// A copy of the whole memory.
    pub fn get_ram(&self) -> (ram: [u8; 4096])
        ensures
            ram == self@.ram,
    {
        self.memory.ram
    }

    /// Writes `val` at address `index`.
    pub fn set_ram(&mut self, index: usize, val: u8)
        requires
            index < RAM_SIZE,
        ensures
            final(self)@.ram@ == old(self)@.ram@.update(index as int, val),
            final(self)@ == (Memory { ram: final(self)@.ram, ..old(self)@ }),
    {
        self.memory.ram[index] = val;
    }

    /// Register `index`; an index above 0xF reads as zero.
    pub fn get_v(&self, index: u8) -> (val: u8)
        ensures
            val == if index < 16 {
                self@.v_reg@[index as int]
            } else {
                0
            },
    {
        if index < 16 {
            self.memory.v_reg[index as usize]
        } else {
            0
        }
    }

    /// Writes `val` to register `index`; an index above 0xF writes nothing.
    pub fn set_v(&mut self, index: u8, val: u8)
        ensures
            final(self)@.v_reg@ == if index < 16 {
                old(self)@.v_reg@.update(index as int, val)
            } else {
                old(self)@.v_reg@
            },
            final(self)@ == (Memory { v_reg: final(self)@.v_reg, ..old(self)@ }),
    {
        if index < 16 {
            self.memory.v_reg[index as usize] = val;
        }
    }

    /// The delay timer.
    pub fn get_dt(&self) -> (dt: u8)
        ensures
            dt == self@.dt,
    {
        self.memory.dt
    }

    /// Sets the delay timer.
    pub fn set_dt(&mut self, val: u8)
        ensures
            final(self)@ == (Memory { dt: val, ..old(self)@ }),
    {
        self.memory.dt = val;
    }

    /// Counts the delay timer down by one, stopping at zero.
    pub fn dec_dt(&mut self)
        ensures
            final(self)@ == (Memory {
                dt: if old(self)@.dt > 0 {
                    (old(self)@.dt - 1) as u8
                } else {
                    0
                },
                ..old(self)@
            }),
    {
        if self.memory.dt > 0 {
            self.memory.dt -= 1;
        }
    }

    /// The sound timer.
    pub fn get_st(&self) -> (st: u8)
        ensures
            st == self@.st,
    {
        self.memory.st
    }

    /// Sets the sound timer.
    pub fn set_st(&mut self, val: u8)
        ensures
            final(self)@ == (Memory { st: val, ..old(self)@ }),
    {
        self.memory.st = val;
    }

    /// Counts the sound timer down by one, stopping at zero.
    pub fn dec_st(&mut self)
        ensures
            final(self)@ == (Memory {
                st: if old(self)@.st > 0 {
                    (old(self)@.st - 1) as u8
                } else {
                    0
                },
                ..old(self)@
            }),
    {
        if self.memory.st > 0 {
            self.memory.st -= 1;
        }
    }

    /// Counts both timers down by one, each stopping at zero.
    pub fn dec_all_timers(&mut self)
        ensures
            final(self)@ == (Memory {
                dt: if old(self)@.dt > 0 {
                    (old(self)@.dt - 1) as u8
                } else {
                    0
                },
                st: if old(self)@.st > 0 {
                    (old(self)@.st - 1) as u8
                } else {
                    0
                },
                ..old(self)@
            }),
    {
        self.dec_dt();
        self.dec_st();
    }

    /// The program counter.
    pub fn get_pc(&self) -> (pc: u16)
        ensures
            pc == self@.pc,
    {
        self.memory.pc
    }

    /// Sets the program counter.
    pub fn set_pc(&mut self, val: u16)
        ensures
            final(self)@ == (Memory { pc: val, ..old(self)@ }),
    {
        self.memory.pc = val;
    }

    /// Advances the program counter by `val`.
    pub fn inc_pc_by(&mut self, val: u16)
        requires
            old(self)@.pc + val <= u16::MAX,
        ensures
            final(self)@ == (Memory { pc: (old(self)@.pc + val) as u16, ..old(self)@ }),
    {
        self.memory.pc += val;
    }

    /// The index register.
    pub fn get_i(&self) -> (i: u16)
        ensures
            i == self@.i_reg,
    {
        self.memory.i_reg
    }

    /// Sets the index register.
    pub fn set_i(&mut self, val: u16)
        ensures
            final(self)@ == (Memory { i_reg: val, ..old(self)@ }),
    {
        self.memory.i_reg = val;
    }

    /// Advances the index register by `val`.
    pub fn inc_i_by(&mut self, val: u16)
        requires
            old(self)@.i_reg + val <= u16::MAX,
        ensures
            final(self)@ == (Memory { i_reg: (old(self)@.i_reg + val) as u16, ..old(self)@ }),
    {
        self.memory.i_reg += val;
    }

    /// Pops the newest return address into the program counter and clears
    /// its stack slot.
    pub fn stack_pop(&mut self)
        requires
            0 < old(self)@.sp <= STACK_SIZE,
        ensures
            final(self)@.pc == old(self)@.stack@[old(self)@.sp - 1],
            final(self)@.sp == old(self)@.sp - 1,
            final(self)@.stack@ == old(self)@.stack@.update(old(self)@.sp - 1, 0u16),
            final(self)@ == (Memory {
                pc: final(self)@.pc,
                sp: final(self)@.sp,
                stack: final(self)@.stack,
                ..old(self)@
            }),
    {
        self.memory.pc = self.memory.stack[(self.memory.sp - 1) as usize];
        self.memory.stack[(self.memory.sp - 1) as usize] = 0;
        self.memory.sp -= 1;
    }

    /// Pushes the program counter and continues at `new_pc_addr`.
    pub fn stack_push(&mut self, new_pc_addr: u16)
        requires
            old(self)@.sp < STACK_SIZE,
        ensures
            final(self)@.pc == new_pc_addr,
            final(self)@.sp == old(self)@.sp + 1,
            final(self)@.stack@ == old(self)@.stack@.update(
                old(self)@.sp as int,
                old(self)@.pc,
            ),
            final(self)@ == (Memory {
                pc: final(self)@.pc,
                sp: final(self)@.sp,
                stack: final(self)@.stack,
                ..old(self)@
            }),
    {
        self.memory.sp += 1;
        self.memory.stack[(self.memory.sp - 1) as usize] = self.memory.pc;
        self.memory.pc = new_pc_addr;
    }
}

} // verus!
