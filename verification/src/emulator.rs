//! Checked access to the machine state.

use vstd::prelude::*;
use crate::chip8::{
    decayed, is_lowest_key_down, lemma_lowest_key_down, lowest_key_down, pixel_index, wrap_u16,
    Machine, CHIP8, FONT_SIZE, HEX_DIGITS, MAX_ROM_SIZE, NUM_KEYS, NUM_REGS, RAM_SIZE,
    SCREEN_HEIGHT, SCREEN_SIZE, SCREEN_WIDTH, STACK_SIZE, START_ADDR,
};
use crate::error::Chip8Error;
use crate::math_2d::Math2d;

verus! {

/// Memory after loading the font table: the glyphs at the bottom, the rest
/// as it was.
pub open spec fn ram_with_font(ram: Seq<u8>) -> Seq<u8> {
    Seq::new(
        ram.len(),
        |a: int|
            if a < FONT_SIZE {
                HEX_DIGITS@[a]
            } else {
                ram[a]
            },
    )
}

/// Memory after loading a program image: the image from the load address on,
/// the rest as it was.
pub open spec fn ram_with_rom(ram: Seq<u8>, rom: Seq<u8>) -> Seq<u8> {
    Seq::new(
        ram.len(),
        |a: int|
            if START_ADDR <= a < START_ADDR + rom.len() {
                rom[a - START_ADDR]
            } else {
                ram[a]
            },
    )
}

/// Whether a call that reported `res` and took the machine from `before` to
/// `after` refused its input: it reported `fault` and left the machine as it
/// was.
pub open spec fn refused<T>(
    res: Result<T, Chip8Error>,
    fault: Chip8Error,
    before: Machine,
    after: Machine,
) -> bool {
    res == Err::<T, Chip8Error>(fault) && after == before
}

/// The machine behind accessors that never panic: each one either succeeds
/// or reports a fault and leaves the state as it was. Every state that an
/// emulator can be in has the shape `Machine::wf`.
pub struct Emulator {
    chip8: CHIP8,
}

impl View for Emulator {
    type V = Machine;

    closed spec fn view(&self) -> Machine {
        self.chip8@
    }
}

impl Emulator {
    #[verifier::type_invariant]
    spec fn inv(&self) -> bool {
        self.chip8.wf()
    }

    /// Wraps a valid state.
    pub fn new(chip8: CHIP8) -> (emulator: Self)
        requires
            chip8.wf(),
        ensures
            emulator@ == chip8@,
            emulator@.wf(),
    {
        Self { chip8 }
    }

    /// Does nothing when it runs. To the verifier it recalls that every
    /// emulator is in a state of the shape `Machine::wf`.
    pub fn recall_shape(&self)
        ensures
            self@.wf(),
    {
        proof {
            use_type_invariant(self);
        }
    }

    /// Brings the machine back to its state after power-on.
    pub fn reset(&mut self)
        ensures
            final(self)@ == Machine::initial(),
            final(self)@.wf(),
    {
        self.chip8 = CHIP8::default();
    }

    /// Loads a program image and then the font table.
    pub fn init_ram(&mut self, rom: &[u8]) -> (res: Result<(), Chip8Error>)
        ensures
            final(self)@.wf(),
            rom@.len() <= MAX_ROM_SIZE ==> res is Ok && final(self)@ == (Machine {
                ram: ram_with_font(ram_with_rom(old(self)@.ram, rom@)),
                ..old(self)@
            }),
            rom@.len() > MAX_ROM_SIZE ==> refused(
                res,
                Chip8Error::RomTooLarge,
                old(self)@,
                final(self)@,
            ),
    {
        proof {
            use_type_invariant(&*self);
        }
        self.load_rom(rom)?;
        self.load_hex_digits()
    }

    /// Copies a program image to memory from the load address on, or reports
    /// an image that does not fit.
    pub fn load_rom(&mut self, rom: &[u8]) -> (res: Result<(), Chip8Error>)
        ensures
            final(self)@.wf(),
            rom@.len() <= MAX_ROM_SIZE ==> res is Ok && final(self)@ == (Machine {
                ram: ram_with_rom(old(self)@.ram, rom@),
                ..old(self)@
            }),
            rom@.len() > MAX_ROM_SIZE ==> refused(
                res,
                Chip8Error::RomTooLarge,
                old(self)@,
                final(self)@,
            ),
    {
        proof {
            use_type_invariant(&*self);
        }
        if rom.len() > MAX_ROM_SIZE {
            return Err(Chip8Error::RomTooLarge);
        }
        let mut k: usize = 0;
        while k < rom.len()
            invariant
                k <= rom@.len() <= MAX_ROM_SIZE,
                self.chip8.wf(),
                self@ == (Machine { ram: self@.ram, ..old(self)@ }),
                self@.ram.len() == RAM_SIZE,
                forall|a: int|
                    0 <= a < RAM_SIZE ==> self@.ram[a] == if START_ADDR <= a < START_ADDR + k {
                        rom@[a - START_ADDR]
                    } else {
                        old(self)@.ram[a]
                    },
            decreases rom@.len() - k,
        {
            self.chip8.ram[0x200 + k] = rom[k];
            k += 1;
        }
        assert(self@.ram =~= ram_with_rom(old(self)@.ram, rom@));
        Ok(())
    }

    /// Copies the font table to the bottom of memory. Never fails.
    pub fn load_hex_digits(&mut self) -> (res: Result<(), Chip8Error>)
        ensures
            res is Ok,
            final(self)@.wf(),
            final(self)@ == (Machine { ram: ram_with_font(old(self)@.ram), ..old(self)@ }),
    {
        proof {
            use_type_invariant(&*self);
        }
        let mut a: usize = 0;
        while a < FONT_SIZE
            invariant
                a <= FONT_SIZE,
                self.chip8.wf(),
                self@ == (Machine { ram: self@.ram, ..old(self)@ }),
                self@.ram.len() == RAM_SIZE,
                forall|b: int|
                    0 <= b < RAM_SIZE ==> self@.ram[b] == if b < a {
                        HEX_DIGITS@[b]
                    } else {
                        old(self)@.ram[b]
                    },
            decreases FONT_SIZE - a,
        {
            self.chip8.ram[a] = HEX_DIGITS[a];
            a += 1;
        }
        assert(self@.ram =~= ram_with_font(old(self)@.ram));
        Ok(())
    }

    /// A copy of the whole memory.
    pub fn get_ram(&self) -> (ram: [u8; 4096])
        ensures
            ram@ == self@.ram,
            self@.wf(),
    {
        proof {
            use_type_invariant(self);
        }
        self.chip8.ram
    }

    /// The byte at address `index`, or a fault for an address beyond memory.
    pub fn get_from_ram(&self, index: usize) -> (res: Result<u8, Chip8Error>)
        ensures
            self@.wf(),
            index < RAM_SIZE ==> res == Ok::<u8, Chip8Error>(self@.ram[index as int]),
            index >= RAM_SIZE ==> res == Err::<u8, Chip8Error>(Chip8Error::IndexFault),
    {
        proof {
            use_type_invariant(self);
        }
        if index >= RAM_SIZE {
            return Err(Chip8Error::IndexFault);
        }
        Ok(self.chip8.ram[index])
    }

    /// Writes `val` at address `index`, or reports an address beyond memory.
    pub fn set_to_ram(&mut self, index: usize, val: u8) -> (res: Result<(), Chip8Error>)
        ensures
            final(self)@.wf(),
            index < RAM_SIZE ==> res is Ok && final(self)@ == old(self)@.set_ram(index as int, val),
            index >= RAM_SIZE ==> refused(res, Chip8Error::IndexFault, old(self)@, final(self)@),
    {
        proof {
            use_type_invariant(&*self);
        }
        if index >= RAM_SIZE {
            return Err(Chip8Error::IndexFault);
        }
        self.chip8.ram[index] = val;
        Ok(())
    }

    /// Register `index`, or a fault for an index above 0xF.
    pub fn get_v(&self, index: u8) -> (res: Result<u8, Chip8Error>)
        ensures
            self@.wf(),
            index < NUM_REGS ==> res == Ok::<u8, Chip8Error>(self@.v[index as int]),
            index >= NUM_REGS ==> res == Err::<u8, Chip8Error>(Chip8Error::IndexFault),
    {
        proof {
            use_type_invariant(self);
        }
        if index > 0xF {
            return Err(Chip8Error::IndexFault);
        }
        Ok(self.chip8.v_reg[index as usize])
    }

    /// Writes `val` to register `index`, or reports an index above 0xF.
    pub fn set_v(&mut self, index: u8, val: u8) -> (res: Result<(), Chip8Error>)
        ensures
            final(self)@.wf(),
            index < NUM_REGS ==> res is Ok && final(self)@ == old(self)@.set_v(index as int, val),
            index >= NUM_REGS ==> refused(res, Chip8Error::IndexFault, old(self)@, final(self)@),
    {
        proof {
            use_type_invariant(&*self);
        }
        if index > 0xF {
            return Err(Chip8Error::IndexFault);
        }
        self.chip8.v_reg[index as usize] = val;
        Ok(())
    }

    /// The delay timer.
    pub fn get_dt(&self) -> (dt: u8)
        ensures
            dt == self@.dt,
            self@.wf(),
    {
        proof {
            use_type_invariant(self);
        }
        self.chip8.dt
    }

    /// Sets the delay timer.
    pub fn set_dt(&mut self, val: u8)
        ensures
            final(self)@ == (Machine { dt: val, ..old(self)@ }),
            final(self)@.wf(),
    {
        proof {
            use_type_invariant(&*self);
        }
        self.chip8.dt = val;
    }

    /// Counts the delay timer down by one, stopping at zero.
    pub fn dec_dt(&mut self)
        ensures
            final(self)@ == (Machine { dt: decayed(old(self)@.dt, 1), ..old(self)@ }),
            final(self)@.wf(),
    {
        proof {
            use_type_invariant(&*self);
        }
        if self.chip8.dt > 0 {
            self.chip8.dt -= 1;
        }
    }

    /// The sound timer.
    pub fn get_st(&self) -> (st: u8)
        ensures
            st == self@.st,
            self@.wf(),
    {
        proof {
            use_type_invariant(self);
        }
        self.chip8.st
    }

    /// Sets the sound timer.
    pub fn set_st(&mut self, val: u8)
        ensures
            final(self)@ == (Machine { st: val, ..old(self)@ }),
            final(self)@.wf(),
    {
        proof {
            use_type_invariant(&*self);
        }
        self.chip8.st = val;
    }

    /// Counts the sound timer down by one, stopping at zero.
    pub fn dec_st(&mut self)
        ensures
            final(self)@ == (Machine { st: decayed(old(self)@.st, 1), ..old(self)@ }),
            final(self)@.wf(),
    {
        proof {
            use_type_invariant(&*self);
        }
        if self.chip8.st > 0 {
            self.chip8.st -= 1;
        }
    }

    /// One timer tick: counts both timers down by one, each stopping at zero.
    pub fn dec_all_timers(&mut self)
        ensures
            final(self)@ == old(self)@.tick_timers(),
            final(self)@.wf(),
    {
        self.dec_dt();
        self.dec_st();
    }

    /// Whether the buzzer sounds: the sound timer has not run out.
    pub fn buzzer(&self) -> (on: bool)
        ensures
            on == self@.buzzer(),
            self@.wf(),
    {
        proof {
            use_type_invariant(self);
        }
        self.chip8.st > 0
    }

    /// The program counter.
    pub fn get_pc(&self) -> (pc: u16)
        ensures
            pc == self@.pc,
            self@.wf(),
    {
        proof {
            use_type_invariant(self);
        }
        self.chip8.pc
    }

    /// Sets the program counter.
    pub fn set_pc(&mut self, val: u16)
        ensures
            final(self)@ == (Machine { pc: val, ..old(self)@ }),
            final(self)@.wf(),
    {
        proof {
            use_type_invariant(&*self);
        }
        self.chip8.pc = val;
    }

    /// Advances the program counter by `val`, wrapping at 16 bits.
    pub fn inc_pc_by(&mut self, val: u16)
        ensures
            final(self)@ == (Machine { pc: wrap_u16(old(self)@.pc + val), ..old(self)@ }),
            final(self)@.wf(),
    {
        proof {
            use_type_invariant(&*self);
        }
        self.chip8.pc = self.chip8.pc.wrapping_add(val);
    }

    /// Moves the program counter back by `val`, wrapping at 16 bits; a
    /// program counter of zero stays where it is.
    pub fn dec_pc_by(&mut self, val: u16)
        ensures
            final(self)@ == old(self)@.rewind(val),
            final(self)@.wf(),
    {
        proof {
            use_type_invariant(&*self);
        }
        if self.chip8.pc > 0 {
            self.chip8.pc = self.chip8.pc.wrapping_sub(val);
        }
    }

    /// The index register.
    pub fn get_i(&self) -> (i: u16)
        ensures
            i == self@.i,
            self@.wf(),
    {
        proof {
            use_type_invariant(self);
        }
        self.chip8.i_reg
    }

    /// Sets the index register.
    pub fn set_i(&mut self, val: u16)
        ensures
            final(self)@ == (Machine { i: val, ..old(self)@ }),
            final(self)@.wf(),
    {
        proof {
            use_type_invariant(&*self);
        }
        self.chip8.i_reg = val;
    }

    /// Advances the index register by `val`, wrapping at 16 bits.
    pub fn inc_i_by(&mut self, val: u16)
        ensures
            final(self)@ == (Machine { i: wrap_u16(old(self)@.i + val), ..old(self)@ }),
            final(self)@.wf(),
    {
        proof {
            use_type_invariant(&*self);
        }
        self.chip8.i_reg = self.chip8.i_reg.wrapping_add(val);
    }

    /// The stack pointer: the number of live stack entries.
    pub fn get_sp(&self) -> (sp: u8)
        ensures
            sp == self@.sp(),
            sp <= STACK_SIZE,
            self@.wf(),
    {
        proof {
            use_type_invariant(self);
        }
        self.chip8.sp
    }

    /// Pops the newest return address into the program counter, or reports
    /// an empty stack.
    pub fn stack_pop(&mut self) -> (res: Result<(), Chip8Error>)
        ensures
            final(self)@.wf(),
            old(self)@.sp() > 0 ==> res is Ok && final(self)@ == (Machine {
                stack: old(self)@.stack.drop_last(),
                pc: old(self)@.stack.last(),
                ..old(self)@
            }),
            old(self)@.sp() == 0 ==> refused(
                res,
                Chip8Error::StackUnderflow,
                old(self)@,
                final(self)@,
            ),
    {
        proof {
            use_type_invariant(&*self);
        }
        if self.chip8.sp == 0 {
            return Err(Chip8Error::StackUnderflow);
        }
        self.chip8.pc = self.chip8.stack[(self.chip8.sp - 1) as usize];
        self.chip8.stack[(self.chip8.sp - 1) as usize] = 0;
        self.chip8.sp -= 1;
        assert(self@.stack =~= old(self)@.stack.drop_last());
        Ok(())
    }

    /// Pushes the program counter and continues at `new_pc_addr`, or reports
    /// a full stack.
    pub fn stack_push(&mut self, new_pc_addr: u16) -> (res: Result<(), Chip8Error>)
        ensures
            final(self)@.wf(),
            old(self)@.sp() < STACK_SIZE ==> res is Ok && final(self)@ == (Machine {
                stack: old(self)@.stack.push(old(self)@.pc),
                pc: new_pc_addr,
                ..old(self)@
            }),
            old(self)@.sp() >= STACK_SIZE ==> refused(
                res,
                Chip8Error::StackOverflow,
                old(self)@,
                final(self)@,
            ),
    {
        proof {
            use_type_invariant(&*self);
        }
        if self.chip8.sp >= 16 {
            return Err(Chip8Error::StackOverflow);
        }
        self.chip8.stack[self.chip8.sp as usize] = self.chip8.pc;
        self.chip8.sp += 1;
        self.chip8.pc = new_pc_addr;
        assert(self@.stack =~= old(self)@.stack.push(old(self)@.pc));
        Ok(())
    }

    /// A copy of the framebuffer, row after row.
    pub fn get_display(&self) -> (display: [bool; 2048])
        ensures
            display@ == self@.display,
            self@.wf(),
    {
        proof {
            use_type_invariant(self);
        }
        self.chip8.display
    }

    /// Turns every pixel off.
    pub fn clear_screen(&mut self)
        ensures
            final(self)@ == (Machine {
                display: Seq::new(SCREEN_SIZE as nat, |p: int| false),
                ..old(self)@
            }),
            final(self)@.wf(),
    {
        proof {
            use_type_invariant(&*self);
        }
        self.chip8.display = [false; 2048];
        assert(self@.display =~= Seq::new(SCREEN_SIZE as nat, |p: int| false));
    }

    /// The pixel in column `x` of row `y`, or a fault for a place outside
    /// the screen.
    pub fn get_pixel(&self, x: usize, y: usize) -> (res: Result<bool, Chip8Error>)
        ensures
            self@.wf(),
            x < SCREEN_WIDTH && y < SCREEN_HEIGHT ==> res == Ok::<bool, Chip8Error>(
                self@.display[pixel_index(x as int, y as int)],
            ),
            !(x < SCREEN_WIDTH && y < SCREEN_HEIGHT) ==> res == Err::<bool, Chip8Error>(
                Chip8Error::IndexFault,
            ),
    {
        proof {
            use_type_invariant(self);
        }
        if x >= SCREEN_WIDTH || y >= SCREEN_HEIGHT {
            return Err(Chip8Error::IndexFault);
        }
        Ok(self.chip8.display[y * SCREEN_WIDTH + x])
    }

    /// Sets the pixel in column `x` of row `y`, or reports a place outside
    /// the screen.
    pub fn set_pixel(&mut self, x: usize, y: usize, on: bool) -> (res: Result<(), Chip8Error>)
        ensures
            final(self)@.wf(),
            x < SCREEN_WIDTH && y < SCREEN_HEIGHT ==> res is Ok && final(self)@ == (Machine {
                display: old(self)@.display.update(pixel_index(x as int, y as int), on),
                ..old(self)@
            }),
            !(x < SCREEN_WIDTH && y < SCREEN_HEIGHT) ==> refused(
                res,
                Chip8Error::IndexFault,
                old(self)@,
                final(self)@,
            ),
    {
        proof {
            use_type_invariant(&*self);
        }
        if x >= SCREEN_WIDTH || y >= SCREEN_HEIGHT {
            return Err(Chip8Error::IndexFault);
        }
        self.chip8.display[y * SCREEN_WIDTH + x] = on;
        Ok(())
    }

    /// Inverts the pixel in column `x mod 64` of row `y mod 32` and says
    /// whether it was lit before.
    pub fn toggle_pixel(&mut self, x: u8, y: u8) -> (was_lit: bool)
        ensures
            final(self)@.wf(),
            was_lit == old(self)@.display[pixel_index(x as int % 64, y as int % 32)],
            final(self)@ == (Machine {
                display: old(self)@.display.update(
                    pixel_index(x as int % 64, y as int % 32),
                    !was_lit,
                ),
                ..old(self)@
            }),
    {
        proof {
            use_type_invariant(&*self);
        }
        let column: usize = Math2d::wrap_coord(x, 64) as usize;
        let row: usize = Math2d::wrap_coord(y, 32) as usize;
        let index: usize = row * SCREEN_WIDTH + column;
        let was_lit: bool = self.chip8.display[index];
        self.chip8.display[index] = !was_lit;
        was_lit
    }

    /// Whether key `idx` is held down, or a fault for an index above 0xF.
    pub fn is_key_pressed(&self, idx: u8) -> (res: Result<bool, Chip8Error>)
        ensures
            self@.wf(),
            idx < NUM_KEYS ==> res == Ok::<bool, Chip8Error>(self@.keys[idx as int]),
            idx >= NUM_KEYS ==> res == Err::<bool, Chip8Error>(Chip8Error::IndexFault),
    {
        proof {
            use_type_invariant(self);
        }
        if idx > 0xF {
            return Err(Chip8Error::IndexFault);
        }
        Ok(self.chip8.keys[idx as usize])
    }

    /// Records key `idx` as held down or released, or reports an index
    /// above 0xF.
    pub fn set_key(&mut self, idx: u8, down: bool) -> (res: Result<(), Chip8Error>)
        ensures
            final(self)@.wf(),
            idx < NUM_KEYS ==> res is Ok && final(self)@ == (Machine {
                keys: old(self)@.keys.update(idx as int, down),
                ..old(self)@
            }),
            idx >= NUM_KEYS ==> refused(res, Chip8Error::IndexFault, old(self)@, final(self)@),
    {
        proof {
            use_type_invariant(&*self);
        }
        if idx > 0xF {
            return Err(Chip8Error::IndexFault);
        }
        self.chip8.keys[idx as usize] = down;
        Ok(())
    }

    /// Replaces the keypad state by a snapshot of all 16 keys.
    pub fn set_keys(&mut self, keys: [bool; 16])
        ensures
            final(self)@ == (Machine { keys: keys@, ..old(self)@ }),
            final(self)@.wf(),
    {
        proof {
            use_type_invariant(&*self);
        }
        self.chip8.keys = keys;
    }

    /// The lowest key that is held down, if any key is.
    pub fn check_key_press(&self) -> (key: Option<u8>)
        ensures
            self@.wf(),
            key == lowest_key_down(self@.keys),
            match key {
                Some(k) => is_lowest_key_down(self@.keys, k as int),
                None => forall|j: int| 0 <= j < NUM_KEYS ==> !self@.keys[j],
            },
    {
        proof {
            use_type_invariant(self);
        }
        let mut k: u8 = 0;
        while k < 16
            invariant
                k <= 16,
                self@.wf(),
                forall|j: int| 0 <= j < k ==> !self@.keys[j],
            decreases 16 - k,
        {
            if self.chip8.keys[k as usize] {
                proof {
                    lemma_lowest_key_down(self@.keys, k as int);
                }
                return Some(k);
            }
            k += 1;
        }
        proof {
            lemma_lowest_key_down(self@.keys, 0);
        }
        None
    }
}

} // verus!
