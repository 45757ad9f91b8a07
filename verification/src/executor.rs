//! What each instruction does to the machine.
//!
//! An instruction is executed on the state in which the program counter has
//! already moved on to the following instruction. Where an instruction
//! writes VF and another register, VF is written last.
//!
//! Three choices that the instruction set leaves open are fixed here. The
//! bitwise instructions 8XY1, 8XY2 and 8XY3 leave VF untouched. BNNN jumps to
//! NNN plus V0. A sprite that crosses an edge of the screen continues on the
//! opposite side.

use vstd::prelude::*;
use crate::bit::BitManipulation;
use crate::chip8::{lowest_key_down, wrap_u16, wrap_u8, Machine, RAM_SIZE, SCREEN_SIZE, STACK_SIZE};
use crate::display::{display_after_draw, draw_collides, draw_sprite, sprite_in_memory};
use crate::emulator::{refused, Emulator};
use crate::error::Chip8Error;
use crate::instruction::{Instruction, Quirks};
use crate::random::random_byte;

verus! {

/// Whether a call that reported `res` and took the machine from `before` to
/// `after` did what `expected` says: on success the machine is in the
/// expected state, on a fault that fault is reported and the machine is
/// unchanged.
pub open spec fn agrees(
    res: Result<(), Chip8Error>,
    before: Machine,
    after: Machine,
    expected: Result<Machine, Chip8Error>,
) -> bool {
    match expected {
        Ok(m) => res is Ok && after == m,
        Err(e) => refused(res, e, before, after),
    }
}

/// The value that a shift instruction shifts: VY under the quirk, else VX.
pub open spec fn shift_source(m: Machine, x: u8, y: u8, quirks: Quirks) -> u8 {
    if quirks.shift_uses_vy {
        m.v[y as int]
    } else {
        m.v[x as int]
    }
}

/// Memory after storing V0 to VX from address `i` on.
pub open spec fn ram_after_store(ram: Seq<u8>, v: Seq<u8>, i: u16, x: u8) -> Seq<u8> {
    Seq::new(
        ram.len(),
        |a: int|
            if i <= a <= i + x {
                v[a - i]
            } else {
                ram[a]
            },
    )
}

/// The registers after loading V0 to VX from address `i` on.
pub open spec fn regs_after_load(v: Seq<u8>, ram: Seq<u8>, i: u16, x: u8) -> Seq<u8> {
    Seq::new(
        v.len(),
        |k: int|
            if k <= x {
                ram[i + k]
            } else {
                v[k]
            },
    )
}

/// The index register after a block transfer of V0 to VX: behind the last
/// byte under the quirk, else where it was.
pub open spec fn index_after_transfer(i: u16, x: u8, quirks: Quirks) -> u16 {
    if quirks.load_store_advances_i {
        (i + x + 1) as u16
    } else {
        i
    }
}

/// Memory after storing the decimal digits of `val` at `i`, `i + 1` and
/// `i + 2`.
pub open spec fn ram_after_bcd(ram: Seq<u8>, i: u16, val: u8) -> Seq<u8> {
    ram.update(i as int, val / 100).update(i + 1, (val / 10) % 10).update(i + 2, val % 10)
}

/// The flag value of a condition: 1 if it holds, else 0.
pub open spec fn flag(cond: bool) -> u8 {
    if cond {
        1
    } else {
        0
    }
}

/// What executing `ins` does to the machine `m`, in which the program
/// counter already points behind the instruction: the state that follows,
/// or the fault. `rnd` is the random byte that CXNN uses.
pub open spec fn exec_spec(m: Machine, ins: Instruction, quirks: Quirks, rnd: u8) -> Result<
    Machine,
    Chip8Error,
> {
    if !ins.wf() {
        Err(Chip8Error::IndexFault)
    } else {
        match ins {
            Instruction::Op0000 => Ok(m),
            Instruction::Op00E0 => Ok(
                Machine { display: Seq::new(SCREEN_SIZE as nat, |p: int| false), ..m },
            ),
            Instruction::Op00EE => if m.stack.len() == 0 {
                Err(Chip8Error::StackUnderflow)
            } else {
                Ok(Machine { stack: m.stack.drop_last(), pc: m.stack.last(), ..m })
            },
            Instruction::Op1NNN(nnn) => Ok(Machine { pc: nnn, ..m }),
            Instruction::Op2NNN(nnn) => if m.stack.len() >= STACK_SIZE {
                Err(Chip8Error::StackOverflow)
            } else {
                Ok(Machine { stack: m.stack.push(m.pc), pc: nnn, ..m })
            },
            Instruction::Op3XNN(x, nn) => Ok(m.skip_if(m.v[x as int] == nn)),
            Instruction::Op4XNN(x, nn) => Ok(m.skip_if(m.v[x as int] != nn)),
            Instruction::Op5XY0(x, y) => Ok(m.skip_if(m.v[x as int] == m.v[y as int])),
            Instruction::Op6XNN(x, nn) => Ok(m.set_v(x as int, nn)),
            Instruction::Op7XNN(x, nn) => Ok(m.set_v(x as int, wrap_u8(m.v[x as int] + nn))),
            Instruction::Op8XY0(x, y) => Ok(m.set_v(x as int, m.v[y as int])),
            Instruction::Op8XY1(x, y) => Ok(m.set_v(x as int, m.v[x as int] | m.v[y as int])),
            Instruction::Op8XY2(x, y) => Ok(m.set_v(x as int, m.v[x as int] & m.v[y as int])),
            Instruction::Op8XY3(x, y) => Ok(m.set_v(x as int, m.v[x as int] ^ m.v[y as int])),
            Instruction::Op8XY4(x, y) => {
                let sum = m.v[x as int] + m.v[y as int];
                Ok(m.set_v(x as int, wrap_u8(sum)).set_v(0xF, flag(sum > 255)))
            },
            Instruction::Op8XY5(x, y) => {
                let vx = m.v[x as int];
                let vy = m.v[y as int];
                Ok(m.set_v(x as int, wrap_u8(vx - vy)).set_v(0xF, flag(vx >= vy)))
            },
            Instruction::Op8XY6(x, y) => {
                let source = shift_source(m, x, y, quirks);
                Ok(m.set_v(x as int, source / 2).set_v(0xF, source % 2))
            },
            Instruction::Op8XY7(x, y) => {
                let vx = m.v[x as int];
                let vy = m.v[y as int];
                Ok(m.set_v(x as int, wrap_u8(vy - vx)).set_v(0xF, flag(vy >= vx)))
            },
            Instruction::Op8XYE(x, y) => {
                let source = shift_source(m, x, y, quirks);
                Ok(m.set_v(x as int, wrap_u8(source * 2)).set_v(0xF, source / 128))
            },
            Instruction::Op9XY0(x, y) => Ok(m.skip_if(m.v[x as int] != m.v[y as int])),
            Instruction::OpANNN(nnn) => Ok(Machine { i: nnn, ..m }),
            Instruction::OpBNNN(nnn) => Ok(Machine { pc: ((nnn + m.v[0]) % 4096) as u16, ..m }),
            Instruction::OpCXNN(x, nn) => Ok(m.set_v(x as int, rnd & nn)),
            Instruction::OpDXYN(x, y, n) => {
                let vx = m.v[x as int];
                let vy = m.v[y as int];
                if !sprite_in_memory(m.i, n) {
                    Err(Chip8Error::IndexFault)
                } else {
                    Ok(
                        Machine {
                            display: display_after_draw(m.display, m.ram, m.i, vx, vy, n),
                            ..m
                        }.set_v(0xF, flag(draw_collides(m.display, m.ram, m.i, vx, vy, n))),
                    )
                }
            },
            Instruction::OpEX9E(x) => Ok(m.skip_if(m.keys[(m.v[x as int] % 16) as int])),
            Instruction::OpEXA1(x) => Ok(m.skip_if(!m.keys[(m.v[x as int] % 16) as int])),
            Instruction::OpFX07(x) => Ok(m.set_v(x as int, m.dt)),
            Instruction::OpFX0A(x) => match lowest_key_down(m.keys) {
                Some(key) => Ok(m.set_v(x as int, key)),
                None => Ok(m.rewind(2)),
            },
            Instruction::OpFX15(x) => Ok(Machine { dt: m.v[x as int], ..m }),
            Instruction::OpFX18(x) => Ok(Machine { st: m.v[x as int], ..m }),
            Instruction::OpFX1E(x) => Ok(Machine { i: wrap_u16(m.i + m.v[x as int]), ..m }),
            Instruction::OpFX29(x) => Ok(Machine { i: (5 * (m.v[x as int] % 16)) as u16, ..m }),
            Instruction::OpFX33(x) => if m.i + 2 >= RAM_SIZE {
                Err(Chip8Error::IndexFault)
            } else {
                Ok(Machine { ram: ram_after_bcd(m.ram, m.i, m.v[x as int]), ..m })
            },
            Instruction::OpFX55(x) => if m.i + x >= RAM_SIZE {
                Err(Chip8Error::IndexFault)
            } else {
                Ok(
                    Machine {
                        ram: ram_after_store(m.ram, m.v, m.i, x),
                        i: index_after_transfer(m.i, x, quirks),
                        ..m
                    },
                )
            },
            Instruction::OpFX65(x) => if m.i + x >= RAM_SIZE {
                Err(Chip8Error::IndexFault)
            } else {
                Ok(
                    Machine {
                        v: regs_after_load(m.v, m.ram, m.i, x),
                        i: index_after_transfer(m.i, x, quirks),
                        ..m
                    },
                )
            },
        }
    }
}

/// Stores the decimal digits of `val` at I, I+1 and I+2, or reports that
/// they do not all lie within memory.
fn store_bcd(emu: &mut Emulator, val: u8) -> (res: Result<(), Chip8Error>)
    ensures
        final(emu)@.wf(),
        old(emu)@.i + 2 < RAM_SIZE ==> res is Ok && final(emu)@ == (Machine {
            ram: ram_after_bcd(old(emu)@.ram, old(emu)@.i, val),
            ..old(emu)@
        }),
        old(emu)@.i + 2 >= RAM_SIZE ==> refused(
            res,
            Chip8Error::IndexFault,
            old(emu)@,
            final(emu)@,
        ),
{
    let i: usize = emu.get_i() as usize;
    if i + 2 >= RAM_SIZE {
        return Err(Chip8Error::IndexFault);
    }
    let digits: (u8, u8, u8) = BitManipulation::convert_decimal_to_bcd_tuple(val);
    emu.set_to_ram(i, digits.0)?;
    emu.set_to_ram(i + 1, digits.1)?;
    emu.set_to_ram(i + 2, digits.2)?;
    Ok(())
}

/// Stores V0 to VX in memory from I on and moves I behind them if `quirks`
/// says so, or reports that they do not all lie within memory.
fn store_registers(emu: &mut Emulator, x: u8, quirks: Quirks) -> (res: Result<(), Chip8Error>)
    requires
        x < 16,
    ensures
        final(emu)@.wf(),
        old(emu)@.i + x < RAM_SIZE ==> res is Ok && final(emu)@ == (Machine {
            ram: ram_after_store(old(emu)@.ram, old(emu)@.v, old(emu)@.i, x),
            i: index_after_transfer(old(emu)@.i, x, quirks),
            ..old(emu)@
        }),
        old(emu)@.i + x >= RAM_SIZE ==> refused(
            res,
            Chip8Error::IndexFault,
            old(emu)@,
            final(emu)@,
        ),
{
    let i: u16 = emu.get_i();
    if i as usize + x as usize >= RAM_SIZE {
        return Err(Chip8Error::IndexFault);
    }
    let ghost before = emu@;
    let mut k: u8 = 0;
    while k <= x
        invariant
            k <= x + 1,
            x < 16,
            i + x < RAM_SIZE,
            before.wf(),
            before.i == i,
            emu@.wf(),
            emu@ == (Machine { ram: emu@.ram, ..before }),
            forall|a: int|
                0 <= a < RAM_SIZE ==> emu@.ram[a] == if i <= a < i + k {
                    before.v[a - i]
                } else {
                    before.ram[a]
                },
        decreases x + 1 - k,
    {
        let vk: u8 = emu.get_v(k)?;
        emu.set_to_ram(i as usize + k as usize, vk)?;
        k += 1;
    }
    assert(emu@.ram =~= ram_after_store(before.ram, before.v, i, x));
    if quirks.load_store_advances_i {
        emu.set_i(i + x as u16 + 1);
    }
    Ok(())
}

/// Loads V0 to VX from memory from I on and moves I behind them if `quirks`
/// says so, or reports that they do not all lie within memory.
fn load_registers(emu: &mut Emulator, x: u8, quirks: Quirks) -> (res: Result<(), Chip8Error>)
    requires
        x < 16,
    ensures
        final(emu)@.wf(),
        old(emu)@.i + x < RAM_SIZE ==> res is Ok && final(emu)@ == (Machine {
            v: regs_after_load(old(emu)@.v, old(emu)@.ram, old(emu)@.i, x),
            i: index_after_transfer(old(emu)@.i, x, quirks),
            ..old(emu)@
        }),
        old(emu)@.i + x >= RAM_SIZE ==> refused(
            res,
            Chip8Error::IndexFault,
            old(emu)@,
            final(emu)@,
        ),
{
    let i: u16 = emu.get_i();
    if i as usize + x as usize >= RAM_SIZE {
        return Err(Chip8Error::IndexFault);
    }
    let ghost before = emu@;
    let mut k: u8 = 0;
    while k <= x
        invariant
            k <= x + 1,
            x < 16,
            i + x < RAM_SIZE,
            before.wf(),
            before.i == i,
            emu@.wf(),
            emu@ == (Machine { v: emu@.v, ..before }),
            forall|r: int|
                0 <= r < 16 ==> emu@.v[r] == if r < k {
                    before.ram[i + r]
                } else {
                    before.v[r]
                },
        decreases x + 1 - k,
    {
        let byte: u8 = emu.get_from_ram(i as usize + k as usize)?;
        emu.set_v(k, byte)?;
        k += 1;
    }
    assert(emu@.v =~= regs_after_load(before.v, before.ram, i, x));
    if quirks.load_store_advances_i {
        emu.set_i(i + x as u16 + 1);
    }
    Ok(())
}

impl Instruction {
    /// Whether every operand is in its range.
    pub fn is_valid(&self) -> (valid: bool)
        ensures
            valid == self.wf(),
    {
        match *self {
            Instruction::Op0000 | Instruction::Op00E0 | Instruction::Op00EE => true,
            Instruction::Op1NNN(nnn)
            | Instruction::Op2NNN(nnn)
            | Instruction::OpANNN(nnn)
            | Instruction::OpBNNN(nnn) => nnn < 4096,
            Instruction::Op3XNN(x, _)
            | Instruction::Op4XNN(x, _)
            | Instruction::Op6XNN(x, _)
            | Instruction::Op7XNN(x, _)
            | Instruction::OpCXNN(x, _) => x < 16,
            Instruction::Op5XY0(x, y)
            | Instruction::Op8XY0(x, y)
            | Instruction::Op8XY1(x, y)
            | Instruction::Op8XY2(x, y)
            | Instruction::Op8XY3(x, y)
            | Instruction::Op8XY4(x, y)
            | Instruction::Op8XY5(x, y)
            | Instruction::Op8XY6(x, y)
            | Instruction::Op8XY7(x, y)
            | Instruction::Op8XYE(x, y)
            | Instruction::Op9XY0(x, y) => x < 16 && y < 16,
            Instruction::OpDXYN(x, y, n) => x < 16 && y < 16 && n < 16,
            Instruction::OpEX9E(x)
            | Instruction::OpEXA1(x)
            | Instruction::OpFX07(x)
            | Instruction::OpFX0A(x)
            | Instruction::OpFX15(x)
            | Instruction::OpFX18(x)
            | Instruction::OpFX1E(x)
            | Instruction::OpFX29(x)
            | Instruction::OpFX33(x)
            | Instruction::OpFX55(x)
            | Instruction::OpFX65(x) => x < 16,
        }
    }

    /// Whether the instruction uses a random byte.
    pub open spec fn uses_random(self) -> bool {
        self is OpCXNN
    }

    /// Whether the instruction is a jump, a call, a return, a screen clear
    /// or no operation.
    pub open spec fn is_control(self) -> bool {
        self is Op0000 || self is Op00E0 || self is Op00EE || self is Op1NNN || self is Op2NNN
            || self is OpBNNN
    }

    /// Whether the instruction is a conditional skip.
    pub open spec fn is_skip(self) -> bool {
        self is Op3XNN || self is Op4XNN || self is Op5XY0 || self is Op9XY0 || self is OpEX9E
            || self is OpEXA1
    }

    /// Whether the instruction computes a register from registers, an
    /// operand or a random byte.
    pub open spec fn is_arithmetic(self) -> bool {
        self is Op6XNN || self is Op7XNN || self is Op8XY0 || self is Op8XY1 || self is Op8XY2
            || self is Op8XY3 || self is Op8XY4 || self is Op8XY5 || self is Op8XY6
            || self is Op8XY7 || self is Op8XYE || self is OpCXNN
    }

    /// Executes a jump, a call, a return, a screen clear or no operation.
    fn execute_control(
        &self,
        emu: &mut Emulator,
        Ghost(quirks): Ghost<Quirks>,
        Ghost(rnd): Ghost<u8>,
    ) -> (res: Result<(), Chip8Error>)
        requires
            self.wf(),
            self.is_control(),
            old(emu)@.wf(),
        ensures
            final(emu)@.wf(),
            agrees(res, old(emu)@, final(emu)@, exec_spec(old(emu)@, *self, quirks, rnd)),
    {
        match *self {
            Instruction::Op00E0 => {
                emu.clear_screen();
                Ok(())
            },
            Instruction::Op00EE => emu.stack_pop(),
            Instruction::Op1NNN(nnn) => {
                emu.set_pc(nnn);
                Ok(())
            },
            Instruction::Op2NNN(nnn) => emu.stack_push(nnn),
            Instruction::OpBNNN(nnn) => {
                let v0: u8 = emu.get_v(0)?;
                let target: u16 = nnn + v0 as u16;
                assert(target & 0x0FFF == target % 4096) by (bit_vector);
                emu.set_pc(target & 0x0FFF);
                Ok(())
            },
            _ => Ok(()),
        }
    }

    /// Executes a conditional skip.
    fn execute_skip(
        &self,
        emu: &mut Emulator,
        Ghost(quirks): Ghost<Quirks>,
        Ghost(rnd): Ghost<u8>,
    ) -> (res: Result<(), Chip8Error>)
        requires
            self.wf(),
            self.is_skip(),
            old(emu)@.wf(),
        ensures
            final(emu)@.wf(),
            agrees(res, old(emu)@, final(emu)@, exec_spec(old(emu)@, *self, quirks, rnd)),
    {
        let skip: bool = match *self {
            Instruction::Op3XNN(x, nn) => emu.get_v(x)? == nn,
            Instruction::Op4XNN(x, nn) => emu.get_v(x)? != nn,
            Instruction::Op5XY0(x, y) => emu.get_v(x)? == emu.get_v(y)?,
            Instruction::Op9XY0(x, y) => emu.get_v(x)? != emu.get_v(y)?,
            Instruction::OpEX9E(x) => {
                let vx: u8 = emu.get_v(x)?;
                assert(vx & 0x0F == vx % 16) by (bit_vector);
                emu.is_key_pressed(vx & 0x0F)?
            },
            Instruction::OpEXA1(x) => {
                let vx: u8 = emu.get_v(x)?;
                assert(vx & 0x0F == vx % 16) by (bit_vector);
                !emu.is_key_pressed(vx & 0x0F)?
            },
            _ => false,
        };
        if skip {
            emu.inc_pc_by(2);
        }
        Ok(())
    }

    /// Executes an instruction that computes a register.
    fn execute_arithmetic(&self, emu: &mut Emulator, quirks: Quirks, rnd: u8) -> (res: Result<
        (),
        Chip8Error,
    >)
        requires
            self.wf(),
            self.is_arithmetic(),
            old(emu)@.wf(),
        ensures
            final(emu)@.wf(),
            agrees(res, old(emu)@, final(emu)@, exec_spec(old(emu)@, *self, quirks, rnd)),
    {
        match *self {
            Instruction::Op6XNN(x, nn) => emu.set_v(x, nn),
            Instruction::Op7XNN(x, nn) => {
                let vx: u8 = emu.get_v(x)?;
                emu.set_v(x, vx.wrapping_add(nn))
            },
            Instruction::Op8XY0(x, y) => {
                let vy: u8 = emu.get_v(y)?;
                emu.set_v(x, vy)
            },
            Instruction::Op8XY1(x, y) => {
                let vx: u8 = emu.get_v(x)?;
                let vy: u8 = emu.get_v(y)?;
                emu.set_v(x, vx | vy)
            },
            Instruction::Op8XY2(x, y) => {
                let vx: u8 = emu.get_v(x)?;
                let vy: u8 = emu.get_v(y)?;
                emu.set_v(x, vx & vy)
            },
            Instruction::Op8XY3(x, y) => {
                let vx: u8 = emu.get_v(x)?;
                let vy: u8 = emu.get_v(y)?;
                emu.set_v(x, vx ^ vy)
            },
            Instruction::Op8XY4(x, y) => {
                let vx: u8 = emu.get_v(x)?;
                let vy: u8 = emu.get_v(y)?;
                let carry: u8 = if vx as u16 + vy as u16 > 255 {
                    1
                } else {
                    0
                };
                emu.set_v(x, vx.wrapping_add(vy))?;
                emu.set_v(0xF, carry)
            },
            Instruction::Op8XY5(x, y) => {
                let vx: u8 = emu.get_v(x)?;
                let vy: u8 = emu.get_v(y)?;
                let no_borrow: u8 = if vx >= vy {
                    1
                } else {
                    0
                };
                emu.set_v(x, vx.wrapping_sub(vy))?;
                emu.set_v(0xF, no_borrow)
            },
            Instruction::Op8XY6(x, y) => {
                let source: u8 = if quirks.shift_uses_vy {
                    emu.get_v(y)?
                } else {
                    emu.get_v(x)?
                };
                assert(source >> 1u8 == source / 2) by (bit_vector);
                assert(source & 1u8 == source % 2) by (bit_vector);
                emu.set_v(x, source >> 1u8)?;
                emu.set_v(0xF, source & 1u8)
            },
            Instruction::Op8XY7(x, y) => {
                let vx: u8 = emu.get_v(x)?;
                let vy: u8 = emu.get_v(y)?;
                let no_borrow: u8 = if vy >= vx {
                    1
                } else {
                    0
                };
                emu.set_v(x, vy.wrapping_sub(vx))?;
                emu.set_v(0xF, no_borrow)
            },
            Instruction::Op8XYE(x, y) => {
                let source: u8 = if quirks.shift_uses_vy {
                    emu.get_v(y)?
                } else {
                    emu.get_v(x)?
                };
                assert(source << 1u8 == (source * 2) % 256) by (bit_vector);
                assert((source >> 7u8) & 1u8 == source / 128) by (bit_vector);
                emu.set_v(x, source << 1u8)?;
                emu.set_v(0xF, (source >> 7u8) & 1u8)
            },
            Instruction::OpCXNN(x, nn) => emu.set_v(x, rnd & nn),
            _ => Ok(()),
        }
    }

    /// Executes an instruction that works on the timers, the keypad, the
    /// index register, memory or the screen.
    fn execute_peripheral(&self, emu: &mut Emulator, quirks: Quirks, Ghost(rnd): Ghost<u8>) -> (res:
        Result<(), Chip8Error>)
        requires
            self.wf(),
            !self.is_control(),
            !self.is_skip(),
            !self.is_arithmetic(),
            old(emu)@.wf(),
        ensures
            final(emu)@.wf(),
            agrees(res, old(emu)@, final(emu)@, exec_spec(old(emu)@, *self, quirks, rnd)),
    {
        match *self {
            Instruction::OpANNN(nnn) => {
                emu.set_i(nnn);
                Ok(())
            },
            Instruction::OpDXYN(x, y, n) => {
                let vx: u8 = emu.get_v(x)?;
                let vy: u8 = emu.get_v(y)?;
                let collision: bool = draw_sprite(emu, vx, vy, n)?;
                emu.set_v(
                    0xF,
                    if collision {
                        1
                    } else {
                        0
                    },
                )
            },
            Instruction::OpFX07(x) => {
                let dt: u8 = emu.get_dt();
                emu.set_v(x, dt)
            },
            Instruction::OpFX0A(x) => {
                match emu.check_key_press() {
                    Some(key) => emu.set_v(x, key),
                    None => {
                        emu.dec_pc_by(2);
                        Ok(())
                    },
                }
            },
            Instruction::OpFX15(x) => {
                let vx: u8 = emu.get_v(x)?;
                emu.set_dt(vx);
                Ok(())
            },
            Instruction::OpFX18(x) => {
                let vx: u8 = emu.get_v(x)?;
                emu.set_st(vx);
                Ok(())
            },
            Instruction::OpFX1E(x) => {
                let vx: u8 = emu.get_v(x)?;
                emu.inc_i_by(vx as u16);
                Ok(())
            },
            Instruction::OpFX29(x) => {
                let vx: u8 = emu.get_v(x)?;
                assert(vx & 0x0F == vx % 16) by (bit_vector);
                emu.set_i(5 * (vx & 0x0F) as u16);
                Ok(())
            },
            Instruction::OpFX33(x) => {
                let vx: u8 = emu.get_v(x)?;
                store_bcd(emu, vx)
            },
            Instruction::OpFX55(x) => store_registers(emu, x, quirks),
            Instruction::OpFX65(x) => load_registers(emu, x, quirks),
            _ => Ok(()),
        }
    }

    /// Executes the instruction with the given quirks; `rnd` is the random
    /// byte that CXNN uses. An operand out of range is an index fault. On a
    /// fault the machine is left as it was.
    pub fn execute(&self, emu: &mut Emulator, quirks: Quirks, rnd: u8) -> (res: Result<
        (),
        Chip8Error,
    >)
        ensures
            final(emu)@.wf(),
            agrees(res, old(emu)@, final(emu)@, exec_spec(old(emu)@, *self, quirks, rnd)),
    {
        emu.recall_shape();
        if !self.is_valid() {
            return Err(Chip8Error::IndexFault);
        }
        match *self {
            Instruction::Op0000
            | Instruction::Op00E0
            | Instruction::Op00EE
            | Instruction::Op1NNN(_)
            | Instruction::Op2NNN(_)
            | Instruction::OpBNNN(_) => self.execute_control(emu, Ghost(quirks), Ghost(rnd)),
            Instruction::Op3XNN(_, _)
            | Instruction::Op4XNN(_, _)
            | Instruction::Op5XY0(_, _)
            | Instruction::Op9XY0(_, _)
            | Instruction::OpEX9E(_)
            | Instruction::OpEXA1(_) => self.execute_skip(emu, Ghost(quirks), Ghost(rnd)),
            Instruction::Op6XNN(_, _)
            | Instruction::Op7XNN(_, _)
            | Instruction::Op8XY0(_, _)
            | Instruction::Op8XY1(_, _)
            | Instruction::Op8XY2(_, _)
            | Instruction::Op8XY3(_, _)
            | Instruction::Op8XY4(_, _)
            | Instruction::Op8XY5(_, _)
            | Instruction::Op8XY6(_, _)
            | Instruction::Op8XY7(_, _)
            | Instruction::Op8XYE(_, _)
            | Instruction::OpCXNN(_, _) => self.execute_arithmetic(emu, quirks, rnd),
            _ => self.execute_peripheral(emu, quirks, Ghost(rnd)),
        }
    }

    /// Executes the instruction with the standard quirks, drawing the random
    /// byte of CXNN itself. Whatever byte was drawn, the machine ends as
    /// `exec_spec` says for that byte; only CXNN depends on it.
    pub fn call(&self, emu: &mut Emulator) -> (res: Result<(), Chip8Error>)
        ensures
            final(emu)@.wf(),
            exists|rnd: u8|
                agrees(
                    res,
                    old(emu)@,
                    final(emu)@,
                    #[trigger] exec_spec(old(emu)@, *self, Quirks::standard(), rnd),
                ),
            !self.uses_random() ==> agrees(
                res,
                old(emu)@,
                final(emu)@,
                exec_spec(old(emu)@, *self, Quirks::standard(), 0),
            ),
    {
        let rnd: u8 = match *self {
            Instruction::OpCXNN(_, _) => random_byte(),
            _ => 0,
        };
        self.execute(emu, Quirks::default(), rnd)
    }
}

} // verus!
