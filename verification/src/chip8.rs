//! The architectural state of the machine and its mathematical model.

use vstd::prelude::*;

verus! {

/// Bytes of addressable memory.
pub const RAM_SIZE: usize = 4096;

/// Return addresses that the call stack can hold.
pub const STACK_SIZE: usize = 16;

/// General-purpose registers, V0 to VF.
pub const NUM_REGS: usize = 16;

/// Keys of the hexadecimal keypad.
pub const NUM_KEYS: usize = 16;

/// Address at which programs are loaded and start.
pub const START_ADDR: u16 = 0x200;

/// Pixels per framebuffer row.
pub const SCREEN_WIDTH: usize = 64;

/// Framebuffer rows.
pub const SCREEN_HEIGHT: usize = 32;

/// Pixels of the framebuffer, row after row.
pub const SCREEN_SIZE: usize = 2048;

/// Bytes of the font table: 16 glyphs of 5 rows each.
pub const FONT_SIZE: usize = 80;

/// Longest program image that fits above the load address.
pub const MAX_ROM_SIZE: usize = 3584;

/// The glyphs of the hexadecimal digits 0 to F, five rows each, the leftmost
/// pixel in the most significant bit.
pub const HEX_DIGITS: [u8; 80] = [
    0xF0, 0x90, 0x90, 0x90, 0xF0,
    0x20, 0x60, 0x20, 0x20, 0x70,
    0xF0, 0x10, 0xF0, 0x80, 0xF0,
    0xF0, 0x10, 0xF0, 0x10, 0xF0,
    0x90, 0x90, 0xF0, 0x10, 0x10,
    0xF0, 0x80, 0xF0, 0x10, 0xF0,
    0xF0, 0x80, 0xF0, 0x90, 0xF0,
    0xF0, 0x10, 0x20, 0x40, 0x40,
    0xF0, 0x90, 0xF0, 0x90, 0xF0,
    0xF0, 0x90, 0xF0, 0x10, 0xF0,
    0xF0, 0x90, 0xF0, 0x90, 0x90,
    0xE0, 0x90, 0xE0, 0x90, 0xE0,
    0xF0, 0x80, 0x80, 0x80, 0xF0,
    0xE0, 0x90, 0x90, 0x90, 0xE0,
    0xF0, 0x80, 0xF0, 0x80, 0xF0,
    0xF0, 0x80, 0xF0, 0x80, 0x80,
];

/// `n` reduced into the range of a byte.
pub open spec fn wrap_u8(n: int) -> u8 {
    (n % 256) as u8
}

/// `n` reduced into the range of a 16-bit word.
pub open spec fn wrap_u16(n: int) -> u16 {
    (n % 65536) as u16
}

/// A timer that held `t`, after `k` ticks with no write in between.
pub open spec fn decayed(t: u8, k: nat) -> u8 {
    if t >= k {
        (t - k) as u8
    } else {
        0
    }
}

/// Whether `k` is the lowest key that is held down.
pub open spec fn is_lowest_key_down(keys: Seq<bool>, k: int) -> bool {
    &&& 0 <= k < keys.len()
    &&& keys[k]
    &&& forall|j: int| 0 <= j < k ==> !keys[j]
}

/// The lowest key that is held down, if there is one.
pub open spec fn lowest_key_down(keys: Seq<bool>) -> Option<u8> {
    if exists|k: int| is_lowest_key_down(keys, k) {
        Some((choose|k: int| is_lowest_key_down(keys, k)) as u8)
    } else {
        None
    }
}

/// The lowest key that is held down is `k` exactly when `k` is held down and
/// no key below it is; there is none exactly when no key is held down.
pub proof fn lemma_lowest_key_down(keys: Seq<bool>, k: int)
    ensures
        is_lowest_key_down(keys, k) && k < 256 ==> lowest_key_down(keys) == Some(k as u8),
        lowest_key_down(keys) is None <==> forall|j: int| 0 <= j < keys.len() ==> !keys[j],
{
    if is_lowest_key_down(keys, k) {
        let c = choose|c: int| is_lowest_key_down(keys, c);
        assert(c == k);
    }
    if exists|j: int| 0 <= j < keys.len() && keys[j] {
        let j = choose|j: int| 0 <= j < keys.len() && keys[j];
        lemma_some_key_is_lowest(keys, j);
    }
}

/// If key `j` is held down, some key is the lowest that is held down.
proof fn lemma_some_key_is_lowest(keys: Seq<bool>, j: int)
    requires
        0 <= j < keys.len(),
        keys[j],
    ensures
        exists|k: int| is_lowest_key_down(keys, k),
    decreases j,
{
    if exists|i: int| 0 <= i < j && keys[i] {
        let i = choose|i: int| 0 <= i < j && keys[i];
        lemma_some_key_is_lowest(keys, i);
    } else {
        assert(is_lowest_key_down(keys, j));
    }
}

/// The index of the pixel in column `x` of row `y`.
pub open spec fn pixel_index(x: int, y: int) -> int {
    y * SCREEN_WIDTH + x
}

/// The mathematical model of the machine: what a program can observe.
pub struct Machine {
    /// Memory, one byte per address.
    pub ram: Seq<u8>,
    /// The registers V0 to VF.
    pub v: Seq<u8>,
    /// The index register.
    pub i: u16,
    /// The program counter.
    pub pc: u16,
    /// The live return addresses, the oldest first.
    pub stack: Seq<u16>,
    /// The delay timer.
    pub dt: u8,
    /// The sound timer.
    pub st: u8,
    /// The framebuffer, row after row; `true` is a lit pixel.
    pub display: Seq<bool>,
    /// The keypad; `true` is a key held down.
    pub keys: Seq<bool>,
}

impl Machine {
    /// The shape that every machine state has: 4096 bytes of memory, 16
    /// registers, at most 16 live stack entries, 2048 pixels and 16 keys.
    pub open spec fn wf(self) -> bool {
        &&& self.ram.len() == RAM_SIZE
        &&& self.v.len() == NUM_REGS
        &&& self.stack.len() <= STACK_SIZE
        &&& self.display.len() == SCREEN_SIZE
        &&& self.keys.len() == NUM_KEYS
    }

    /// The stack pointer: the number of live stack entries.
    pub open spec fn sp(self) -> nat {
        self.stack.len()
    }

    /// The state with register `x` holding `val`.
    pub open spec fn set_v(self, x: int, val: u8) -> Machine {
        Machine { v: self.v.update(x, val), ..self }
    }

    /// The state with the byte at address `a` holding `val`.
    pub open spec fn set_ram(self, a: int, val: u8) -> Machine {
        Machine { ram: self.ram.update(a, val), ..self }
    }

    /// The state with the next instruction skipped if `cond` holds.
    pub open spec fn skip_if(self, cond: bool) -> Machine {
        if cond {
            Machine { pc: wrap_u16(self.pc + 2), ..self }
        } else {
            self
        }
    }

    /// The state with the program counter moved back by `val`, as far as it
    /// is not zero already.
    pub open spec fn rewind(self, val: u16) -> Machine {
        if self.pc > 0 {
            Machine { pc: wrap_u16(self.pc - val), ..self }
        } else {
            self
        }
    }

    /// The state after one timer tick: each timer that is not zero loses one.
    pub open spec fn tick_timers(self) -> Machine {
        Machine { dt: decayed(self.dt, 1), st: decayed(self.st, 1), ..self }
    }

    /// Whether the buzzer sounds: the sound timer has not run out.
    pub open spec fn buzzer(self) -> bool {
        self.st > 0
    }

    /// The state after a reset: the font table at the bottom of memory, the
    /// program counter at the load address, everything else zero or off.
    pub open spec fn initial() -> Machine {
        Machine {
            ram: Seq::new(
                RAM_SIZE as nat,
                |a: int|
                    if a < FONT_SIZE {
                        HEX_DIGITS@[a]
                    } else {
                        0u8
                    },
            ),
            v: Seq::new(NUM_REGS as nat, |r: int| 0u8),
            i: 0,
            pc: START_ADDR,
            stack: Seq::empty(),
            dt: 0,
            st: 0,
            display: Seq::new(SCREEN_SIZE as nat, |p: int| false),
            keys: Seq::new(NUM_KEYS as nat, |k: int| false),
        }
    }
}

/// The machine state as plain data. Its model is the view: the stack of
/// the model holds the first `sp` slots of `stack`.
pub struct CHIP8 {
    /// Memory: the font table from address 0, programs from 0x200.
    pub ram: [u8; 4096],
    /// The slots of the call stack; those from `sp` on are not in use.
    pub stack: [u16; 16],
    /// The registers V0 to VF.
    pub v_reg: [u8; 16],
    /// The index register.
    pub i_reg: u16,
    /// The stack pointer: the number of stack slots in use.
    pub sp: u8,
    /// The program counter.
    pub pc: u16,
    /// The delay timer.
    pub dt: u8,
    /// The sound timer.
    pub st: u8,
    /// The framebuffer, row after row; `true` is a lit pixel.
    pub display: [bool; 2048],
    /// The keypad; `true` is a key held down.
    pub keys: [bool; 16],
}

impl View for CHIP8 {
    type V = Machine;

    open spec fn view(&self) -> Machine {
        Machine {
            ram: self.ram@,
            v: self.v_reg@,
            i: self.i_reg,
            pc: self.pc,
            stack: self.stack@.take(self.sp as int),
            dt: self.dt,
            st: self.st,
            display: self.display@,
            keys: self.keys@,
        }
    }
}

impl CHIP8 {
    /// The stack pointer stays within the stack.
    pub open spec fn wf(&self) -> bool {
        self.sp <= STACK_SIZE
    }

    /// Restores the state after a reset, with every stack slot zero.
    pub fn reset(&mut self)
        ensures
            final(self).wf(),
            final(self)@ == Machine::initial(),
            final(self).stack@ == Seq::new(STACK_SIZE as nat, |s: int| 0u16),
    {
        *self = CHIP8::default();
    }
}

impl Default for CHIP8 {
    /// The state after a reset, with every stack slot zero.
    fn default() -> (chip8: Self)
        ensures
            chip8.wf(),
            chip8@ == Machine::initial(),
            chip8.stack@ == Seq::new(STACK_SIZE as nat, |s: int| 0u16),
    {
        let mut ram: [u8; 4096] = [0; 4096];
        let mut a: usize = 0;
        while a < 80
            invariant
                a <= 80,
                forall|b: int| 0 <= b < a ==> ram@[b] == HEX_DIGITS@[b],
                forall|b: int| a <= b < 4096 ==> ram@[b] == 0,
            decreases 80 - a,
        {
            ram[a] = HEX_DIGITS[a];
            a += 1;
        }
        let chip8 = CHIP8 {
            ram,
            stack: [0; 16],
            v_reg: [0; 16],
            i_reg: 0,
            sp: 0,
            pc: START_ADDR,
            dt: 0,
            st: 0,
            display: [false; 2048],
            keys: [false; 16],
        };
        assert(chip8@.ram =~= Machine::initial().ram);
        assert(chip8@.v =~= Machine::initial().v);
        assert(chip8@.stack =~= Machine::initial().stack);
        assert(chip8@.display =~= Machine::initial().display);
        assert(chip8@.keys =~= Machine::initial().keys);
        assert(chip8.stack@ =~= Seq::new(STACK_SIZE as nat, |s: int| 0u16));
        chip8
    }
}

} // verus!
