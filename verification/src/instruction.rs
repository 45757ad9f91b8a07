//! The instruction set and its encoding.
//!
//! A word encodes at most one instruction and an instruction is encoded by
//! one word: in the classes 5 and 9 only the words that end in the nibble 0
//! encode an instruction, and in class 0 only 0000, 00E0 and 00EE do.

use vstd::prelude::*;
use crate::bit::BitManipulation;
use crate::error::Chip8Error;

verus! {

/// The behavioural variations that a program may rely on.
#[derive(Clone, Copy, Debug, PartialEq, Eq, Structural)]
pub struct Quirks {
    /// The shifts 8XY6 and 8XYE shift VY into VX instead of shifting VX.
    pub shift_uses_vy: bool,
    /// The block transfers FX55 and FX65 leave I behind the last byte.
    pub load_store_advances_i: bool,
}

impl Quirks {
    /// The usual setting: shifts work on VX, block transfers advance I.
    pub open spec fn standard() -> Quirks {
        Quirks { shift_uses_vy: false, load_store_advances_i: true }
    }
}

impl Default for Quirks {
    fn default() -> (quirks: Self)
        ensures
            quirks == Quirks::standard(),
    {
        Quirks { shift_uses_vy: false, load_store_advances_i: true }
    }
}

/// One decoded instruction with its operands: register numbers `X` and `Y`,
/// the nibble `N`, the byte `NN` and the address `NNN`.
#[derive(Clone, Copy, Debug, PartialEq, Eq, Structural)]
pub enum Instruction {
    /// 0000: no operation.
    Op0000,
    /// 00E0: clear the screen.
    Op00E0,
    /// 00EE: return from a subroutine.
    Op00EE,
    /// 1NNN: jump to NNN.
    Op1NNN(u16),
    /// 2NNN: call the subroutine at NNN.
    Op2NNN(u16),
    /// 3XNN: skip the next instruction if VX equals NN.
    Op3XNN(u8, u8),
    /// 4XNN: skip the next instruction if VX differs from NN.
    Op4XNN(u8, u8),
    /// 5XY0: skip the next instruction if VX equals VY.
    Op5XY0(u8, u8),
    /// 6XNN: load NN into VX.
    Op6XNN(u8, u8),
    /// 7XNN: add NN to VX; VF is left alone.
    Op7XNN(u8, u8),
    /// 8XY0: copy VY into VX.
    Op8XY0(u8, u8),
    /// 8XY1: VX becomes VX or VY.
    Op8XY1(u8, u8),
    /// 8XY2: VX becomes VX and VY.
    Op8XY2(u8, u8),
    /// 8XY3: VX becomes VX exclusive-or VY.
    Op8XY3(u8, u8),
    /// 8XY4: add VY to VX; VF is the carry.
    Op8XY4(u8, u8),
    /// 8XY5: subtract VY from VX; VF is 1 unless a borrow was needed.
    Op8XY5(u8, u8),
    /// 8XY6: shift right by one; VF is the bit shifted out.
    Op8XY6(u8, u8),
    /// 8XY7: VX becomes VY minus VX; VF is 1 unless a borrow was needed.
    Op8XY7(u8, u8),
    /// 8XYE: shift left by one; VF is the bit shifted out.
    Op8XYE(u8, u8),
    /// 9XY0: skip the next instruction if VX differs from VY.
    Op9XY0(u8, u8),
    /// ANNN: load NNN into I.
    OpANNN(u16),
    /// BNNN: jump to NNN plus V0.
    OpBNNN(u16),
    /// CXNN: VX becomes a random byte masked with NN.
    OpCXNN(u8, u8),
    /// DXYN: draw the N-row sprite at I with its origin at (VX, VY); VF
    /// tells whether a lit pixel was turned off.
    OpDXYN(u8, u8, u8),
    /// EX9E: skip the next instruction if the key in VX is held down.
    OpEX9E(u8),
    /// EXA1: skip the next instruction if the key in VX is not held down.
    OpEXA1(u8),
    /// FX07: load the delay timer into VX.
    OpFX07(u8),
    /// FX0A: wait for a key and load it into VX.
    OpFX0A(u8),
    /// FX15: load VX into the delay timer.
    OpFX15(u8),
    /// FX18: load VX into the sound timer.
    OpFX18(u8),
    /// FX1E: add VX to I.
    OpFX1E(u8),
    /// FX29: point I at the glyph of the digit in VX.
    OpFX29(u8),
    /// FX33: store the decimal digits of VX at I, I+1 and I+2.
    OpFX33(u8),
    /// FX55: store V0 to VX in memory from I on.
    OpFX55(u8),
    /// FX65: load V0 to VX from memory from I on.
    OpFX65(u8),
}

/// The most significant nibble of an instruction word.
pub open spec fn field_class(word: u16) -> u8 {
    (word / 4096) as u8
}

/// The register number X: the second nibble of an instruction word.
pub open spec fn field_x(word: u16) -> u8 {
    ((word / 256) % 16) as u8
}

/// The register number Y: the third nibble of an instruction word.
pub open spec fn field_y(word: u16) -> u8 {
    ((word / 16) % 16) as u8
}

/// The nibble N: the last nibble of an instruction word.
pub open spec fn field_n(word: u16) -> u8 {
    (word % 16) as u8
}

/// The byte NN: the low byte of an instruction word.
pub open spec fn field_nn(word: u16) -> u8 {
    (word % 256) as u8
}

/// The address NNN: the low 12 bits of an instruction word.
pub open spec fn field_nnn(word: u16) -> u16 {
    word % 4096
}

/// The instruction with the given fields, if they are those of one: `class`
/// is the first nibble of the word, `x`, `y` and `n` the following three,
/// `nn` the low byte and `nnn` the low 12 bits.
pub open spec fn instruction_of_fields(class: u8, x: u8, y: u8, n: u8, nn: u8, nnn: u16) -> Option<
    Instruction,
> {
    match class {
        0x0 => if nnn == 0x000 {
            Some(Instruction::Op0000)
        } else if nnn == 0x0E0 {
            Some(Instruction::Op00E0)
        } else if nnn == 0x0EE {
            Some(Instruction::Op00EE)
        } else {
            None
        },
        0x1 => Some(Instruction::Op1NNN(nnn)),
        0x2 => Some(Instruction::Op2NNN(nnn)),
        0x3 => Some(Instruction::Op3XNN(x, nn)),
        0x4 => Some(Instruction::Op4XNN(x, nn)),
        0x5 => if n == 0 {
            Some(Instruction::Op5XY0(x, y))
        } else {
            None
        },
        0x6 => Some(Instruction::Op6XNN(x, nn)),
        0x7 => Some(Instruction::Op7XNN(x, nn)),
        0x8 => match n {
            0x0 => Some(Instruction::Op8XY0(x, y)),
            0x1 => Some(Instruction::Op8XY1(x, y)),
            0x2 => Some(Instruction::Op8XY2(x, y)),
            0x3 => Some(Instruction::Op8XY3(x, y)),
            0x4 => Some(Instruction::Op8XY4(x, y)),
            0x5 => Some(Instruction::Op8XY5(x, y)),
            0x6 => Some(Instruction::Op8XY6(x, y)),
            0x7 => Some(Instruction::Op8XY7(x, y)),
            0xE => Some(Instruction::Op8XYE(x, y)),
            _ => None,
        },
        0x9 => if n == 0 {
            Some(Instruction::Op9XY0(x, y))
        } else {
            None
        },
        0xA => Some(Instruction::OpANNN(nnn)),
        0xB => Some(Instruction::OpBNNN(nnn)),
        0xC => Some(Instruction::OpCXNN(x, nn)),
        0xD => Some(Instruction::OpDXYN(x, y, n)),
        0xE => match nn {
            0x9E => Some(Instruction::OpEX9E(x)),
            0xA1 => Some(Instruction::OpEXA1(x)),
            _ => None,
        },
        _ => match nn {
            0x07 => Some(Instruction::OpFX07(x)),
            0x0A => Some(Instruction::OpFX0A(x)),
            0x15 => Some(Instruction::OpFX15(x)),
            0x18 => Some(Instruction::OpFX18(x)),
            0x1E => Some(Instruction::OpFX1E(x)),
            0x29 => Some(Instruction::OpFX29(x)),
            0x33 => Some(Instruction::OpFX33(x)),
            0x55 => Some(Instruction::OpFX55(x)),
            0x65 => Some(Instruction::OpFX65(x)),
            _ => None,
        },
    }
}

/// The instruction that a word encodes, if it encodes one.
pub open spec fn decode_spec(word: u16) -> Option<Instruction> {
    instruction_of_fields(
        field_class(word),
        field_x(word),
        field_y(word),
        field_n(word),
        field_nn(word),
        field_nnn(word),
    )
}

/// The word made of a class nibble and a 12-bit address.
pub open spec fn word_nnn(class: int, nnn: u16) -> u16 {
    (class * 4096 + nnn) as u16
}

/// The word made of a class nibble, a register number and a byte.
pub open spec fn word_xnn(class: int, x: u8, nn: u8) -> u16 {
    (class * 4096 + x * 256 + nn) as u16
}

/// The word made of a class nibble, two register numbers and a nibble.
pub open spec fn word_xyn(class: int, x: u8, y: u8, n: int) -> u16 {
    (class * 4096 + x * 256 + y * 16 + n) as u16
}

/// A word is made of its fields.
pub proof fn lemma_word_of_fields(word: u16)
    ensures
        word == field_class(word) * 4096 + field_nnn(word),
        field_nnn(word) == field_x(word) * 256 + field_nn(word),
        field_nn(word) == field_y(word) * 16 + field_n(word),
        field_class(word) < 16,
        field_x(word) < 16,
        field_y(word) < 16,
        field_n(word) < 16,
        field_nnn(word) < 4096,
{
    let w: int = word as int;
    assert(w == (w / 4096) * 4096 + w % 4096);
    assert(w % 4096 == ((w / 256) % 16) * 256 + w % 256);
    assert(w % 256 == ((w / 16) % 16) * 16 + w % 16);
}

/// The fields of a word made of four nibbles are those nibbles.
proof fn lemma_fields_of_word(class: int, x: u8, y: u8, n: int)
    requires
        0 <= class < 16,
        x < 16,
        y < 16,
        0 <= n < 16,
    ensures
        field_class(word_xyn(class, x, y, n)) == class,
        field_x(word_xyn(class, x, y, n)) == x,
        field_y(word_xyn(class, x, y, n)) == y,
        field_n(word_xyn(class, x, y, n)) == n,
        field_nn(word_xyn(class, x, y, n)) == y * 16 + n,
        field_nnn(word_xyn(class, x, y, n)) == x * 256 + y * 16 + n,
{
    let w: int = class * 4096 + x * 256 + y * 16 + n;
    assert(0 <= w < 65536);
    assert(w / 4096 == class);
    assert(w % 4096 == x * 256 + y * 16 + n);
    assert(w / 256 == class * 16 + x);
    assert(w % 256 == y * 16 + n);
    assert(w / 16 == class * 256 + x * 16 + y);
    assert(w % 16 == n);
}

/// The fields of a word made of a class nibble and an address.
proof fn lemma_fields_nnn(class: int, nnn: u16)
    requires
        0 <= class < 16,
        nnn < 4096,
    ensures
        field_class(word_nnn(class, nnn)) == class,
        field_nnn(word_nnn(class, nnn)) == nnn,
{
    let x: u8 = (nnn / 256) as u8;
    let y: u8 = ((nnn / 16) % 16) as u8;
    let n: int = (nnn % 16) as int;
    lemma_fields_of_word(class, x, y, n);
    assert(word_nnn(class, nnn) == word_xyn(class, x, y, n));
}

/// The fields of a word made of a class nibble, a register number and a
/// byte.
proof fn lemma_fields_xnn(class: int, x: u8, nn: u8)
    requires
        0 <= class < 16,
        x < 16,
    ensures
        field_class(word_xnn(class, x, nn)) == class,
        field_x(word_xnn(class, x, nn)) == x,
        field_nn(word_xnn(class, x, nn)) == nn,
{
    let y: u8 = nn / 16;
    let n: int = (nn % 16) as int;
    lemma_fields_of_word(class, x, y, n);
    assert(word_xnn(class, x, nn) == word_xyn(class, x, y, n));
}

/// Most significant nibble of `word`.
pub fn extract_class(word: u16) -> (class: u8)
    ensures
        class == field_class(word),
        class < 16,
{
    assert((word >> 12u16) == word / 4096) by (bit_vector);
    (word >> 12u16) as u8
}

/// Second nibble of `word`.
pub fn extract_x(word: u16) -> (x: u8)
    ensures
        x == field_x(word),
        x < 16,
{
    assert(((word >> 8u16) & 0x0F) == (word / 256) % 16) by (bit_vector);
    ((word >> 8u16) & 0x0F) as u8
}

/// Third nibble of `word`.
pub fn extract_y(word: u16) -> (y: u8)
    ensures
        y == field_y(word),
        y < 16,
{
    assert(((word >> 4u16) & 0x0F) == (word / 16) % 16) by (bit_vector);
    ((word >> 4u16) & 0x0F) as u8
}

/// Last nibble of `word`.
pub fn extract_n(word: u16) -> (n: u8)
    ensures
        n == field_n(word),
        n < 16,
{
    assert((word & 0x0F) == word % 16) by (bit_vector);
    (word & 0x0F) as u8
}

/// Low byte of `word`.
pub fn extract_nn(word: u16) -> (nn: u8)
    ensures
        nn == field_nn(word),
{
    assert((word & 0xFF) == word % 256) by (bit_vector);
    (word & 0xFF) as u8
}

/// High byte of `word`.
pub fn extract_high_byte(word: u16) -> (high: u8)
    ensures
        high == word / 256,
{
    assert((word >> 8u16) == word / 256) by (bit_vector);
    (word >> 8u16) as u8
}

/// Low 12 bits of `word`.
pub fn extract_nnn(word: u16) -> (nnn: u16)
    ensures
        nnn == field_nnn(word),
        nnn < 4096,
{
    assert((word & 0x0FFF) == word % 4096) by (bit_vector);
    word & 0x0FFF
}

impl Instruction {
    /// Whether every operand is in its range: register numbers and the
    /// nibble N below 16, addresses below 4096.
    pub open spec fn wf(self) -> bool {
        match self {
            Instruction::Op0000 | Instruction::Op00E0 | Instruction::Op00EE => true,
            Instruction::Op1NNN(nnn)
            | Instruction::Op2NNN(nnn)
            | Instruction::OpANNN(nnn)
            | Instruction::OpBNNN(nnn) => nnn < 4096,
            Instruction::Op3XNN(x, _)
            | Instruction::Op4XNN(x, _)
            | Instruction::Op6XNN(x, _)
            | Instruction::Op7XNN(x, _)
            | Instruction::OpCXNN(x, _) => x < 16,
            Instruction::Op5XY0(x, y)
            | Instruction::Op8XY0(x, y)
            | Instruction::Op8XY1(x, y)
            | Instruction::Op8XY2(x, y)
            | Instruction::Op8XY3(x, y)
            | Instruction::Op8XY4(x, y)
            | Instruction::Op8XY5(x, y)
            | Instruction::Op8XY6(x, y)
            | Instruction::Op8XY7(x, y)
            | Instruction::Op8XYE(x, y)
            | Instruction::Op9XY0(x, y) => x < 16 && y < 16,
            Instruction::OpDXYN(x, y, n) => x < 16 && y < 16 && n < 16,
            Instruction::OpEX9E(x)
            | Instruction::OpEXA1(x)
            | Instruction::OpFX07(x)
            | Instruction::OpFX0A(x)
            | Instruction::OpFX15(x)
            | Instruction::OpFX18(x)
            | Instruction::OpFX1E(x)
            | Instruction::OpFX29(x)
            | Instruction::OpFX33(x)
            | Instruction::OpFX55(x)
            | Instruction::OpFX65(x) => x < 16,
        }
    }

    /// The word that encodes the instruction.
    pub open spec fn encode(self) -> u16 {
        match self {
            Instruction::Op0000 => 0x0000,
            Instruction::Op00E0 => 0x00E0,
            Instruction::Op00EE => 0x00EE,
            Instruction::Op1NNN(nnn) => word_nnn(0x1, nnn),
            Instruction::Op2NNN(nnn) => word_nnn(0x2, nnn),
            Instruction::Op3XNN(x, nn) => word_xnn(0x3, x, nn),
            Instruction::Op4XNN(x, nn) => word_xnn(0x4, x, nn),
            Instruction::Op5XY0(x, y) => word_xyn(0x5, x, y, 0x0),
            Instruction::Op6XNN(x, nn) => word_xnn(0x6, x, nn),
            Instruction::Op7XNN(x, nn) => word_xnn(0x7, x, nn),
            Instruction::Op8XY0(x, y) => word_xyn(0x8, x, y, 0x0),
            Instruction::Op8XY1(x, y) => word_xyn(0x8, x, y, 0x1),
            Instruction::Op8XY2(x, y) => word_xyn(0x8, x, y, 0x2),
            Instruction::Op8XY3(x, y) => word_xyn(0x8, x, y, 0x3),
            Instruction::Op8XY4(x, y) => word_xyn(0x8, x, y, 0x4),
            Instruction::Op8XY5(x, y) => word_xyn(0x8, x, y, 0x5),
            Instruction::Op8XY6(x, y) => word_xyn(0x8, x, y, 0x6),
            Instruction::Op8XY7(x, y) => word_xyn(0x8, x, y, 0x7),
            Instruction::Op8XYE(x, y) => word_xyn(0x8, x, y, 0xE),
            Instruction::Op9XY0(x, y) => word_xyn(0x9, x, y, 0x0),
            Instruction::OpANNN(nnn) => word_nnn(0xA, nnn),
            Instruction::OpBNNN(nnn) => word_nnn(0xB, nnn),
            Instruction::OpCXNN(x, nn) => word_xnn(0xC, x, nn),
            Instruction::OpDXYN(x, y, n) => word_xyn(0xD, x, y, n as int),
            Instruction::OpEX9E(x) => word_xnn(0xE, x, 0x9E),
            Instruction::OpEXA1(x) => word_xnn(0xE, x, 0xA1),
            Instruction::OpFX07(x) => word_xnn(0xF, x, 0x07),
            Instruction::OpFX0A(x) => word_xnn(0xF, x, 0x0A),
            Instruction::OpFX15(x) => word_xnn(0xF, x, 0x15),
            Instruction::OpFX18(x) => word_xnn(0xF, x, 0x18),
            Instruction::OpFX1E(x) => word_xnn(0xF, x, 0x1E),
            Instruction::OpFX29(x) => word_xnn(0xF, x, 0x29),
            Instruction::OpFX33(x) => word_xnn(0xF, x, 0x33),
            Instruction::OpFX55(x) => word_xnn(0xF, x, 0x55),
            Instruction::OpFX65(x) => word_xnn(0xF, x, 0x65),
        }
    }

    /// Decoding gives instructions with operands in range, and encoding
    /// such an instruction gives back the word it was decoded from.
    pub proof fn lemma_decode_then_encode(word: u16)
        ensures
            match decode_spec(word) {
                Some(ins) => ins.wf() && ins.encode() == word,
                None => true,
            },
    {
        lemma_word_of_fields(word);
        let class = field_class(word);
        let x = field_x(word);
        let y = field_y(word);
        let n = field_n(word);
        let nn = field_nn(word);
        let nnn = field_nnn(word);
        match instruction_of_fields(class, x, y, n, nn, nnn) {
            Some(ins) => {
                assert(ins.wf());
                assert(ins.encode() == class * 4096 + nnn);
            },
            None => {},
        }
    }

    /// Every instruction with operands in range is what its encoding
    /// decodes to.
    pub proof fn lemma_encode_then_decode(self)
        requires
            self.wf(),
        ensures
            decode_spec(self.encode()) == Some(self),
    {
        match self {
            Instruction::Op0000 => lemma_fields_nnn(0x0, 0x000),
            Instruction::Op00E0 => lemma_fields_nnn(0x0, 0x0E0),
            Instruction::Op00EE => lemma_fields_nnn(0x0, 0x0EE),
            Instruction::Op1NNN(nnn) => lemma_fields_nnn(0x1, nnn),
            Instruction::Op2NNN(nnn) => lemma_fields_nnn(0x2, nnn),
            Instruction::OpANNN(nnn) => lemma_fields_nnn(0xA, nnn),
            Instruction::OpBNNN(nnn) => lemma_fields_nnn(0xB, nnn),
            Instruction::Op3XNN(x, nn) => lemma_fields_xnn(0x3, x, nn),
            Instruction::Op4XNN(x, nn) => lemma_fields_xnn(0x4, x, nn),
            Instruction::Op6XNN(x, nn) => lemma_fields_xnn(0x6, x, nn),
            Instruction::Op7XNN(x, nn) => lemma_fields_xnn(0x7, x, nn),
            Instruction::OpCXNN(x, nn) => lemma_fields_xnn(0xC, x, nn),
            Instruction::Op5XY0(x, y) => lemma_fields_of_word(0x5, x, y, 0x0),
            Instruction::Op8XY0(x, y) => lemma_fields_of_word(0x8, x, y, 0x0),
            Instruction::Op8XY1(x, y) => lemma_fields_of_word(0x8, x, y, 0x1),
            Instruction::Op8XY2(x, y) => lemma_fields_of_word(0x8, x, y, 0x2),
            Instruction::Op8XY3(x, y) => lemma_fields_of_word(0x8, x, y, 0x3),
            Instruction::Op8XY4(x, y) => lemma_fields_of_word(0x8, x, y, 0x4),
            Instruction::Op8XY5(x, y) => lemma_fields_of_word(0x8, x, y, 0x5),
            Instruction::Op8XY6(x, y) => lemma_fields_of_word(0x8, x, y, 0x6),
            Instruction::Op8XY7(x, y) => lemma_fields_of_word(0x8, x, y, 0x7),
            Instruction::Op8XYE(x, y) => lemma_fields_of_word(0x8, x, y, 0xE),
            Instruction::Op9XY0(x, y) => lemma_fields_of_word(0x9, x, y, 0x0),
            Instruction::OpDXYN(x, y, n) => lemma_fields_of_word(0xD, x, y, n as int),
            Instruction::OpEX9E(x) => lemma_fields_xnn(0xE, x, 0x9E),
            Instruction::OpEXA1(x) => lemma_fields_xnn(0xE, x, 0xA1),
            Instruction::OpFX07(x) => lemma_fields_xnn(0xF, x, 0x07),
            Instruction::OpFX0A(x) => lemma_fields_xnn(0xF, x, 0x0A),
            Instruction::OpFX15(x) => lemma_fields_xnn(0xF, x, 0x15),
            Instruction::OpFX18(x) => lemma_fields_xnn(0xF, x, 0x18),
            Instruction::OpFX1E(x) => lemma_fields_xnn(0xF, x, 0x1E),
            Instruction::OpFX29(x) => lemma_fields_xnn(0xF, x, 0x29),
            Instruction::OpFX33(x) => lemma_fields_xnn(0xF, x, 0x33),
            Instruction::OpFX55(x) => lemma_fields_xnn(0xF, x, 0x55),
            Instruction::OpFX65(x) => lemma_fields_xnn(0xF, x, 0x65),
        }
    }

    /// Decodes an instruction word, or reports a word outside the
    /// instruction set.
    pub fn decode(word: u16) -> (res: Result<Instruction, Chip8Error>)
        ensures
            match decode_spec(word) {
                Some(ins) => res == Ok::<Instruction, Chip8Error>(ins) && ins.wf(),
                None => res == Err::<Instruction, Chip8Error>(Chip8Error::UnknownOpcode),
            },
    {
        let class: u8 = extract_class(word);
        let x: u8 = extract_x(word);
        let y: u8 = extract_y(word);
        let n: u8 = extract_n(word);
        let nn: u8 = extract_nn(word);
        let nnn: u16 = BitManipulation::combine_nibbles_to_16bit_address(x, y, n);
        proof {
            lemma_word_of_fields(word);
        }
        match class {
            0x0 => match nnn {
                0x000 => Ok(Instruction::Op0000),
                0x0E0 => Ok(Instruction::Op00E0),
                0x0EE => Ok(Instruction::Op00EE),
                _ => Err(Chip8Error::UnknownOpcode),
            },
            0x1 => Ok(Instruction::Op1NNN(nnn)),
            0x2 => Ok(Instruction::Op2NNN(nnn)),
            0x3 => Ok(Instruction::Op3XNN(x, nn)),
            0x4 => Ok(Instruction::Op4XNN(x, nn)),
            0x5 => match n {
                0x0 => Ok(Instruction::Op5XY0(x, y)),
                _ => Err(Chip8Error::UnknownOpcode),
            },
            0x6 => Ok(Instruction::Op6XNN(x, nn)),
            0x7 => Ok(Instruction::Op7XNN(x, nn)),
            0x8 => match n {
                0x0 => Ok(Instruction::Op8XY0(x, y)),
                0x1 => Ok(Instruction::Op8XY1(x, y)),
                0x2 => Ok(Instruction::Op8XY2(x, y)),
                0x3 => Ok(Instruction::Op8XY3(x, y)),
                0x4 => Ok(Instruction::Op8XY4(x, y)),
                0x5 => Ok(Instruction::Op8XY5(x, y)),
                0x6 => Ok(Instruction::Op8XY6(x, y)),
                0x7 => Ok(Instruction::Op8XY7(x, y)),
                0xE => Ok(Instruction::Op8XYE(x, y)),
                _ => Err(Chip8Error::UnknownOpcode),
            },
            0x9 => match n {
                0x0 => Ok(Instruction::Op9XY0(x, y)),
                _ => Err(Chip8Error::UnknownOpcode),
            },
            0xA => Ok(Instruction::OpANNN(nnn)),
            0xB => Ok(Instruction::OpBNNN(nnn)),
            0xC => Ok(Instruction::OpCXNN(x, nn)),
            0xD => Ok(Instruction::OpDXYN(x, y, n)),
            0xE => match nn {
                0x9E => Ok(Instruction::OpEX9E(x)),
                0xA1 => Ok(Instruction::OpEXA1(x)),
                _ => Err(Chip8Error::UnknownOpcode),
            },
            _ => match nn {
                0x07 => Ok(Instruction::OpFX07(x)),
                0x0A => Ok(Instruction::OpFX0A(x)),
                0x15 => Ok(Instruction::OpFX15(x)),
                0x18 => Ok(Instruction::OpFX18(x)),
                0x1E => Ok(Instruction::OpFX1E(x)),
                0x29 => Ok(Instruction::OpFX29(x)),
                0x33 => Ok(Instruction::OpFX33(x)),
                0x55 => Ok(Instruction::OpFX55(x)),
                0x65 => Ok(Instruction::OpFX65(x)),
                _ => Err(Chip8Error::UnknownOpcode),
            },
        }
    }
}

} // verus!
