//! The instruction set: the thirty-five instructions as a tagged type, and
//! the mapping between them and 16-bit words in both directions.

use vstd::prelude::*;

verus! {

/// One decoded CHIP-8 instruction.
///
/// `x` and `y` name registers and are below 16, `address` is a 12-bit address,
/// `value` is an immediate byte and `rows` a sprite height below 16.
#[derive(Clone, Copy, Debug, PartialEq, Eq, Structural)]
pub enum Instruction {
    /// `0nnn`: call into host machine code; ignored.
    Sys { address: u16 },
    /// `00E0`: blank the display.
    ClearScreen,
    /// `00EE`: return from a subroutine.
    Return,
    /// `1nnn`: continue at `address`.
    Jump { address: u16 },
    /// `2nnn`: call the subroutine at `address`.
    Call { address: u16 },
    /// `3xkk`: skip the next instruction when `Vx == value`.
    SkipIfEqual { x: u8, value: u8 },
    /// `4xkk`: skip the next instruction when `Vx != value`.
    SkipIfNotEqual { x: u8, value: u8 },
    /// `5xy0`: skip the next instruction when `Vx == Vy`.
    SkipIfRegistersEqual { x: u8, y: u8 },
    /// `6xkk`: `Vx = value`.
    Load { x: u8, value: u8 },
    /// `7xkk`: `Vx = Vx + value` modulo 256, flag untouched.
    AddImmediate { x: u8, value: u8 },
    /// `8xy0`: `Vx = Vy`.
    Copy { x: u8, y: u8 },
    /// `8xy1`: `Vx = Vx | Vy`.
    Or { x: u8, y: u8 },
    /// `8xy2`: `Vx = Vx & Vy`.
    And { x: u8, y: u8 },
    /// `8xy3`: `Vx = Vx ^ Vy`.
    Xor { x: u8, y: u8 },
    /// `8xy4`: `Vx = Vx + Vy` modulo 256, `VF` = carry.
    Add { x: u8, y: u8 },
    /// `8xy5`: `Vx = Vx - Vy` modulo 256, `VF` = 1 when nothing was borrowed.
    Subtract { x: u8, y: u8 },
    /// `8xy6`: `Vx = Vx / 2`, `VF` = the bit shifted out. `Vy` is not read.
    ShiftRight { x: u8, y: u8 },
    /// `8xy7`: `Vx = Vy - Vx` modulo 256, `VF` = 1 when nothing was borrowed.
    SubtractFrom { x: u8, y: u8 },
    /// `8xyE`: `Vx = Vx * 2` modulo 256, `VF` = the bit shifted out. `Vy` is not read.
    ShiftLeft { x: u8, y: u8 },
    /// `9xy0`: skip the next instruction when `Vx != Vy`.
    SkipIfRegistersNotEqual { x: u8, y: u8 },
    /// `Annn`: `I = address`.
    LoadIndex { address: u16 },
    /// `Bnnn`: continue at `address + V0`.
    JumpOffset { address: u16 },
    /// `Cxkk`: `Vx` = next pseudo-random byte masked with `value`.
    Random { x: u8, value: u8 },
    /// `Dxyn`: draw the `rows`-byte sprite at `I` at column `Vx`, row `Vy`.
    Draw { x: u8, y: u8, rows: u8 },
    /// `Ex9E`: skip the next instruction when the key named by `Vx` is down.
    SkipIfKeyDown { x: u8 },
    /// `ExA1`: skip the next instruction when the key named by `Vx` is up.
    SkipIfKeyUp { x: u8 },
    /// `Fx07`: `Vx` = delay timer.
    ReadDelay { x: u8 },
    /// `Fx0A`: wait until a key is down, then `Vx` = that key.
    WaitForKey { x: u8 },
    /// `Fx15`: delay timer = `Vx`.
    SetDelay { x: u8 },
    /// `Fx18`: sound timer = `Vx`.
    SetSound { x: u8 },
    /// `Fx1E`: `I = I + Vx` modulo 65536, flag untouched.
    AddToIndex { x: u8 },
    /// `Fx29`: `I` = address of the built-in glyph for the low digit of `Vx`.
    LoadGlyph { x: u8 },
    /// `Fx33`: store the three decimal digits of `Vx` at `I`, `I + 1`, `I + 2`.
    StoreDecimal { x: u8 },
    /// `Fx55`: store `V0..=Vx` at `I..`; `I` keeps its value.
    StoreRegisters { x: u8 },
    /// `Fx65`: load `V0..=Vx` from `I..`; `I` keeps its value.
    LoadRegisters { x: u8 },
}

/// The register named by the second nibble of an instruction word.
pub open spec fn word_x(word: u16) -> u8 {
    ((word / 0x100) % 0x10) as u8
}

/// The register named by the third nibble of an instruction word.
pub open spec fn word_y(word: u16) -> u8 {
    ((word / 0x10) % 0x10) as u8
}

/// The last nibble of an instruction word.
pub open spec fn word_n(word: u16) -> u8 {
    (word % 0x10) as u8
}

/// The low byte of an instruction word.
pub open spec fn word_kk(word: u16) -> u8 {
    (word % 0x100) as u8
}

/// The low twelve bits of an instruction word.
pub open spec fn word_nnn(word: u16) -> u16 {
    word % 0x1000
}

/// The instruction a 16-bit word stands for, if it stands for one.
pub open spec fn decode_spec(word: u16) -> Option<Instruction> {
    let x = word_x(word);
    let y = word_y(word);
    let n = word_n(word);
    let kk = word_kk(word);
    let nnn = word_nnn(word);
    let family = word / 0x1000;
    if family == 0x0 {
        if word == 0x00E0 {
            Some(Instruction::ClearScreen)
        } else if word == 0x00EE {
            Some(Instruction::Return)
        } else {
            Some(Instruction::Sys { address: nnn })
        }
    } else if family == 0x1 {
        Some(Instruction::Jump { address: nnn })
    } else if family == 0x2 {
        Some(Instruction::Call { address: nnn })
    } else if family == 0x3 {
        Some(Instruction::SkipIfEqual { x, value: kk })
    } else if family == 0x4 {
        Some(Instruction::SkipIfNotEqual { x, value: kk })
    } else if family == 0x5 {
        if n == 0 {
            Some(Instruction::SkipIfRegistersEqual { x, y })
        } else {
            None
        }
    } else if family == 0x6 {
        Some(Instruction::Load { x, value: kk })
    } else if family == 0x7 {
        Some(Instruction::AddImmediate { x, value: kk })
    } else if family == 0x8 {
        if n == 0x0 {
            Some(Instruction::Copy { x, y })
        } else if n == 0x1 {
            Some(Instruction::Or { x, y })
        } else if n == 0x2 {
            Some(Instruction::And { x, y })
        } else if n == 0x3 {
            Some(Instruction::Xor { x, y })
        } else if n == 0x4 {
            Some(Instruction::Add { x, y })
        } else if n == 0x5 {
            Some(Instruction::Subtract { x, y })
        } else if n == 0x6 {
            Some(Instruction::ShiftRight { x, y })
        } else if n == 0x7 {
            Some(Instruction::SubtractFrom { x, y })
        } else if n == 0xE {
            Some(Instruction::ShiftLeft { x, y })
        } else {
            None
        }
    } else if family == 0x9 {
        if n == 0 {
            Some(Instruction::SkipIfRegistersNotEqual { x, y })
        } else {
            None
        }
    } else if family == 0xA {
        Some(Instruction::LoadIndex { address: nnn })
    } else if family == 0xB {
        Some(Instruction::JumpOffset { address: nnn })
    } else if family == 0xC {
        Some(Instruction::Random { x, value: kk })
    } else if family == 0xD {
        Some(Instruction::Draw { x, y, rows: n })
    } else if family == 0xE {
        if kk == 0x9E {
            Some(Instruction::SkipIfKeyDown { x })
        } else if kk == 0xA1 {
            Some(Instruction::SkipIfKeyUp { x })
        } else {
            None
        }
    } else {
        if kk == 0x07 {
            Some(Instruction::ReadDelay { x })
        } else if kk == 0x0A {
            Some(Instruction::WaitForKey { x })
        } else if kk == 0x15 {
            Some(Instruction::SetDelay { x })
        } else if kk == 0x18 {
            Some(Instruction::SetSound { x })
        } else if kk == 0x1E {
            Some(Instruction::AddToIndex { x })
        } else if kk == 0x29 {
            Some(Instruction::LoadGlyph { x })
        } else if kk == 0x33 {
            Some(Instruction::StoreDecimal { x })
        } else if kk == 0x55 {
            Some(Instruction::StoreRegisters { x })
        } else if kk == 0x65 {
            Some(Instruction::LoadRegisters { x })
        } else {
            None
        }
    }
}

impl Instruction {
    /// Every register that the instruction names exists.
    pub open spec fn registers_valid(self) -> bool {
        match self {
            Instruction::Sys { .. }
            | Instruction::ClearScreen
            | Instruction::Return
            | Instruction::Jump { .. }
            | Instruction::Call { .. }
            | Instruction::LoadIndex { .. }
            | Instruction::JumpOffset { .. } => true,
            Instruction::SkipIfEqual { x, .. }
            | Instruction::SkipIfNotEqual { x, .. }
            | Instruction::Load { x, .. }
            | Instruction::AddImmediate { x, .. }
            | Instruction::Random { x, .. }
            | Instruction::SkipIfKeyDown { x }
            | Instruction::SkipIfKeyUp { x }
            | Instruction::ReadDelay { x }
            | Instruction::WaitForKey { x }
            | Instruction::SetDelay { x }
            | Instruction::SetSound { x }
            | Instruction::AddToIndex { x }
            | Instruction::LoadGlyph { x }
            | Instruction::StoreDecimal { x }
            | Instruction::StoreRegisters { x }
            | Instruction::LoadRegisters { x } => x < 16,
            Instruction::SkipIfRegistersEqual { x, y }
            | Instruction::Copy { x, y }
            | Instruction::Or { x, y }
            | Instruction::And { x, y }
            | Instruction::Xor { x, y }
            | Instruction::Add { x, y }
            | Instruction::Subtract { x, y }
            | Instruction::ShiftRight { x, y }
            | Instruction::SubtractFrom { x, y }
            | Instruction::ShiftLeft { x, y }
            | Instruction::SkipIfRegistersNotEqual { x, y }
            | Instruction::Draw { x, y, .. } => x < 16 && y < 16,
        }
    }

    /// The instruction can be written as a word: its registers exist, its
    /// address has twelve bits, its sprite height four, and a `Sys` does not
    /// take the place of `00E0` or `00EE`.
    pub open spec fn well_formed(self) -> bool {
        &&& self.registers_valid()
        &&& match self {
            Instruction::Sys { address } => address < 0x1000 && address != 0x0E0 && address
                != 0x0EE,
            Instruction::Jump { address }
            | Instruction::Call { address }
            | Instruction::LoadIndex { address }
            | Instruction::JumpOffset { address } => address < 0x1000,
            Instruction::Draw { rows, .. } => rows < 16,
            _ => true,
        }
    }

    /// The 16-bit word that stands for this instruction.
    pub open spec fn encode_spec(self) -> int {
        match self {
            Instruction::Sys { address } => address as int,
            Instruction::ClearScreen => 0x00E0,
            Instruction::Return => 0x00EE,
            Instruction::Jump { address } => 0x1000 + address,
            Instruction::Call { address } => 0x2000 + address,
            Instruction::SkipIfEqual { x, value } => 0x3000 + 0x100 * x + value,
            Instruction::SkipIfNotEqual { x, value } => 0x4000 + 0x100 * x + value,
            Instruction::SkipIfRegistersEqual { x, y } => 0x5000 + 0x100 * x + 0x10 * y,
            Instruction::Load { x, value } => 0x6000 + 0x100 * x + value,
            Instruction::AddImmediate { x, value } => 0x7000 + 0x100 * x + value,
            Instruction::Copy { x, y } => 0x8000 + 0x100 * x + 0x10 * y,
            Instruction::Or { x, y } => 0x8001 + 0x100 * x + 0x10 * y,
            Instruction::And { x, y } => 0x8002 + 0x100 * x + 0x10 * y,
            Instruction::Xor { x, y } => 0x8003 + 0x100 * x + 0x10 * y,
            Instruction::Add { x, y } => 0x8004 + 0x100 * x + 0x10 * y,
            Instruction::Subtract { x, y } => 0x8005 + 0x100 * x + 0x10 * y,
            Instruction::ShiftRight { x, y } => 0x8006 + 0x100 * x + 0x10 * y,
            Instruction::SubtractFrom { x, y } => 0x8007 + 0x100 * x + 0x10 * y,
            Instruction::ShiftLeft { x, y } => 0x800E + 0x100 * x + 0x10 * y,
            Instruction::SkipIfRegistersNotEqual { x, y } => 0x9000 + 0x100 * x + 0x10 * y,
            Instruction::LoadIndex { address } => 0xA000 + address,
            Instruction::JumpOffset { address } => 0xB000 + address,
            Instruction::Random { x, value } => 0xC000 + 0x100 * x + value,
            Instruction::Draw { x, y, rows } => 0xD000 + 0x100 * x + 0x10 * y + rows,
            Instruction::SkipIfKeyDown { x } => 0xE09E + 0x100 * x,
            Instruction::SkipIfKeyUp { x } => 0xE0A1 + 0x100 * x,
            Instruction::ReadDelay { x } => 0xF007 + 0x100 * x,
            Instruction::WaitForKey { x } => 0xF00A + 0x100 * x,
            Instruction::SetDelay { x } => 0xF015 + 0x100 * x,
            Instruction::SetSound { x } => 0xF018 + 0x100 * x,
            Instruction::AddToIndex { x } => 0xF01E + 0x100 * x,
            Instruction::LoadGlyph { x } => 0xF029 + 0x100 * x,
            Instruction::StoreDecimal { x } => 0xF033 + 0x100 * x,
            Instruction::StoreRegisters { x } => 0xF055 + 0x100 * x,
            Instruction::LoadRegisters { x } => 0xF065 + 0x100 * x,
        }
    }

    /// Writes the instruction as its 16-bit word; `decode` reads it back.
    pub fn encode(self) -> (word: u16)
        requires
            self.well_formed(),
        ensures
            word == self.encode_spec(),
            decode_spec(word) == Some(self),
    {
        proof {
            lemma_decode_inverts_encode(self);
        }
        match self {
            Instruction::Sys { address } => address,
            Instruction::ClearScreen => 0x00E0,
            Instruction::Return => 0x00EE,
            Instruction::Jump { address } => 0x1000 + address,
            Instruction::Call { address } => 0x2000 + address,
            Instruction::SkipIfEqual { x, value } => word_with_byte(0x3, x, value),
            Instruction::SkipIfNotEqual { x, value } => word_with_byte(0x4, x, value),
            Instruction::SkipIfRegistersEqual { x, y } => word_with_nibbles(0x5, x, y, 0x0),
            Instruction::Load { x, value } => word_with_byte(0x6, x, value),
            Instruction::AddImmediate { x, value } => word_with_byte(0x7, x, value),
            Instruction::Copy { x, y } => word_with_nibbles(0x8, x, y, 0x0),
            Instruction::Or { x, y } => word_with_nibbles(0x8, x, y, 0x1),
            Instruction::And { x, y } => word_with_nibbles(0x8, x, y, 0x2),
            Instruction::Xor { x, y } => word_with_nibbles(0x8, x, y, 0x3),
            Instruction::Add { x, y } => word_with_nibbles(0x8, x, y, 0x4),
            Instruction::Subtract { x, y } => word_with_nibbles(0x8, x, y, 0x5),
            Instruction::ShiftRight { x, y } => word_with_nibbles(0x8, x, y, 0x6),
            Instruction::SubtractFrom { x, y } => word_with_nibbles(0x8, x, y, 0x7),
            Instruction::ShiftLeft { x, y } => word_with_nibbles(0x8, x, y, 0xE),
            Instruction::SkipIfRegistersNotEqual { x, y } => word_with_nibbles(0x9, x, y, 0x0),
            Instruction::LoadIndex { address } => 0xA000 + address,
            Instruction::JumpOffset { address } => 0xB000 + address,
            Instruction::Random { x, value } => word_with_byte(0xC, x, value),
            Instruction::Draw { x, y, rows } => word_with_nibbles(0xD, x, y, rows),
            Instruction::SkipIfKeyDown { x } => word_with_byte(0xE, x, 0x9E),
            Instruction::SkipIfKeyUp { x } => word_with_byte(0xE, x, 0xA1),
            Instruction::ReadDelay { x } => word_with_byte(0xF, x, 0x07),
            Instruction::WaitForKey { x } => word_with_byte(0xF, x, 0x0A),
            Instruction::SetDelay { x } => word_with_byte(0xF, x, 0x15),
            Instruction::SetSound { x } => word_with_byte(0xF, x, 0x18),
            Instruction::AddToIndex { x } => word_with_byte(0xF, x, 0x1E),
            Instruction::LoadGlyph { x } => word_with_byte(0xF, x, 0x29),
            Instruction::StoreDecimal { x } => word_with_byte(0xF, x, 0x33),
            Instruction::StoreRegisters { x } => word_with_byte(0xF, x, 0x55),
            Instruction::LoadRegisters { x } => word_with_byte(0xF, x, 0x65),
        }
    }
}

/// The word made of a family nibble, a register nibble and a byte.
fn word_with_byte(family: u16, x: u8, value: u8) -> (word: u16)
    requires
        family < 16,
        x < 16,
    ensures
        word == 0x1000 * family + 0x100 * x + value,
{
    0x1000 * family + 0x100 * (x as u16) + value as u16
}

/// The word made of four nibbles.
fn word_with_nibbles(family: u16, x: u8, y: u8, n: u8) -> (word: u16)
    requires
        family < 16,
        x < 16,
        y < 16,
        n < 16,
    ensures
        word == 0x1000 * family + 0x100 * x + 0x10 * y + n,
{
    0x1000 * family + 0x100 * (x as u16) + 0x10 * (y as u16) + n as u16
}

/// Decodes one instruction word.
///
/// Returns `None` exactly for the words that stand for no instruction.
pub fn decode(word: u16) -> (decoded: Option<Instruction>)
    ensures
        decoded == decode_spec(word),
{
    let x: u8 = ((word / 0x100) % 0x10) as u8;
    let y: u8 = ((word / 0x10) % 0x10) as u8;
    let n: u8 = (word % 0x10) as u8;
    let kk: u8 = (word % 0x100) as u8;
    let nnn: u16 = word % 0x1000;
    let family: u16 = word / 0x1000;
    match family {
        0x0 => {
            if word == 0x00E0 {
                Some(Instruction::ClearScreen)
            } else if word == 0x00EE {
                Some(Instruction::Return)
            } else {
                Some(Instruction::Sys { address: nnn })
            }
        },
        0x1 => Some(Instruction::Jump { address: nnn }),
        0x2 => Some(Instruction::Call { address: nnn }),
        0x3 => Some(Instruction::SkipIfEqual { x, value: kk }),
        0x4 => Some(Instruction::SkipIfNotEqual { x, value: kk }),
        0x5 => {
            if n == 0 {
                Some(Instruction::SkipIfRegistersEqual { x, y })
            } else {
                None
            }
        },
        0x6 => Some(Instruction::Load { x, value: kk }),
        0x7 => Some(Instruction::AddImmediate { x, value: kk }),
        0x8 => match n {
            0x0 => Some(Instruction::Copy { x, y }),
            0x1 => Some(Instruction::Or { x, y }),
            0x2 => Some(Instruction::And { x, y }),
            0x3 => Some(Instruction::Xor { x, y }),
            0x4 => Some(Instruction::Add { x, y }),
            0x5 => Some(Instruction::Subtract { x, y }),
            0x6 => Some(Instruction::ShiftRight { x, y }),
            0x7 => Some(Instruction::SubtractFrom { x, y }),
            0xE => Some(Instruction::ShiftLeft { x, y }),
            _ => None,
        },
        0x9 => {
            if n == 0 {
                Some(Instruction::SkipIfRegistersNotEqual { x, y })
            } else {
                None
            }
        },
        0xA => Some(Instruction::LoadIndex { address: nnn }),
        0xB => Some(Instruction::JumpOffset { address: nnn }),
        0xC => Some(Instruction::Random { x, value: kk }),
        0xD => Some(Instruction::Draw { x, y, rows: n }),
        0xE => match kk {
            0x9E => Some(Instruction::SkipIfKeyDown { x }),
            0xA1 => Some(Instruction::SkipIfKeyUp { x }),
            _ => None,
        },
        _ => match kk {
            0x07 => Some(Instruction::ReadDelay { x }),
            0x0A => Some(Instruction::WaitForKey { x }),
            0x15 => Some(Instruction::SetDelay { x }),
            0x18 => Some(Instruction::SetSound { x }),
            0x1E => Some(Instruction::AddToIndex { x }),
            0x29 => Some(Instruction::LoadGlyph { x }),
            0x33 => Some(Instruction::StoreDecimal { x }),
            0x55 => Some(Instruction::StoreRegisters { x }),
            0x65 => Some(Instruction::LoadRegisters { x }),
            _ => None,
        },
    }
}

/// How the four nibbles of a word are recovered by division and remainder.
proof fn lemma_nibbles(family: u16, x: u16, y: u16, n: u16)
    by (bit_vector)
    requires
        family < 16,
        x < 16,
        y < 16,
        n < 16,
    ensures
        0x1000 * family + 0x100 * x + 0x10 * y + n <= 0xFFFF,
        (0x1000 * family + 0x100 * x + 0x10 * y + n) / 0x1000 == family,
        ((0x1000 * family + 0x100 * x + 0x10 * y + n) / 0x100) % 0x10 == x,
        ((0x1000 * family + 0x100 * x + 0x10 * y + n) / 0x10) % 0x10 == y,
        (0x1000 * family + 0x100 * x + 0x10 * y + n) % 0x10 == n,
        (0x1000 * family + 0x100 * x + 0x10 * y + n) % 0x100 == 0x10 * y + n,
        (0x1000 * family + 0x100 * x + 0x10 * y + n) % 0x1000 == 0x100 * x + 0x10 * y + n,
{
}

/// Every word is the sum of its four nibbles, each weighted by its place.
proof fn lemma_word_is_sum_of_nibbles(word: u16)
    by (bit_vector)
    ensures
        word == 0x1000 * (word / 0x1000) + 0x100 * ((word / 0x100) % 0x10) + 0x10 * ((word
            / 0x10) % 0x10) + word % 0x10,
        word % 0x100 == 0x10 * ((word / 0x10) % 0x10) + word % 0x10,
        word % 0x1000 == 0x100 * ((word / 0x100) % 0x10) + 0x10 * ((word / 0x10) % 0x10) + word
            % 0x10,
        word / 0x1000 < 16,
        (word / 0x100) % 0x10 < 16,
        (word / 0x10) % 0x10 < 16,
        word % 0x10 < 16,
{
}

/// Whatever a word decodes to has its operands in range and encodes back to
/// the same word.
pub proof fn lemma_encode_inverts_decode(word: u16)
    requires
        decode_spec(word) is Some,
    ensures
        decode_spec(word)->0.well_formed(),
        decode_spec(word)->0.encode_spec() == word,
{
    lemma_word_is_sum_of_nibbles(word);
}

/// An instruction with operands in range encodes to a word that decodes to
/// the same instruction.
pub proof fn lemma_decode_inverts_encode(instruction: Instruction)
    requires
        instruction.well_formed(),
    ensures
        0 <= instruction.encode_spec() <= u16::MAX,
        decode_spec(instruction.encode_spec() as u16) == Some(instruction),
{
    match instruction {
        Instruction::Sys { address } => {
            lemma_word_is_sum_of_nibbles(address);
            lemma_nibbles(
                0,
                word_x(address) as u16,
                word_y(address) as u16,
                word_n(address) as u16,
            );
        },
        Instruction::ClearScreen => {},
        Instruction::Return => {},
        Instruction::Jump { address } => {
            lemma_address_word(0x1, address);
        },
        Instruction::Call { address } => {
            lemma_address_word(0x2, address);
        },
        Instruction::LoadIndex { address } => {
            lemma_address_word(0xA, address);
        },
        Instruction::JumpOffset { address } => {
            lemma_address_word(0xB, address);
        },
        Instruction::SkipIfEqual { x, value } => {
            lemma_byte_word(0x3, x, value);
        },
        Instruction::SkipIfNotEqual { x, value } => {
            lemma_byte_word(0x4, x, value);
        },
        Instruction::Load { x, value } => {
            lemma_byte_word(0x6, x, value);
        },
        Instruction::AddImmediate { x, value } => {
            lemma_byte_word(0x7, x, value);
        },
        Instruction::Random { x, value } => {
            lemma_byte_word(0xC, x, value);
        },
        Instruction::SkipIfRegistersEqual { x, y } => {
            lemma_nibbles(0x5, x as u16, y as u16, 0);
        },
        Instruction::Copy { x, y } => {
            lemma_nibbles(0x8, x as u16, y as u16, 0x0);
        },
        Instruction::Or { x, y } => {
            lemma_nibbles(0x8, x as u16, y as u16, 0x1);
        },
        Instruction::And { x, y } => {
            lemma_nibbles(0x8, x as u16, y as u16, 0x2);
        },
        Instruction::Xor { x, y } => {
            lemma_nibbles(0x8, x as u16, y as u16, 0x3);
        },
        Instruction::Add { x, y } => {
            lemma_nibbles(0x8, x as u16, y as u16, 0x4);
        },
        Instruction::Subtract { x, y } => {
            lemma_nibbles(0x8, x as u16, y as u16, 0x5);
        },
        Instruction::ShiftRight { x, y } => {
            lemma_nibbles(0x8, x as u16, y as u16, 0x6);
        },
        Instruction::SubtractFrom { x, y } => {
            lemma_nibbles(0x8, x as u16, y as u16, 0x7);
        },
        Instruction::ShiftLeft { x, y } => {
            lemma_nibbles(0x8, x as u16, y as u16, 0xE);
        },
        Instruction::SkipIfRegistersNotEqual { x, y } => {
            lemma_nibbles(0x9, x as u16, y as u16, 0);
        },
        Instruction::Draw { x, y, rows } => {
            lemma_nibbles(0xD, x as u16, y as u16, rows as u16);
        },
        Instruction::SkipIfKeyDown { x } => {
            lemma_nibbles(0xE, x as u16, 0x9, 0xE);
        },
        Instruction::SkipIfKeyUp { x } => {
            lemma_nibbles(0xE, x as u16, 0xA, 0x1);
        },
        Instruction::ReadDelay { x } => {
            lemma_nibbles(0xF, x as u16, 0x0, 0x7);
        },
        Instruction::WaitForKey { x } => {
            lemma_nibbles(0xF, x as u16, 0x0, 0xA);
        },
        Instruction::SetDelay { x } => {
            lemma_nibbles(0xF, x as u16, 0x1, 0x5);
        },
        Instruction::SetSound { x } => {
            lemma_nibbles(0xF, x as u16, 0x1, 0x8);
        },
        Instruction::AddToIndex { x } => {
            lemma_nibbles(0xF, x as u16, 0x1, 0xE);
        },
        Instruction::LoadGlyph { x } => {
            lemma_nibbles(0xF, x as u16, 0x2, 0x9);
        },
        Instruction::StoreDecimal { x } => {
            lemma_nibbles(0xF, x as u16, 0x3, 0x3);
        },
        Instruction::StoreRegisters { x } => {
            lemma_nibbles(0xF, x as u16, 0x5, 0x5);
        },
        Instruction::LoadRegisters { x } => {
            lemma_nibbles(0xF, x as u16, 0x6, 0x5);
        },
    }
}

/// A family nibble followed by a 12-bit address splits back into the two.
proof fn lemma_address_word(family: u16, address: u16)
    by (bit_vector)
    requires
        family < 16,
        address < 0x1000,
    ensures
        0x1000 * family + address <= 0xFFFF,
        (0x1000 * family + address) / 0x1000 == family,
        (0x1000 * family + address) % 0x1000 == address,
{
}

/// A family nibble, a register nibble and a byte split back into the three.
proof fn lemma_byte_word(family: u16, x: u8, value: u8)
    by (bit_vector)
    requires
        family < 16,
        x < 16,
    ensures
        0x1000 * family + 0x100 * x + value <= 0xFFFF,
        (0x1000 * family + 0x100 * x + value) / 0x1000 == family,
        ((0x1000 * family + 0x100 * x + value) / 0x100) % 0x10 == x,
        (0x1000 * family + 0x100 * x + value) % 0x100 == value,
{
}

} // verus!
