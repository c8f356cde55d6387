//! The instruction set and its decoder.
//!
//! An instruction word is sixteen bits, written here as four hexadecimal
//! digits. In the patterns below `x` and `y` are register numbers, `n` is a
//! 4-bit count, `kk` an 8-bit constant and `nnn` a 12-bit address.

use crate::error::DecodeError;
use vstd::prelude::*;

verus! {

/// One decoded instruction.
#[derive(Clone, Copy, Debug, PartialEq, Eq, Structural)]
pub enum Instruction {
    /// `00E0`: turn every pixel off.
    ClearScreen,
    /// `00EE`: return from a subroutine.
    Return,
    /// `1nnn`: continue at `addr`.
    Jump { addr: u16 },
    /// `2nnn`: call the subroutine at `addr`.
    Call { addr: u16 },
    /// `3xkk`: skip the next instruction if `Vx == byte`.
    SkipIfEqual { x: u8, byte: u8 },
    /// `4xkk`: skip the next instruction if `Vx != byte`.
    SkipIfNotEqual { x: u8, byte: u8 },
    /// `5xy0`: skip the next instruction if `Vx == Vy`.
    SkipIfRegistersEqual { x: u8, y: u8 },
    /// `6xkk`: `Vx = byte`.
    LoadByte { x: u8, byte: u8 },
    /// `7xkk`: `Vx = Vx + byte` modulo 256; `VF` is not touched.
    AddByte { x: u8, byte: u8 },
    /// `8xy0`: `Vx = Vy`.
    Move { x: u8, y: u8 },
    /// `8xy1`: `Vx = Vx | Vy`.
    Or { x: u8, y: u8 },
    /// `8xy2`: `Vx = Vx & Vy`.
    And { x: u8, y: u8 },
    /// `8xy3`: `Vx = Vx ^ Vy`.
    Xor { x: u8, y: u8 },
    /// `8xy4`: `Vx = Vx + Vy` modulo 256, `VF` = carry.
    Add { x: u8, y: u8 },
    /// `8xy5`: `Vx = Vx - Vy` modulo 256, `VF` = 1 if `Vx > Vy` before.
    Sub { x: u8, y: u8 },
    /// `8xy6`: `Vx = Vx >> 1`, `VF` = the bit shifted out. `y` is not used.
    ShiftRight { x: u8, y: u8 },
    /// `8xy7`: `Vx = Vy - Vx` modulo 256, `VF` = 1 if `Vy > Vx` before.
    SubFrom { x: u8, y: u8 },
    /// `8xyE`: `Vx = Vx << 1` modulo 256, `VF` = the bit shifted out. `y` is
    /// not used.
    ShiftLeft { x: u8, y: u8 },
    /// `9xy0`: skip the next instruction if `Vx != Vy`.
    SkipIfRegistersNotEqual { x: u8, y: u8 },
    /// `Annn`: `I = addr`.
    LoadIndex { addr: u16 },
    /// `Bnnn`: continue at `addr + V0`.
    JumpOffset { addr: u16 },
    /// `Cxkk`: `Vx` = a random byte `& byte`.
    Random { x: u8, byte: u8 },
    /// `Dxyn`: draw the `rows`-byte sprite at `I` at `(Vx, Vy)`, `VF` =
    /// collision.
    Draw { x: u8, y: u8, rows: u8 },
    /// `Ex9E`: skip the next instruction if key `Vx` is down.
    SkipIfKeyDown { x: u8 },
    /// `ExA1`: skip the next instruction if key `Vx` is up.
    SkipIfKeyUp { x: u8 },
    /// `Fx07`: `Vx` = delay timer.
    ReadDelay { x: u8 },
    /// `Fx0A`: wait until a key is released, then `Vx` = that key.
    WaitKey { x: u8 },
    /// `Fx15`: delay timer = `Vx`.
    SetDelay { x: u8 },
    /// `Fx18`: sound timer = `Vx`.
    SetSound { x: u8 },
    /// `Fx1E`: `I = I + Vx` modulo 65536.
    AddIndex { x: u8 },
    /// `Fx29`: `I` = address of the glyph for `Vx`.
    LoadGlyph { x: u8 },
    /// `Fx33`: store the three decimal digits of `Vx` at `I`, `I+1`, `I+2`.
    StoreBcd { x: u8 },
    /// `Fx55`: store `V0..=Vx` at `I` and the bytes after it.
    StoreRegisters { x: u8 },
    /// `Fx65`: load `V0..=Vx` from `I` and the bytes after it.
    LoadRegisters { x: u8 },
}

/// The four hexadecimal digits of `word`, the most significant first.
pub open spec fn nibbles(word: u16) -> (u8, u8, u8, u8) {
    (
        (word / 0x1000) as u8,
        (word / 0x100 % 0x10) as u8,
        (word / 0x10 % 0x10) as u8,
        (word % 0x10) as u8,
    )
}

/// The low byte `kk` of `word`.
pub open spec fn low_byte(word: u16) -> u8 {
    (word % 0x100) as u8
}

/// The low twelve bits `nnn` of `word`.
pub open spec fn low_address(word: u16) -> u16 {
    word % 0x1000
}

/// The opcode table: the instruction that `word` encodes, or `None` when it
/// matches no pattern.
pub open spec fn decode_spec(word: u16) -> Option<Instruction> {
    let (op, x, y, n) = nibbles(word);
    let byte = low_byte(word);
    let addr = low_address(word);
    if word == 0x00E0 {
        Some(Instruction::ClearScreen)
    } else if word == 0x00EE {
        Some(Instruction::Return)
    } else if op == 0x1 {
        Some(Instruction::Jump { addr })
    } else if op == 0x2 {
        Some(Instruction::Call { addr })
    } else if op == 0x3 {
        Some(Instruction::SkipIfEqual { x, byte })
    } else if op == 0x4 {
        Some(Instruction::SkipIfNotEqual { x, byte })
    } else if op == 0x5 && n == 0x0 {
        Some(Instruction::SkipIfRegistersEqual { x, y })
    } else if op == 0x6 {
        Some(Instruction::LoadByte { x, byte })
    } else if op == 0x7 {
        Some(Instruction::AddByte { x, byte })
    } else if op == 0x8 && n == 0x0 {
        Some(Instruction::Move { x, y })
    } else if op == 0x8 && n == 0x1 {
        Some(Instruction::Or { x, y })
    } else if op == 0x8 && n == 0x2 {
        Some(Instruction::And { x, y })
    } else if op == 0x8 && n == 0x3 {
        Some(Instruction::Xor { x, y })
    } else if op == 0x8 && n == 0x4 {
        Some(Instruction::Add { x, y })
    } else if op == 0x8 && n == 0x5 {
        Some(Instruction::Sub { x, y })
    } else if op == 0x8 && n == 0x6 {
        Some(Instruction::ShiftRight { x, y })
    } else if op == 0x8 && n == 0x7 {
        Some(Instruction::SubFrom { x, y })
    } else if op == 0x8 && n == 0xE {
        Some(Instruction::ShiftLeft { x, y })
    } else if op == 0x9 && n == 0x0 {
        Some(Instruction::SkipIfRegistersNotEqual { x, y })
    } else if op == 0xA {
        Some(Instruction::LoadIndex { addr })
    } else if op == 0xB {
        Some(Instruction::JumpOffset { addr })
    } else if op == 0xC {
        Some(Instruction::Random { x, byte })
    } else if op == 0xD {
        Some(Instruction::Draw { x, y, rows: n })
    } else if op == 0xE && byte == 0x9E {
        Some(Instruction::SkipIfKeyDown { x })
    } else if op == 0xE && byte == 0xA1 {
        Some(Instruction::SkipIfKeyUp { x })
    } else if op == 0xF && byte == 0x07 {
        Some(Instruction::ReadDelay { x })
    } else if op == 0xF && byte == 0x0A {
        Some(Instruction::WaitKey { x })
    } else if op == 0xF && byte == 0x15 {
        Some(Instruction::SetDelay { x })
    } else if op == 0xF && byte == 0x18 {
        Some(Instruction::SetSound { x })
    } else if op == 0xF && byte == 0x1E {
        Some(Instruction::AddIndex { x })
    } else if op == 0xF && byte == 0x29 {
        Some(Instruction::LoadGlyph { x })
    } else if op == 0xF && byte == 0x33 {
        Some(Instruction::StoreBcd { x })
    } else if op == 0xF && byte == 0x55 {
        Some(Instruction::StoreRegisters { x })
    } else if op == 0xF && byte == 0x65 {
        Some(Instruction::LoadRegisters { x })
    } else {
        None
    }
}

impl Instruction {
    /// Register numbers and the row count are below 16, addresses below 4096:
    /// what every decoded instruction satisfies.
    pub open spec fn wf(self) -> bool {
        match self {
            Instruction::ClearScreen | Instruction::Return => true,
            Instruction::Jump { addr }
            | Instruction::Call { addr }
            | Instruction::LoadIndex { addr }
            | Instruction::JumpOffset { addr } => addr < 0x1000,
            Instruction::SkipIfEqual { x, .. }
            | Instruction::SkipIfNotEqual { x, .. }
            | Instruction::LoadByte { x, .. }
            | Instruction::AddByte { x, .. }
            | Instruction::Random { x, .. }
            | Instruction::SkipIfKeyDown { x }
            | Instruction::SkipIfKeyUp { x }
            | Instruction::ReadDelay { x }
            | Instruction::WaitKey { x }
            | Instruction::SetDelay { x }
            | Instruction::SetSound { x }
            | Instruction::AddIndex { x }
            | Instruction::LoadGlyph { x }
            | Instruction::StoreBcd { x }
            | Instruction::StoreRegisters { x }
            | Instruction::LoadRegisters { x } => x < 16,
            Instruction::SkipIfRegistersEqual { x, y }
            | Instruction::Move { x, y }
            | Instruction::Or { x, y }
            | Instruction::And { x, y }
            | Instruction::Xor { x, y }
            | Instruction::Add { x, y }
            | Instruction::Sub { x, y }
            | Instruction::ShiftRight { x, y }
            | Instruction::SubFrom { x, y }
            | Instruction::ShiftLeft { x, y }
            | Instruction::SkipIfRegistersNotEqual { x, y } => x < 16 && y < 16,
            Instruction::Draw { x, y, rows } => x < 16 && y < 16 && rows < 16,
        }
    }
}

/// The word made of an opcode family digit and three operand digits.
pub open spec fn word_of(op: u8, x: u8, y: u8, n: u8) -> u16 {
    (op * 0x1000 + x * 0x100 + y * 0x10 + n) as u16
}

/// The word made of an opcode family digit, a register number and a byte.
pub open spec fn word_of_byte(op: u8, x: u8, byte: u8) -> u16 {
    (op * 0x1000 + x * 0x100 + byte) as u16
}

/// The instruction word that encodes `instr`: the opcode table read from
/// right to left.
pub open spec fn encode(instr: Instruction) -> u16 {
    match instr {
        Instruction::ClearScreen => 0x00E0,
        Instruction::Return => 0x00EE,
        Instruction::Jump { addr } => (0x1000 + addr) as u16,
        Instruction::Call { addr } => (0x2000 + addr) as u16,
        Instruction::SkipIfEqual { x, byte } => word_of_byte(0x3, x, byte),
        Instruction::SkipIfNotEqual { x, byte } => word_of_byte(0x4, x, byte),
        Instruction::SkipIfRegistersEqual { x, y } => word_of(0x5, x, y, 0x0),
        Instruction::LoadByte { x, byte } => word_of_byte(0x6, x, byte),
        Instruction::AddByte { x, byte } => word_of_byte(0x7, x, byte),
        Instruction::Move { x, y } => word_of(0x8, x, y, 0x0),
        Instruction::Or { x, y } => word_of(0x8, x, y, 0x1),
        Instruction::And { x, y } => word_of(0x8, x, y, 0x2),
        Instruction::Xor { x, y } => word_of(0x8, x, y, 0x3),
        Instruction::Add { x, y } => word_of(0x8, x, y, 0x4),
        Instruction::Sub { x, y } => word_of(0x8, x, y, 0x5),
        Instruction::ShiftRight { x, y } => word_of(0x8, x, y, 0x6),
        Instruction::SubFrom { x, y } => word_of(0x8, x, y, 0x7),
        Instruction::ShiftLeft { x, y } => word_of(0x8, x, y, 0xE),
        Instruction::SkipIfRegistersNotEqual { x, y } => word_of(0x9, x, y, 0x0),
        Instruction::LoadIndex { addr } => (0xA000 + addr) as u16,
        Instruction::JumpOffset { addr } => (0xB000 + addr) as u16,
        Instruction::Random { x, byte } => word_of_byte(0xC, x, byte),
        Instruction::Draw { x, y, rows } => word_of(0xD, x, y, rows),
        Instruction::SkipIfKeyDown { x } => word_of_byte(0xE, x, 0x9E),
        Instruction::SkipIfKeyUp { x } => word_of_byte(0xE, x, 0xA1),
        Instruction::ReadDelay { x } => word_of_byte(0xF, x, 0x07),
        Instruction::WaitKey { x } => word_of_byte(0xF, x, 0x0A),
        Instruction::SetDelay { x } => word_of_byte(0xF, x, 0x15),
        Instruction::SetSound { x } => word_of_byte(0xF, x, 0x18),
        Instruction::AddIndex { x } => word_of_byte(0xF, x, 0x1E),
        Instruction::LoadGlyph { x } => word_of_byte(0xF, x, 0x29),
        Instruction::StoreBcd { x } => word_of_byte(0xF, x, 0x33),
        Instruction::StoreRegisters { x } => word_of_byte(0xF, x, 0x55),
        Instruction::LoadRegisters { x } => word_of_byte(0xF, x, 0x65),
    }
}

/// A word is the sum of its digits, each at its place.
proof fn lemma_digits(word: u16)
    ensures
        ({
            let (op, x, y, n) = nibbles(word);
            &&& op < 16 && x < 16 && y < 16 && n < 16
            &&& word == op * 0x1000 + x * 0x100 + y * 0x10 + n
            &&& low_byte(word) == y * 0x10 + n
            &&& low_address(word) == x * 0x100 + y * 0x10 + n
        }),
{
    assert(word / 0x1000 < 16 && word / 0x100 % 0x10 < 16 && word / 0x10 % 0x10 < 16 && word % 0x10
        < 16) by (bit_vector);
    assert(word == (word / 0x1000) * 0x1000 + (word / 0x100 % 0x10) * 0x100 + (word / 0x10 % 0x10)
        * 0x10 + word % 0x10) by (bit_vector);
    assert(word % 0x100 == (word / 0x10 % 0x10) * 0x10 + word % 0x10) by (bit_vector);
    assert(word % 0x1000 == (word / 0x100 % 0x10) * 0x100 + (word / 0x10 % 0x10) * 0x10 + word
        % 0x10) by (bit_vector);
}

/// The digits of a word put together from four digits are those digits.
proof fn lemma_word_of(op: u8, x: u8, y: u8, n: u8)
    requires
        op < 16,
        x < 16,
        y < 16,
        n < 16,
    ensures
        nibbles(word_of(op, x, y, n)) == (op, x, y, n),
        low_byte(word_of(op, x, y, n)) == y * 0x10 + n,
        low_address(word_of(op, x, y, n)) == x * 0x100 + y * 0x10 + n,
        word_of(op, x, y, n) == op * 0x1000 + x * 0x100 + y * 0x10 + n,
{
    let word = word_of(op, x, y, n);
    assert(word / 0x1000 == op && word / 0x100 % 0x10 == x && word / 0x10 % 0x10 == y && word
        % 0x10 == n && word % 0x100 == y * 0x10 + n && word % 0x1000 == x * 0x100 + y * 0x10 + n)
        by (bit_vector)
        requires
            word == op * 0x1000 + x * 0x100 + y * 0x10 + n,
            op < 16,
            x < 16,
            y < 16,
            n < 16,
    ;
}

/// The digits of a word put together from a family digit, a register number
/// and a byte.
proof fn lemma_word_of_byte(op: u8, x: u8, byte: u8)
    requires
        op < 16,
        x < 16,
    ensures
        nibbles(word_of_byte(op, x, byte)) == (op, x, byte / 0x10, byte % 0x10),
        low_byte(word_of_byte(op, x, byte)) == byte,
        word_of_byte(op, x, byte) == op * 0x1000 + x * 0x100 + byte,
{
    let word = word_of_byte(op, x, byte);
    assert(word / 0x1000 == op && word / 0x100 % 0x10 == x && word / 0x10 % 0x10 == byte / 0x10
        && word % 0x10 == byte % 0x10 && word % 0x100 == byte) by (bit_vector)
        requires
            word == op * 0x1000 + x * 0x100 + byte,
            op < 16,
            x < 16,
    ;
}

/// The digits of a word put together from a family digit and an address.
proof fn lemma_word_of_address(op: u8, addr: u16)
    requires
        op < 16,
        addr < 0x1000,
    ensures
        nibbles((op * 0x1000 + addr) as u16).0 == op,
        low_address((op * 0x1000 + addr) as u16) == addr,
        (op * 0x1000 + addr) as u16 == op * 0x1000 + addr,
{
    let word = (op * 0x1000 + addr) as u16;
    assert(word / 0x1000 == op && word % 0x1000 == addr) by (bit_vector)
        requires
            word == op * 0x1000 + addr,
            op < 16,
            addr < 0x1000,
    ;
}

/// Every decoded instruction is well formed, and encoding it gives back the
/// word it was decoded from: the decoder drops no bit of the word.
pub proof fn lemma_decode_exact(word: u16)
    ensures
        decode_spec(word) matches Some(instr) ==> instr.wf() && encode(instr) == word,
{
    lemma_digits(word);
    let (op, x, y, n) = nibbles(word);
    let byte = low_byte(word);
    let addr = low_address(word);
    match decode_spec(word) {
        None => {},
        Some(instr) => {
            match instr {
                Instruction::ClearScreen | Instruction::Return => {},
                Instruction::Jump { .. }
                | Instruction::Call { .. }
                | Instruction::LoadIndex { .. }
                | Instruction::JumpOffset { .. } => {
                    assert(word == op * 0x1000 + addr);
                },
                Instruction::SkipIfEqual { .. }
                | Instruction::SkipIfNotEqual { .. }
                | Instruction::LoadByte { .. }
                | Instruction::AddByte { .. }
                | Instruction::Random { .. }
                | Instruction::SkipIfKeyDown { .. }
                | Instruction::SkipIfKeyUp { .. }
                | Instruction::ReadDelay { .. }
                | Instruction::WaitKey { .. }
                | Instruction::SetDelay { .. }
                | Instruction::SetSound { .. }
                | Instruction::AddIndex { .. }
                | Instruction::LoadGlyph { .. }
                | Instruction::StoreBcd { .. }
                | Instruction::StoreRegisters { .. }
                | Instruction::LoadRegisters { .. } => {
                    assert(word == word_of_byte(op, x, byte));
                },
                _ => {
                    assert(word == word_of(op, x, y, n));
                },
            }
        },
    }
}

/// Every well-formed instruction is the decoding of its own encoding: each
/// entry of the opcode table can be reached, and no two entries overlap.
pub proof fn lemma_decode_encode(instr: Instruction)
    requires
        instr.wf(),
    ensures
        decode_spec(encode(instr)) == Some(instr),
{
    match instr {
        Instruction::ClearScreen | Instruction::Return => {},
        Instruction::Jump { addr } => lemma_word_of_address(0x1, addr),
        Instruction::Call { addr } => lemma_word_of_address(0x2, addr),
        Instruction::LoadIndex { addr } => lemma_word_of_address(0xA, addr),
        Instruction::JumpOffset { addr } => lemma_word_of_address(0xB, addr),
        Instruction::SkipIfEqual { x, byte } => lemma_word_of_byte(0x3, x, byte),
        Instruction::SkipIfNotEqual { x, byte } => lemma_word_of_byte(0x4, x, byte),
        Instruction::LoadByte { x, byte } => lemma_word_of_byte(0x6, x, byte),
        Instruction::AddByte { x, byte } => lemma_word_of_byte(0x7, x, byte),
        Instruction::Random { x, byte } => lemma_word_of_byte(0xC, x, byte),
        Instruction::SkipIfKeyDown { x } => lemma_word_of_byte(0xE, x, 0x9E),
        Instruction::SkipIfKeyUp { x } => lemma_word_of_byte(0xE, x, 0xA1),
        Instruction::ReadDelay { x } => lemma_word_of_byte(0xF, x, 0x07),
        Instruction::WaitKey { x } => lemma_word_of_byte(0xF, x, 0x0A),
        Instruction::SetDelay { x } => lemma_word_of_byte(0xF, x, 0x15),
        Instruction::SetSound { x } => lemma_word_of_byte(0xF, x, 0x18),
        Instruction::AddIndex { x } => lemma_word_of_byte(0xF, x, 0x1E),
        Instruction::LoadGlyph { x } => lemma_word_of_byte(0xF, x, 0x29),
        Instruction::StoreBcd { x } => lemma_word_of_byte(0xF, x, 0x33),
        Instruction::StoreRegisters { x } => lemma_word_of_byte(0xF, x, 0x55),
        Instruction::LoadRegisters { x } => lemma_word_of_byte(0xF, x, 0x65),
        Instruction::SkipIfRegistersEqual { x, y } => lemma_word_of(0x5, x, y, 0x0),
        Instruction::Move { x, y } => lemma_word_of(0x8, x, y, 0x0),
        Instruction::Or { x, y } => lemma_word_of(0x8, x, y, 0x1),
        Instruction::And { x, y } => lemma_word_of(0x8, x, y, 0x2),
        Instruction::Xor { x, y } => lemma_word_of(0x8, x, y, 0x3),
        Instruction::Add { x, y } => lemma_word_of(0x8, x, y, 0x4),
        Instruction::Sub { x, y } => lemma_word_of(0x8, x, y, 0x5),
        Instruction::ShiftRight { x, y } => lemma_word_of(0x8, x, y, 0x6),
        Instruction::SubFrom { x, y } => lemma_word_of(0x8, x, y, 0x7),
        Instruction::ShiftLeft { x, y } => lemma_word_of(0x8, x, y, 0xE),
        Instruction::SkipIfRegistersNotEqual { x, y } => lemma_word_of(0x9, x, y, 0x0),
        Instruction::Draw { x, y, rows } => lemma_word_of(0xD, x, y, rows),
    }
}

/// Decodes one instruction word. A word that the opcode table does not list
/// is handed back in a `DecodeError`.
pub fn decode(word: u16) -> (res: Result<Instruction, DecodeError>)
    ensures
        decode_spec(word) matches Some(instr) ==> res == Ok::<Instruction, DecodeError>(instr)
            && instr.wf(),
        decode_spec(word) is None ==> res == Err::<Instruction, DecodeError>(
            DecodeError { word },
        ),
{
    let op: u8 = (word / 0x1000) as u8;
    let x: u8 = (word / 0x100 % 0x10) as u8;
    let y: u8 = (word / 0x10 % 0x10) as u8;
    let n: u8 = (word % 0x10) as u8;
    let byte: u8 = (word % 0x100) as u8;
    let addr: u16 = word % 0x1000;
    if word == 0x00E0 {
        Ok(Instruction::ClearScreen)
    } else if word == 0x00EE {
        Ok(Instruction::Return)
    } else if op == 0x1 {
        Ok(Instruction::Jump { addr })
    } else if op == 0x2 {
        Ok(Instruction::Call { addr })
    } else if op == 0x3 {
        Ok(Instruction::SkipIfEqual { x, byte })
    } else if op == 0x4 {
        Ok(Instruction::SkipIfNotEqual { x, byte })
    } else if op == 0x5 && n == 0x0 {
        Ok(Instruction::SkipIfRegistersEqual { x, y })
    } else if op == 0x6 {
        Ok(Instruction::LoadByte { x, byte })
    } else if op == 0x7 {
        Ok(Instruction::AddByte { x, byte })
    } else if op == 0x8 {
        match n {
            0x0 => Ok(Instruction::Move { x, y }),
            0x1 => Ok(Instruction::Or { x, y }),
            0x2 => Ok(Instruction::And { x, y }),
            0x3 => Ok(Instruction::Xor { x, y }),
            0x4 => Ok(Instruction::Add { x, y }),
            0x5 => Ok(Instruction::Sub { x, y }),
            0x6 => Ok(Instruction::ShiftRight { x, y }),
            0x7 => Ok(Instruction::SubFrom { x, y }),
            0xE => Ok(Instruction::ShiftLeft { x, y }),
            _ => Err(DecodeError { word }),
        }
    } else if op == 0x9 && n == 0x0 {
        Ok(Instruction::SkipIfRegistersNotEqual { x, y })
    } else if op == 0xA {
        Ok(Instruction::LoadIndex { addr })
    } else if op == 0xB {
        Ok(Instruction::JumpOffset { addr })
    } else if op == 0xC {
        Ok(Instruction::Random { x, byte })
    } else if op == 0xD {
        Ok(Instruction::Draw { x, y, rows: n })
    } else if op == 0xE {
        match byte {
            0x9E => Ok(Instruction::SkipIfKeyDown { x }),
            0xA1 => Ok(Instruction::SkipIfKeyUp { x }),
            _ => Err(DecodeError { word }),
        }
    } else if op == 0xF {
        match byte {
            0x07 => Ok(Instruction::ReadDelay { x }),
            0x0A => Ok(Instruction::WaitKey { x }),
            0x15 => Ok(Instruction::SetDelay { x }),
            0x18 => Ok(Instruction::SetSound { x }),
            0x1E => Ok(Instruction::AddIndex { x }),
            0x29 => Ok(Instruction::LoadGlyph { x }),
            0x33 => Ok(Instruction::StoreBcd { x }),
            0x55 => Ok(Instruction::StoreRegisters { x }),
            0x65 => Ok(Instruction::LoadRegisters { x }),
            _ => Err(DecodeError { word }),
        }
    } else {
        Err(DecodeError { word })
    }
}

} // verus!
