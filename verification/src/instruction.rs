//! The instruction set: what each 16-bit word means.
//!
//! A word is read as four nibbles. The first selects the group; the second
//! and third usually name the registers `x` and `y`; the low twelve bits are
//! an address, the low eight an immediate byte, the low four a small count.

use vstd::prelude::*;

verus! {

/// One decoded instruction. Register operands are register numbers below 16,
/// addresses are below 4096 and counts below 16.
#[derive(Copy, Clone, Debug, Eq, PartialEq, Structural)]
pub enum Instruction {
    /// `00Cn`: scroll the picture down by `n` rows.
    ScrollDown(u8),
    /// `00E0`: clear the display.
    Clear,
    /// `00EE`: return from a subroutine.
    Return,
    /// `00FB`: scroll the picture right by four pixels.
    ScrollRight,
    /// `00FC`: scroll the picture left by four pixels.
    ScrollLeft,
    /// `00FD`: halt the machine.
    Exit,
    /// `00FE`: switch to the standard resolution.
    StandardMode,
    /// `00FF`: switch to the super resolution.
    SuperMode,
    /// `1nnn`: jump to `nnn`.
    Jump(u16),
    /// `2nnn`: call the subroutine at `nnn`.
    Call(u16),
    /// `3xkk`: skip the next instruction if `Vx == kk`.
    SkipEqual(u8, u8),
    /// `4xkk`: skip the next instruction if `Vx != kk`.
    SkipNotEqual(u8, u8),
    /// `5xy0`: skip the next instruction if `Vx == Vy`.
    SkipRegEqual(u8, u8),
    /// `6xkk`: `Vx = kk`.
    LoadByte(u8, u8),
    /// `7xkk`: `Vx = Vx + kk` modulo 256, the flag register untouched.
    AddByte(u8, u8),
    /// `8xy0`: `Vx = Vy`.
    Move(u8, u8),
    /// `8xy1`: `Vx = Vx | Vy`.
    Or(u8, u8),
    /// `8xy2`: `Vx = Vx & Vy`.
    And(u8, u8),
    /// `8xy3`: `Vx = Vx ^ Vy`.
    Xor(u8, u8),
    /// `8xy4`: `Vx = Vx + Vy` modulo 256, the flag register set to the carry.
    Add(u8, u8),
    /// `8xy5`: `Vx = Vx - Vy` modulo 256, the flag register set to 1 unless
    /// the subtraction borrowed.
    Sub(u8, u8),
    /// `8xy6`: the flag register takes the low bit of `Vx`, then `Vx` is
    /// halved. `Vy` plays no part.
    ShiftRight(u8),
    /// `8xy7`: `Vx = Vy - Vx` modulo 256, the flag register set to 1 unless
    /// the subtraction borrowed.
    SubFrom(u8, u8),
    /// `8xyE`: the flag register takes the high bit of `Vx`, then `Vx` is
    /// doubled modulo 256. `Vy` plays no part.
    ShiftLeft(u8),
    /// `9xy0`: skip the next instruction if `Vx != Vy`.
    SkipRegNotEqual(u8, u8),
    /// `Annn`: the index register takes `nnn`.
    LoadIndex(u16),
    /// `Bnnn`: jump to `nnn + V0`.
    JumpOffset(u16),
    /// `Cxkk`: `Vx` takes a random byte masked with `kk`.
    Random(u8, u8),
    /// `Dxyn`: draw the sprite at the index register at column `Vx` and row
    /// `Vy`, `n` rows high.
    Draw(u8, u8, u8),
    /// `Ex9E`: skip the next instruction if the key numbered `Vx` is pressed.
    SkipKey(u8),
    /// `ExA1`: skip the next instruction unless the key numbered `Vx` is
    /// pressed.
    SkipNotKey(u8),
    /// `Fx07`: `Vx` takes the delay timer.
    ReadDelay(u8),
    /// `Fx0A`: wait until a key is pressed and put its number in `Vx`.
    WaitKey(u8),
    /// `Fx15`: the delay timer takes `Vx`.
    SetDelay(u8),
    /// `Fx18`: the sound timer takes `Vx`.
    SetSound(u8),
    /// `Fx1E`: the index register grows by `Vx`; the sum has to be an address
    /// of memory.
    AddIndex(u8),
    /// `Fx29`: the index register takes the address of the standard glyph of
    /// the low nibble of `Vx`.
    Glyph(u8),
    /// `Fx30`: the index register takes the address of the super glyph of the
    /// low nibble of `Vx`.
    SuperGlyph(u8),
    /// `Fx33`: the three decimal digits of `Vx` go to memory at the index
    /// register.
    Bcd(u8),
    /// `Fx55`: `V0` to `Vx` go to memory at the index register.
    Store(u8),
    /// `Fx65`: `V0` to `Vx` are read from memory at the index register.
    Fill(u8),
    /// `Fx75`: `V0` to `Vx` go to the persistent flags; `x` is at most 7.
    SaveFlags(u8),
    /// `Fx85`: `V0` to `Vx` are read from the persistent flags; `x` is at
    /// most 7.
    LoadFlags(u8),
}

/// The four nibbles of a word, highest first.
pub open spec fn nibbles(opcode: u16) -> (u16, u16, u16, u16) {
    (opcode / 4096, (opcode / 256) % 16, (opcode / 16) % 16, opcode % 16)
}

/// The instruction that `opcode` encodes, or `None` where it encodes none.
pub open spec fn decode_spec(opcode: u16) -> Option<Instruction> {
    let x = ((opcode / 256) % 16) as u8;
    let y = ((opcode / 16) % 16) as u8;
    let n = (opcode % 16) as u8;
    let nnn = opcode % 4096;
    let kk = (opcode % 256) as u8;
    match nibbles(opcode) {
        (0x0, 0x0, 0xC, _) => Some(Instruction::ScrollDown(n)),
        (0x0, 0x0, 0xE, 0x0) => Some(Instruction::Clear),
        (0x0, 0x0, 0xE, 0xE) => Some(Instruction::Return),
        (0x0, 0x0, 0xF, 0xB) => Some(Instruction::ScrollRight),
        (0x0, 0x0, 0xF, 0xC) => Some(Instruction::ScrollLeft),
        (0x0, 0x0, 0xF, 0xD) => Some(Instruction::Exit),
        (0x0, 0x0, 0xF, 0xE) => Some(Instruction::StandardMode),
        (0x0, 0x0, 0xF, 0xF) => Some(Instruction::SuperMode),
        (0x1, _, _, _) => Some(Instruction::Jump(nnn)),
        (0x2, _, _, _) => Some(Instruction::Call(nnn)),
        (0x3, _, _, _) => Some(Instruction::SkipEqual(x, kk)),
        (0x4, _, _, _) => Some(Instruction::SkipNotEqual(x, kk)),
        (0x5, _, _, 0x0) => Some(Instruction::SkipRegEqual(x, y)),
        (0x6, _, _, _) => Some(Instruction::LoadByte(x, kk)),
        (0x7, _, _, _) => Some(Instruction::AddByte(x, kk)),
        (0x8, _, _, 0x0) => Some(Instruction::Move(x, y)),
        (0x8, _, _, 0x1) => Some(Instruction::Or(x, y)),
        (0x8, _, _, 0x2) => Some(Instruction::And(x, y)),
        (0x8, _, _, 0x3) => Some(Instruction::Xor(x, y)),
        (0x8, _, _, 0x4) => Some(Instruction::Add(x, y)),
        (0x8, _, _, 0x5) => Some(Instruction::Sub(x, y)),
        (0x8, _, _, 0x6) => Some(Instruction::ShiftRight(x)),
        (0x8, _, _, 0x7) => Some(Instruction::SubFrom(x, y)),
        (0x8, _, _, 0xE) => Some(Instruction::ShiftLeft(x)),
        (0x9, _, _, 0x0) => Some(Instruction::SkipRegNotEqual(x, y)),
        (0xA, _, _, _) => Some(Instruction::LoadIndex(nnn)),
        (0xB, _, _, _) => Some(Instruction::JumpOffset(nnn)),
        (0xC, _, _, _) => Some(Instruction::Random(x, kk)),
        (0xD, _, _, _) => Some(Instruction::Draw(x, y, n)),
        (0xE, _, 0x9, 0xE) => Some(Instruction::SkipKey(x)),
        (0xE, _, 0xA, 0x1) => Some(Instruction::SkipNotKey(x)),
        (0xF, _, 0x0, 0x7) => Some(Instruction::ReadDelay(x)),
        (0xF, _, 0x0, 0xA) => Some(Instruction::WaitKey(x)),
        (0xF, _, 0x1, 0x5) => Some(Instruction::SetDelay(x)),
        (0xF, _, 0x1, 0x8) => Some(Instruction::SetSound(x)),
        (0xF, _, 0x1, 0xE) => Some(Instruction::AddIndex(x)),
        (0xF, _, 0x2, 0x9) => Some(Instruction::Glyph(x)),
        (0xF, _, 0x3, 0x0) => Some(Instruction::SuperGlyph(x)),
        (0xF, _, 0x3, 0x3) => Some(Instruction::Bcd(x)),
        (0xF, _, 0x5, 0x5) => Some(Instruction::Store(x)),
        (0xF, _, 0x6, 0x5) => Some(Instruction::Fill(x)),
        (0xF, _, 0x7, 0x5) => if x < 8 {
            Some(Instruction::SaveFlags(x))
        } else {
            None
        },
        (0xF, _, 0x8, 0x5) => if x < 8 {
            Some(Instruction::LoadFlags(x))
        } else {
            None
        },
        _ => None,
    }
}

impl Instruction {
    /// Whether the operands are in range: registers and counts below 16,
    /// addresses below 4096, flag counts below 8.
    pub open spec fn wf(self) -> bool {
        match self {
            Instruction::ScrollDown(n) => n < 16,
            Instruction::Jump(nnn) | Instruction::Call(nnn) | Instruction::LoadIndex(nnn) | Instruction::JumpOffset(nnn) => nnn < 4096,
            Instruction::SkipEqual(x, _) | Instruction::SkipNotEqual(x, _) | Instruction::LoadByte(x, _) | Instruction::AddByte(x, _) | Instruction::Random(x, _) => x < 16,
            Instruction::SkipRegEqual(x, y) | Instruction::Move(x, y) | Instruction::Or(x, y) | Instruction::And(x, y) | Instruction::Xor(x, y) | Instruction::Add(x, y) | Instruction::Sub(x, y) | Instruction::SubFrom(x, y) | Instruction::SkipRegNotEqual(x, y) => x < 16 && y < 16,
            Instruction::Draw(x, y, n) => x < 16 && y < 16 && n < 16,
            Instruction::ShiftRight(x) | Instruction::ShiftLeft(x) | Instruction::SkipKey(x) | Instruction::SkipNotKey(x) | Instruction::ReadDelay(x) | Instruction::WaitKey(x) | Instruction::SetDelay(x) | Instruction::SetSound(x) | Instruction::AddIndex(x) | Instruction::Glyph(x) | Instruction::SuperGlyph(x) | Instruction::Bcd(x) | Instruction::Store(x) | Instruction::Fill(x) => x < 16,
            Instruction::SaveFlags(x) | Instruction::LoadFlags(x) => x < 8,
            _ => true,
        }
    }
}

/// Every instruction that a word encodes has its operands in range.
pub proof fn lemma_decode_wf(opcode: u16)
    ensures
        decode_spec(opcode) matches Some(instruction) ==> instruction.wf(),
{
}

/// How masks and shifts take a word apart.
proof fn lemma_nibbles(opcode: u16)
    by (bit_vector)
    ensures
        (opcode & 0xF000) >> 12 == opcode / 4096,
        (opcode & 0x0F00) >> 8 == (opcode / 256) % 16,
        (opcode & 0x00F0) >> 4 == (opcode / 16) % 16,
        opcode & 0x000F == opcode % 16,
        opcode & 0x0FFF == opcode % 4096,
        opcode & 0x00FF == opcode % 256,
{
}

/// Decodes a word into the instruction it encodes, if it encodes one.
pub fn decode(opcode: u16) -> (decoded: Option<Instruction>)
    ensures
        decoded == decode_spec(opcode),
        decoded matches Some(instruction) ==> instruction.wf(),
{
    proof {
        lemma_nibbles(opcode);
    }
    let tokens = ((opcode & 0xF000) >> 12, (opcode & 0x0F00) >> 8, (opcode & 0x00F0) >> 4, opcode & 0x000F);
    let x = tokens.1 as u8;
    let y = tokens.2 as u8;
    let n = tokens.3 as u8;
    let nnn = opcode & 0x0FFF;
    let kk = (opcode & 0x00FF) as u8;
    match tokens {
        (0x0, 0x0, 0xC, _) => Some(Instruction::ScrollDown(n)),
        (0x0, 0x0, 0xE, 0x0) => Some(Instruction::Clear),
        (0x0, 0x0, 0xE, 0xE) => Some(Instruction::Return),
        (0x0, 0x0, 0xF, 0xB) => Some(Instruction::ScrollRight),
        (0x0, 0x0, 0xF, 0xC) => Some(Instruction::ScrollLeft),
        (0x0, 0x0, 0xF, 0xD) => Some(Instruction::Exit),
        (0x0, 0x0, 0xF, 0xE) => Some(Instruction::StandardMode),
        (0x0, 0x0, 0xF, 0xF) => Some(Instruction::SuperMode),
        (0x1, _, _, _) => Some(Instruction::Jump(nnn)),
        (0x2, _, _, _) => Some(Instruction::Call(nnn)),
        (0x3, _, _, _) => Some(Instruction::SkipEqual(x, kk)),
        (0x4, _, _, _) => Some(Instruction::SkipNotEqual(x, kk)),
        (0x5, _, _, 0x0) => Some(Instruction::SkipRegEqual(x, y)),
        (0x6, _, _, _) => Some(Instruction::LoadByte(x, kk)),
        (0x7, _, _, _) => Some(Instruction::AddByte(x, kk)),
        (0x8, _, _, 0x0) => Some(Instruction::Move(x, y)),
        (0x8, _, _, 0x1) => Some(Instruction::Or(x, y)),
        (0x8, _, _, 0x2) => Some(Instruction::And(x, y)),
        (0x8, _, _, 0x3) => Some(Instruction::Xor(x, y)),
        (0x8, _, _, 0x4) => Some(Instruction::Add(x, y)),
        (0x8, _, _, 0x5) => Some(Instruction::Sub(x, y)),
        (0x8, _, _, 0x6) => Some(Instruction::ShiftRight(x)),
        (0x8, _, _, 0x7) => Some(Instruction::SubFrom(x, y)),
        (0x8, _, _, 0xE) => Some(Instruction::ShiftLeft(x)),
        (0x9, _, _, 0x0) => Some(Instruction::SkipRegNotEqual(x, y)),
        (0xA, _, _, _) => Some(Instruction::LoadIndex(nnn)),
        (0xB, _, _, _) => Some(Instruction::JumpOffset(nnn)),
        (0xC, _, _, _) => Some(Instruction::Random(x, kk)),
        (0xD, _, _, _) => Some(Instruction::Draw(x, y, n)),
        (0xE, _, 0x9, 0xE) => Some(Instruction::SkipKey(x)),
        (0xE, _, 0xA, 0x1) => Some(Instruction::SkipNotKey(x)),
        (0xF, _, 0x0, 0x7) => Some(Instruction::ReadDelay(x)),
        (0xF, _, 0x0, 0xA) => Some(Instruction::WaitKey(x)),
        (0xF, _, 0x1, 0x5) => Some(Instruction::SetDelay(x)),
        (0xF, _, 0x1, 0x8) => Some(Instruction::SetSound(x)),
        (0xF, _, 0x1, 0xE) => Some(Instruction::AddIndex(x)),
        (0xF, _, 0x2, 0x9) => Some(Instruction::Glyph(x)),
        (0xF, _, 0x3, 0x0) => Some(Instruction::SuperGlyph(x)),
        (0xF, _, 0x3, 0x3) => Some(Instruction::Bcd(x)),
        (0xF, _, 0x5, 0x5) => Some(Instruction::Store(x)),
        (0xF, _, 0x6, 0x5) => Some(Instruction::Fill(x)),
        (0xF, _, 0x7, 0x5) => if x < 8 {
            Some(Instruction::SaveFlags(x))
        } else {
            None
        },
        (0xF, _, 0x8, 0x5) => if x < 8 {
            Some(Instruction::LoadFlags(x))
        } else {
            None
        },
        _ => None,
    }
}

} // verus!
