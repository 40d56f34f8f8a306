//! The opcode decoder.
//!
//! A CHIP-8 instruction is one 16-bit word. The first nibble selects an
//! instruction family; where families overlap, the last nibble or the last
//! byte selects the member. Decoding is a pure function of the word: it is
//! total (every word decodes to an operation or to `UnknownOpcode`) and
//! deterministic, which the contract of [`decode`] states exactly.

use vstd::prelude::*;

verus! {

/// A decoded CHIP-8 operation.
///
/// Operand conventions: `x` and `y` are register indices (one nibble each,
/// always below 16), `kk` is an immediate byte, `nnn` a 12-bit address
/// (always below 0x1000), and `n` a one-nibble immediate (always below 16).
#[derive(Clone, Copy, Debug, PartialEq, Eq, Structural)]
pub enum Op {
    /// `00E0`: clear the frame buffer.
    Clear,
    /// `00EE`: return from a subroutine.
    Ret,
    /// `1nnn`: jump to address `nnn`.
    Jump(u16),
    /// `2nnn`: call the subroutine at `nnn`.
    Call(u16),
    /// `3xkk`: skip the next instruction if `v[x] == kk`.
    SkipEqImm(u8, u8),
    /// `4xkk`: skip the next instruction if `v[x] != kk`.
    SkipNeImm(u8, u8),
    /// `5xy0`: skip the next instruction if `v[x] == v[y]`.
    SkipEqReg(u8, u8),
    /// `6xkk`: set `v[x] = kk`.
    SetImm(u8, u8),
    /// `7xkk`: set `v[x] = v[x] + kk`, wrapping, carry flag untouched.
    AddImm(u8, u8),
    /// `8xy0`: set `v[x] = v[y]`.
    CopyReg(u8, u8),
    /// `8xy1`: set `v[x] = v[x] | v[y]`.
    OrReg(u8, u8),
    /// `8xy2`: set `v[x] = v[x] & v[y]`.
    AndReg(u8, u8),
    /// `8xy3`: set `v[x] = v[x] ^ v[y]`.
    XorReg(u8, u8),
    /// `8xy4`: set `v[x] = v[x] + v[y]` wrapping, `v[15]` = carry.
    AddReg(u8, u8),
    /// `8xy5`: set `v[x] = v[x] - v[y]` wrapping, `v[15]` = no-borrow.
    SubReg(u8, u8),
    /// `8xy6`: shift `v[x]` right by one, `v[15]` = the bit shifted out.
    ShrReg(u8, u8),
    /// `8xy7`: set `v[x] = v[y] - v[x]` wrapping, `v[15]` = no-borrow.
    SubnReg(u8, u8),
    /// `8xyE`: shift `v[x]` left by one, `v[15]` = the bit shifted out.
    ShlReg(u8, u8),
    /// `9xy0`: skip the next instruction if `v[x] != v[y]`.
    SkipNeReg(u8, u8),
    /// `Annn`: set the index register to `nnn`.
    SetIndex(u16),
    /// `Bnnn`: jump to `nnn + v[0]`.
    JumpV0(u16),
    /// `Cxkk`: set `v[x]` to a random byte masked by `kk`.
    RandomMask(u8, u8),
    /// `Dxyn`: draw the `n`-row sprite at memory `i` at `(v[x], v[y])`,
    /// `v[15]` = collision.
    DrawSprite(u8, u8, u8),
    /// `Ex9E`: skip the next instruction if key `v[x] & 0xF` is pressed.
    SkipKeyPressed(u8),
    /// `ExA1`: skip the next instruction if key `v[x] & 0xF` is not pressed.
    SkipKeyNotPressed(u8),
    /// `Fx07`: set `v[x]` to the delay timer.
    ReadDelay(u8),
    /// `Fx0A`: wait for a key press and store the key in `v[x]`.
    WaitKey(u8),
    /// `Fx15`: set the delay timer to `v[x]`.
    SetDelay(u8),
    /// `Fx18`: set the sound timer to `v[x]`.
    SetSound(u8),
    /// `Fx1E`: add `v[x]` to the index register, kept within 12 bits.
    AddIndex(u8),
    /// `Fx29`: point the index register at the font sprite for `v[x] & 0xF`.
    FontChar(u8),
    /// `Fx33`: store the decimal digits of `v[x]` at memory `i..i+3`.
    StoreBcd(u8),
    /// `Fx55`: store `v[0]..=v[x]` at memory `i..`.
    StoreRegs(u8),
    /// `Fx65`: load `v[0]..=v[x]` from memory `i..`.
    LoadRegs(u8),
}

/// The one way decoding fails: the word belongs to no recognized encoding.
/// It carries the raw word for diagnosis.
#[derive(Clone, Copy, Debug, PartialEq, Eq, Structural)]
pub enum DecodeError {
    UnknownOpcode(u16),
}

/// Every operand field a decoded operation carries is in range: register
/// indices and nibbles below 16, addresses below 0x1000.
pub open spec fn op_wf(op: Op) -> bool {
    match op {
        Op::Clear => true,
        Op::Ret => true,
        Op::Jump(nnn) => nnn < 0x1000,
        Op::Call(nnn) => nnn < 0x1000,
        Op::SkipEqImm(x, _kk) => x < 16,
        Op::SkipNeImm(x, _kk) => x < 16,
        Op::SkipEqReg(x, y) => x < 16 && y < 16,
        Op::SetImm(x, _kk) => x < 16,
        Op::AddImm(x, _kk) => x < 16,
        Op::CopyReg(x, y) => x < 16 && y < 16,
        Op::OrReg(x, y) => x < 16 && y < 16,
        Op::AndReg(x, y) => x < 16 && y < 16,
        Op::XorReg(x, y) => x < 16 && y < 16,
        Op::AddReg(x, y) => x < 16 && y < 16,
        Op::SubReg(x, y) => x < 16 && y < 16,
        Op::ShrReg(x, y) => x < 16 && y < 16,
        Op::SubnReg(x, y) => x < 16 && y < 16,
        Op::ShlReg(x, y) => x < 16 && y < 16,
        Op::SkipNeReg(x, y) => x < 16 && y < 16,
        Op::SetIndex(nnn) => nnn < 0x1000,
        Op::JumpV0(nnn) => nnn < 0x1000,
        Op::RandomMask(x, _kk) => x < 16,
        Op::DrawSprite(x, y, n) => x < 16 && y < 16 && n < 16,
        Op::SkipKeyPressed(x) => x < 16,
        Op::SkipKeyNotPressed(x) => x < 16,
        Op::ReadDelay(x) => x < 16,
        Op::WaitKey(x) => x < 16,
        Op::SetDelay(x) => x < 16,
        Op::SetSound(x) => x < 16,
        Op::AddIndex(x) => x < 16,
        Op::FontChar(x) => x < 16,
        Op::StoreBcd(x) => x < 16,
        Op::StoreRegs(x) => x < 16,
        Op::LoadRegs(x) => x < 16,
    }
}

/// What decoding a word yields, by the standard nibble-prefix dispatch
/// table: the first nibble selects the family, the last nibble or byte the
/// member where a family overlaps.
pub open spec fn spec_decode(w: u16) -> Result<Op, DecodeError> {
    let x = ((w >> 8) & 0xF) as u8;
    let y = ((w >> 4) & 0xF) as u8;
    let kk = (w & 0xFF) as u8;
    let nnn = w & 0x0FFF;
    let n = (w & 0xF) as u8;
    let family = w >> 12;
    if w == 0x00E0 {
        Ok(Op::Clear)
    } else if w == 0x00EE {
        Ok(Op::Ret)
    } else if family == 0x1 {
        Ok(Op::Jump(nnn))
    } else if family == 0x2 {
        Ok(Op::Call(nnn))
    } else if family == 0x3 {
        Ok(Op::SkipEqImm(x, kk))
    } else if family == 0x4 {
        Ok(Op::SkipNeImm(x, kk))
    } else if family == 0x5 && n == 0x0 {
        Ok(Op::SkipEqReg(x, y))
    } else if family == 0x6 {
        Ok(Op::SetImm(x, kk))
    } else if family == 0x7 {
        Ok(Op::AddImm(x, kk))
    } else if family == 0x8 && n == 0x0 {
        Ok(Op::CopyReg(x, y))
    } else if family == 0x8 && n == 0x1 {
        Ok(Op::OrReg(x, y))
    } else if family == 0x8 && n == 0x2 {
        Ok(Op::AndReg(x, y))
    } else if family == 0x8 && n == 0x3 {
        Ok(Op::XorReg(x, y))
    } else if family == 0x8 && n == 0x4 {
        Ok(Op::AddReg(x, y))
    } else if family == 0x8 && n == 0x5 {
        Ok(Op::SubReg(x, y))
    } else if family == 0x8 && n == 0x6 {
        Ok(Op::ShrReg(x, y))
    } else if family == 0x8 && n == 0x7 {
        Ok(Op::SubnReg(x, y))
    } else if family == 0x8 && n == 0xE {
        Ok(Op::ShlReg(x, y))
    } else if family == 0x9 && n == 0x0 {
        Ok(Op::SkipNeReg(x, y))
    } else if family == 0xA {
        Ok(Op::SetIndex(nnn))
    } else if family == 0xB {
        Ok(Op::JumpV0(nnn))
    } else if family == 0xC {
        Ok(Op::RandomMask(x, kk))
    } else if family == 0xD {
        Ok(Op::DrawSprite(x, y, n))
    } else if family == 0xE && kk == 0x9E {
        Ok(Op::SkipKeyPressed(x))
    } else if family == 0xE && kk == 0xA1 {
        Ok(Op::SkipKeyNotPressed(x))
    } else if family == 0xF && kk == 0x07 {
        Ok(Op::ReadDelay(x))
    } else if family == 0xF && kk == 0x0A {
        Ok(Op::WaitKey(x))
    } else if family == 0xF && kk == 0x15 {
        Ok(Op::SetDelay(x))
    } else if family == 0xF && kk == 0x18 {
        Ok(Op::SetSound(x))
    } else if family == 0xF && kk == 0x1E {
        Ok(Op::AddIndex(x))
    } else if family == 0xF && kk == 0x29 {
        Ok(Op::FontChar(x))
    } else if family == 0xF && kk == 0x33 {
        Ok(Op::StoreBcd(x))
    } else if family == 0xF && kk == 0x55 {
        Ok(Op::StoreRegs(x))
    } else if family == 0xF && kk == 0x65 {
        Ok(Op::LoadRegs(x))
    } else {
        Err(DecodeError::UnknownOpcode(w))
    }
}

/// Decode one instruction word.
///
/// Decoding is total and deterministic: for every 16-bit word the result is
/// exactly `spec_decode(word)` — the same word always decodes to the same
/// operation value, and a word outside every recognized encoding yields
/// `UnknownOpcode` carrying that word. Operand fields of a decoded
/// operation are always in range (`op_wf`).
pub fn decode(word: u16) -> (r: Result<Op, DecodeError>)
    ensures
        r == spec_decode(word),
        r matches Ok(op) ==> op_wf(op),
{
    proof {
        assert((word >> 8) & 0xF < 16 && (word >> 4) & 0xF < 16 && word & 0xFF < 256
            && word & 0x0FFF < 0x1000 && word & 0xF < 16) by (bit_vector);
    }
    let x = ((word >> 8) & 0xF) as u8;
    let y = ((word >> 4) & 0xF) as u8;
    let kk = (word & 0xFF) as u8;
    let nnn = word & 0x0FFF;
    let n = (word & 0xF) as u8;
    let family = word >> 12;
    if word == 0x00E0 {
        Ok(Op::Clear)
    } else if word == 0x00EE {
        Ok(Op::Ret)
    } else if family == 0x1 {
        Ok(Op::Jump(nnn))
    } else if family == 0x2 {
        Ok(Op::Call(nnn))
    } else if family == 0x3 {
        Ok(Op::SkipEqImm(x, kk))
    } else if family == 0x4 {
        Ok(Op::SkipNeImm(x, kk))
    } else if family == 0x5 && n == 0x0 {
        Ok(Op::SkipEqReg(x, y))
    } else if family == 0x6 {
        Ok(Op::SetImm(x, kk))
    } else if family == 0x7 {
        Ok(Op::AddImm(x, kk))
    } else if family == 0x8 && n == 0x0 {
        Ok(Op::CopyReg(x, y))
    } else if family == 0x8 && n == 0x1 {
        Ok(Op::OrReg(x, y))
    } else if family == 0x8 && n == 0x2 {
        Ok(Op::AndReg(x, y))
    } else if family == 0x8 && n == 0x3 {
        Ok(Op::XorReg(x, y))
    } else if family == 0x8 && n == 0x4 {
        Ok(Op::AddReg(x, y))
    } else if family == 0x8 && n == 0x5 {
        Ok(Op::SubReg(x, y))
    } else if family == 0x8 && n == 0x6 {
        Ok(Op::ShrReg(x, y))
    } else if family == 0x8 && n == 0x7 {
        Ok(Op::SubnReg(x, y))
    } else if family == 0x8 && n == 0xE {
        Ok(Op::ShlReg(x, y))
    } else if family == 0x9 && n == 0x0 {
        Ok(Op::SkipNeReg(x, y))
    } else if family == 0xA {
        Ok(Op::SetIndex(nnn))
    } else if family == 0xB {
        Ok(Op::JumpV0(nnn))
    } else if family == 0xC {
        Ok(Op::RandomMask(x, kk))
    } else if family == 0xD {
        Ok(Op::DrawSprite(x, y, n))
    } else if family == 0xE && kk == 0x9E {
        Ok(Op::SkipKeyPressed(x))
    } else if family == 0xE && kk == 0xA1 {
        Ok(Op::SkipKeyNotPressed(x))
    } else if family == 0xF && kk == 0x07 {
        Ok(Op::ReadDelay(x))
    } else if family == 0xF && kk == 0x0A {
        Ok(Op::WaitKey(x))
    } else if family == 0xF && kk == 0x15 {
        Ok(Op::SetDelay(x))
    } else if family == 0xF && kk == 0x18 {
        Ok(Op::SetSound(x))
    } else if family == 0xF && kk == 0x1E {
        Ok(Op::AddIndex(x))
    } else if family == 0xF && kk == 0x29 {
        Ok(Op::FontChar(x))
    } else if family == 0xF && kk == 0x33 {
        Ok(Op::StoreBcd(x))
    } else if family == 0xF && kk == 0x55 {
        Ok(Op::StoreRegs(x))
    } else if family == 0xF && kk == 0x65 {
        Ok(Op::LoadRegs(x))
    } else {
        Err(DecodeError::UnknownOpcode(word))
    }
}

} // verus!
