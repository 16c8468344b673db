use vstd::prelude::*;

verus! {

/// One decoded instruction word. Register operands are four-bit indices,
/// immediates are whole bytes and addresses are twelve bits wide.
#[derive(Debug, Clone, Copy, PartialEq, Eq)]
pub enum Instruction {
    /// `0nnn`: call a machine routine; the engine treats it as a no-op.
    Sys(u16),
    /// `00E0`: clear the screen.
    ClearScreen,
    /// `00EE`: return from a subroutine.
    Return,
    /// `1nnn`: jump to `nnn`.
    Jump(u16),
    /// `2nnn`: call the subroutine at `nnn`.
    Call(u16),
    /// `3xkk`: skip the next instruction if `Vx == kk`.
    SkipIfEqual(u8, u8),
    /// `4xkk`: skip the next instruction if `Vx != kk`.
    SkipIfNotEqual(u8, u8),
    /// `5xy0`: skip the next instruction if `Vx == Vy`.
    SkipIfEqualReg(u8, u8),
    /// `6xkk`: `Vx = kk`.
    SetValue(u8, u8),
    /// `7xkk`: `Vx = Vx + kk`, wrapping, flag untouched.
    Add(u8, u8),
    /// `8xy0`: `Vx = Vy`.
    SetReg(u8, u8),
    /// `8xy1`: `Vx = Vx | Vy`.
    Or(u8, u8),
    /// `8xy2`: `Vx = Vx & Vy`.
    And(u8, u8),
    /// `8xy3`: `Vx = Vx ^ Vy`.
    Xor(u8, u8),
    /// `8xy4`: `Vx = Vx + Vy`, flag = carry.
    AddReg(u8, u8),
    /// `8xy5`: `Vx = Vx - Vy`, flag = no borrow.
    SubReg(u8, u8),
    /// `8xy6`: shift `Vx` right, flag = the lowest bit before the shift.
    ShiftRight(u8, Option<u8>),
    /// `8xy7`: `Vx = Vy - Vx`, flag = no borrow.
    SubN(u8, u8),
    /// `8xyE`: shift `Vx` left, flag = the highest bit before the shift.
    ShiftLeft(u8, Option<u8>),
    /// `9xy0`: skip the next instruction if `Vx != Vy`.
    SkipIfNotEqualReg(u8, u8),
    /// `Annn`: index register = `nnn`.
    SetI(u16),
    /// `Bnnn`: jump to `nnn + V0`.
    JumpToPlusV0(u16),
    /// `Cxkk`: `Vx = random byte & kk`.
    SetRandom(u8, u8),
    /// `Dxyn`: draw an `n`-row sprite at (`Vx`, `Vy`), flag = collision.
    Display(u8, u8, u8),
    /// `Ex9E`: skip the next instruction if the key in `Vx` is pressed.
    SkipIfKeyPressed(u8),
    /// `ExA1`: skip the next instruction if the key in `Vx` is not pressed.
    SkipIfKeyNotPressed(u8),
    /// `Fx07`: `Vx = delay timer`.
    SetDelayTimer(u8),
    /// `Fx0A`: wait for a key and store it in `Vx`.
    WaitForKey(u8),
    /// `Fx15`: delay timer = `Vx`.
    SetDelayTimerReg(u8),
    /// `Fx18`: sound timer = `Vx`.
    SetSoundTimerReg(u8),
    /// `Fx1E`: index register += `Vx`.
    AddToI(u8),
    /// `Fx29`: index register = location of the glyph for `Vx`.
    SetSpriteLocation(u8),
    /// `Fx33`: store the decimal digits of `Vx` at the index register.
    StoreBCD(u8),
    /// `Fx55`: store `V0..=Vx` at the index register.
    StoreRegRange(u8),
    /// `Fx65`: load `V0..=Vx` from the index register.
    LoadRegRange(u8),
    /// A word that maps to no operation, carried as it was read.
    Data(u16),
}

impl Instruction {
    /// Whether every register operand names one of the sixteen registers.
    pub open spec fn registers_in_range(self) -> bool {
        match self {
            Instruction::SkipIfEqual(x, _)
            | Instruction::SkipIfNotEqual(x, _)
            | Instruction::SetValue(x, _)
            | Instruction::Add(x, _)
            | Instruction::SetRandom(x, _)
            | Instruction::SkipIfKeyPressed(x)
            | Instruction::SkipIfKeyNotPressed(x)
            | Instruction::SetDelayTimer(x)
            | Instruction::WaitForKey(x)
            | Instruction::SetDelayTimerReg(x)
            | Instruction::SetSoundTimerReg(x)
            | Instruction::AddToI(x)
            | Instruction::SetSpriteLocation(x)
            | Instruction::StoreBCD(x)
            | Instruction::StoreRegRange(x)
            | Instruction::LoadRegRange(x) => x < 16,
            Instruction::SkipIfEqualReg(x, y)
            | Instruction::SetReg(x, y)
            | Instruction::Or(x, y)
            | Instruction::And(x, y)
            | Instruction::Xor(x, y)
            | Instruction::AddReg(x, y)
            | Instruction::SubReg(x, y)
            | Instruction::SubN(x, y)
            | Instruction::SkipIfNotEqualReg(x, y)
            | Instruction::Display(x, y, _) => x < 16 && y < 16,
            Instruction::ShiftRight(x, amount) | Instruction::ShiftLeft(x, amount) => {
                x < 16 && (amount matches Some(y) ==> y < 16)
            },
            Instruction::Sys(_)
            | Instruction::ClearScreen
            | Instruction::Return
            | Instruction::Jump(_)
            | Instruction::Call(_)
            | Instruction::SetI(_)
            | Instruction::JumpToPlusV0(_)
            | Instruction::Data(_) => true,
        }
    }

    /// Tests `registers_in_range`.
    pub fn has_valid_registers(&self) -> (valid: bool)
        ensures
            valid == self.registers_in_range(),
    {
        match *self {
            Instruction::SkipIfEqual(x, _)
            | Instruction::SkipIfNotEqual(x, _)
            | Instruction::SetValue(x, _)
            | Instruction::Add(x, _)
            | Instruction::SetRandom(x, _)
            | Instruction::SkipIfKeyPressed(x)
            | Instruction::SkipIfKeyNotPressed(x)
            | Instruction::SetDelayTimer(x)
            | Instruction::WaitForKey(x)
            | Instruction::SetDelayTimerReg(x)
            | Instruction::SetSoundTimerReg(x)
            | Instruction::AddToI(x)
            | Instruction::SetSpriteLocation(x)
            | Instruction::StoreBCD(x)
            | Instruction::StoreRegRange(x)
            | Instruction::LoadRegRange(x) => x < 16,
            Instruction::SkipIfEqualReg(x, y)
            | Instruction::SetReg(x, y)
            | Instruction::Or(x, y)
            | Instruction::And(x, y)
            | Instruction::Xor(x, y)
            | Instruction::AddReg(x, y)
            | Instruction::SubReg(x, y)
            | Instruction::SubN(x, y)
            | Instruction::SkipIfNotEqualReg(x, y)
            | Instruction::Display(x, y, _) => x < 16 && y < 16,
            Instruction::ShiftRight(x, amount) | Instruction::ShiftLeft(x, amount) => {
                x < 16 && match amount {
                    Some(y) => y < 16,
                    None => true,
                }
            },
            _ => true,
        }
    }

    /// Whether every operand fits the field it is decoded from: registers
    /// and sprite heights in four bits, addresses in twelve.
    pub open spec fn operands_in_range(self) -> bool {
        &&& self.registers_in_range()
        &&& match self {
            Instruction::Sys(address)
            | Instruction::Jump(address)
            | Instruction::Call(address)
            | Instruction::SetI(address)
            | Instruction::JumpToPlusV0(address) => address < 4096,
            Instruction::Display(_, _, height) => height < 16,
            _ => true,
        }
    }
}

} // verus!
