use vstd::prelude::*;
use crate::instructions::Instruction;

verus! {

/// The marker of a word that the decoder could not map. The decoder itself
/// never fails: it hands such a word back as [`Instruction::Data`].
#[derive(Debug, Clone, Copy, PartialEq, Eq)]
pub struct ParseInstructionError;

/// The twelve-bit address held in the low nibble of `high` and in `low`.
pub open spec fn address_of(high: u8, low: u8) -> int {
    (high % 16) * 256 + low
}

/// The sixteen-bit word whose bytes are `high` and `low`, big-endian.
pub open spec fn word_of(high: u8, low: u8) -> int {
    high * 256 + low
}

/// The arithmetic group `8xy?`, selected by the last nibble.
pub open spec fn decode_arithmetic(x: u8, y: u8, selector: int, word: u16) -> Instruction {
    if selector == 0x0 {
        Instruction::SetReg(x, y)
    } else if selector == 0x1 {
        Instruction::Or(x, y)
    } else if selector == 0x2 {
        Instruction::And(x, y)
    } else if selector == 0x3 {
        Instruction::Xor(x, y)
    } else if selector == 0x4 {
        Instruction::AddReg(x, y)
    } else if selector == 0x5 {
        Instruction::SubReg(x, y)
    } else if selector == 0x6 {
        Instruction::ShiftRight(x, Some(y))
    } else if selector == 0x7 {
        Instruction::SubN(x, y)
    } else if selector == 0xE {
        Instruction::ShiftLeft(x, Some(y))
    } else {
        Instruction::Data(word)
    }
}

/// The group `Fx??`, selected by the whole second byte.
pub open spec fn decode_misc(x: u8, low: u8, word: u16) -> Instruction {
    if low == 0x07 {
        Instruction::SetDelayTimer(x)
    } else if low == 0x0A {
        Instruction::WaitForKey(x)
    } else if low == 0x15 {
        Instruction::SetDelayTimerReg(x)
    } else if low == 0x18 {
        Instruction::SetSoundTimerReg(x)
    } else if low == 0x1E {
        Instruction::AddToI(x)
    } else if low == 0x29 {
        Instruction::SetSpriteLocation(x)
    } else if low == 0x33 {
        Instruction::StoreBCD(x)
    } else if low == 0x55 {
        Instruction::StoreRegRange(x)
    } else if low == 0x65 {
        Instruction::LoadRegRange(x)
    } else {
        Instruction::Data(word)
    }
}

/// What the two bytes of an instruction word mean.
///
/// The family is the first nibble of `high`; `x` is its second nibble, `y`
/// the first nibble of `low`. A word that fits no row of the table is
/// `Data` with the word itself.
pub open spec fn decode(high: u8, low: u8) -> Instruction {
    let family = high / 16;
    let x = (high % 16) as u8;
    let y = (low / 16) as u8;
    let n = (low % 16) as u8;
    let address = address_of(high, low) as u16;
    let word = word_of(high, low) as u16;
    if family == 0x0 {
        if word == 0x00E0 {
            Instruction::ClearScreen
        } else if word == 0x00EE {
            Instruction::Return
        } else {
            Instruction::Sys(address)
        }
    } else if family == 0x1 {
        Instruction::Jump(address)
    } else if family == 0x2 {
        Instruction::Call(address)
    } else if family == 0x3 {
        Instruction::SkipIfEqual(x, low)
    } else if family == 0x4 {
        Instruction::SkipIfNotEqual(x, low)
    } else if family == 0x5 {
        if n == 0 {
            Instruction::SkipIfEqualReg(x, y)
        } else {
            Instruction::Data(word)
        }
    } else if family == 0x6 {
        Instruction::SetValue(x, low)
    } else if family == 0x7 {
        Instruction::Add(x, low)
    } else if family == 0x8 {
        decode_arithmetic(x, y, n as int, word)
    } else if family == 0x9 {
        if n == 0 {
            Instruction::SkipIfNotEqualReg(x, y)
        } else {
            Instruction::Data(word)
        }
    } else if family == 0xA {
        Instruction::SetI(address)
    } else if family == 0xB {
        Instruction::JumpToPlusV0(address)
    } else if family == 0xC {
        Instruction::SetRandom(x, low)
    } else if family == 0xD {
        Instruction::Display(x, y, n)
    } else if family == 0xE {
        if low == 0x9E {
            Instruction::SkipIfKeyPressed(x)
        } else if low == 0xA1 {
            Instruction::SkipIfKeyNotPressed(x)
        } else {
            Instruction::Data(word)
        }
    } else {
        decode_misc(x, low, word)
    }
}

/// Whether the word made of `high` and `low` stands in the instruction
/// table, that is, names an operation.
pub open spec fn is_mapped(high: u8, low: u8) -> bool {
    let family = high / 16;
    let n = low % 16;
    ||| family <= 0x4
    ||| (family == 0x5 && n == 0)
    ||| family == 0x6
    ||| family == 0x7
    ||| (family == 0x8 && (n <= 0x7 || n == 0xE))
    ||| (family == 0x9 && n == 0)
    ||| (0xA <= family <= 0xD)
    ||| (family == 0xE && (low == 0x9E || low == 0xA1))
    ||| (family == 0xF && (low == 0x07 || low == 0x0A || low == 0x15 || low == 0x18 || low
        == 0x1E || low == 0x29 || low == 0x33 || low == 0x55 || low == 0x65))
}

/// The words that decode to `Data` are exactly those outside the
/// instruction table, and each of them is carried whole.
pub proof fn lemma_unknown_is_complement(high: u8, low: u8)
    ensures
        decode(high, low) is Data <==> !is_mapped(high, low),
        !is_mapped(high, low) ==> decode(high, low) == Instruction::Data(
            word_of(high, low) as u16,
        ),
{
}

/// Whatever the decoder returns, its operands fit their fields.
pub proof fn lemma_decoded_operands_in_range(high: u8, low: u8)
    ensures
        decode(high, low).operands_in_range(),
{
}

/// The facts that tie the decoder's shifts and masks to the nibbles and
/// words they stand for.
proof fn lemma_fields(high: u8, low: u8)
    ensures
        high >> 4 == high / 16,
        high & 0xF == high % 16,
        low >> 4 == low / 16,
        low & 0xF == low % 16,
        (((high & 0xF) as u16) << 8) | (low as u16) == address_of(high, low),
        ((high as u16) << 8) | (low as u16) == word_of(high, low),
{
    assert(high >> 4 == high / 16) by (bit_vector);
    assert(high & 0xF == high % 16) by (bit_vector);
    assert(low >> 4 == low / 16) by (bit_vector);
    assert(low & 0xF == low % 16) by (bit_vector);
    assert((((high & 0xF) as u16) << 8) | (low as u16) == (high % 16) * 256 + low) by (bit_vector);
    assert(((high as u16) << 8) | (low as u16) == high * 256 + low) by (bit_vector);
}

/// Decodes one instruction word, given as its two bytes in memory order.
///
/// Every pair of bytes decodes; one that names no operation comes back as
/// `Data` with the word unchanged.
pub fn parse_instruction(source: [u8; 2]) -> (instruction: Instruction)
    ensures
        instruction == decode(source[0], source[1]),
{
    let high = source[0];
    let low = source[1];
    let family = high >> 4;
    let x = high & 0xF;
    let y = low >> 4;
    let n = low & 0xF;
    let address: u16 = ((x as u16) << 8) | (low as u16);
    let word: u16 = ((high as u16) << 8) | (low as u16);
    proof {
        lemma_fields(high, low);
    }
    match family {
        0x0 => {
            if word == 0x00E0 {
                Instruction::ClearScreen
            } else if word == 0x00EE {
                Instruction::Return
            } else {
                Instruction::Sys(address)
            }
        },
        0x1 => Instruction::Jump(address),
        0x2 => Instruction::Call(address),
        0x3 => Instruction::SkipIfEqual(x, low),
        0x4 => Instruction::SkipIfNotEqual(x, low),
        0x5 if n == 0 => Instruction::SkipIfEqualReg(x, y),
        0x6 => Instruction::SetValue(x, low),
        0x7 => Instruction::Add(x, low),
        0x8 => parse_arithmetic(x, y, n, word),
        0x9 if n == 0 => Instruction::SkipIfNotEqualReg(x, y),
        0xA => Instruction::SetI(address),
        0xB => Instruction::JumpToPlusV0(address),
        0xC => Instruction::SetRandom(x, low),
        0xD => Instruction::Display(x, y, n),
        0xE if low == 0x9E => Instruction::SkipIfKeyPressed(x),
        0xE if low == 0xA1 => Instruction::SkipIfKeyNotPressed(x),
        0xF => parse_misc(x, low, word),
        _ => Instruction::Data(word),
    }
}

/// Decodes the last nibble of an `8xy?` word.
fn parse_arithmetic(x: u8, y: u8, selector: u8, word: u16) -> (instruction: Instruction)
    ensures
        instruction == decode_arithmetic(x, y, selector as int, word),
{
    match selector {
        0x0 => Instruction::SetReg(x, y),
        0x1 => Instruction::Or(x, y),
        0x2 => Instruction::And(x, y),
        0x3 => Instruction::Xor(x, y),
        0x4 => Instruction::AddReg(x, y),
        0x5 => Instruction::SubReg(x, y),
        0x6 => Instruction::ShiftRight(x, Some(y)),
        0x7 => Instruction::SubN(x, y),
        0xE => Instruction::ShiftLeft(x, Some(y)),
        _ => Instruction::Data(word),
    }
}

/// Decodes the second byte of an `Fx??` word.
fn parse_misc(x: u8, low: u8, word: u16) -> (instruction: Instruction)
    ensures
        instruction == decode_misc(x, low, word),
{
    match low {
        0x07 => Instruction::SetDelayTimer(x),
        0x0A => Instruction::WaitForKey(x),
        0x15 => Instruction::SetDelayTimerReg(x),
        0x18 => Instruction::SetSoundTimerReg(x),
        0x1E => Instruction::AddToI(x),
        0x29 => Instruction::SetSpriteLocation(x),
        0x33 => Instruction::StoreBCD(x),
        0x55 => Instruction::StoreRegRange(x),
        0x65 => Instruction::LoadRegRange(x),
        _ => Instruction::Data(word),
    }
}

} // verus!
