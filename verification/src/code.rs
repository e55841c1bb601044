//! The instruction decoder: a pure mapping from a raw cell value and the
//! string-mode flag to an instruction.
//!
//! Recognition goes by the low 8 bits of the cell value, read as a
//! character. In string mode a double quote toggles the mode off and any
//! other cell pushes its raw value literally; outside string mode the
//! fixed table below applies, decimal digits push their numeric value,
//! and any unrecognized value falls back to pushing the raw value.

use vstd::prelude::*;

use crate::space::Direction;

verus! {

/// One decoded instruction.
#[derive(Clone, Copy, Debug, PartialEq, Eq, Structural)]
pub enum Instruction {
    /// Push the carried value onto the stack.
    ReadAndPush(usize),
    /// No operation.
    NoOp,
    /// Stop execution; the machine becomes permanently inert.
    Stop,
    /// Bridge: advance the pointer once more, skipping the next cell.
    Skip,
    /// Toggle string mode.
    StringMode,
    /// Set the pointer's direction.
    Move(Direction),
    /// Pop; go East on 0, West otherwise.
    MoveEastOrWest,
    /// Pop; go North on 0, South otherwise.
    MoveNorthOrSouth,
    /// Go in a uniformly random direction.
    MoveRandom,
    /// Duplicate the top of the stack.
    Duplicate,
    /// Swap the top two values.
    Swap,
    /// Pop and discard.
    Pop,
    /// Pop right then left operand; push their sum.
    Add,
    /// Pop right then left operand; push their difference.
    Sub,
    /// Pop right then left operand; push their product.
    Mul,
    /// Pop right then left operand; push their quotient.
    Div,
    /// Pop right then left operand; push their remainder.
    Mod,
    /// Pop right then left operand; push 1 if left > right, else 0.
    GreaterThan,
    /// Pop; push 1 on 0, else 0.
    Not,
    /// Pop; write the value as decimal text.
    PrintInt,
    /// Pop; write the low 8 bits as one character.
    PrintChr,
    /// Read buffered input; push its last character as a digit in [0, 9].
    ReadInt,
    /// Read a character: left unimplemented in this engine, a no-op.
    ReadChr,
    /// Pop y, x and v; write v at (x, y) directly.
    Put,
    /// Pop y and x; push the cell at normalized (x, y).
    Get,
}

/// The decoding table: what a raw cell value means under the given
/// string-mode flag. Pure: it depends on its two inputs alone.
pub open spec fn decode(raw: usize, string_mode: bool) -> Instruction {
    let b = raw as u8;
    if string_mode {
        if b == ('"' as u8) {
            Instruction::StringMode
        } else {
            Instruction::ReadAndPush(raw)
        }
    } else if b == (' ' as u8) {
        Instruction::NoOp
    } else if b == ('@' as u8) {
        Instruction::Stop
    } else if b == ('#' as u8) {
        Instruction::Skip
    } else if b == ('"' as u8) {
        Instruction::StringMode
    } else if b == ('^' as u8) {
        Instruction::Move(Direction::North)
    } else if b == ('>' as u8) {
        Instruction::Move(Direction::East)
    } else if b == ('v' as u8) {
        Instruction::Move(Direction::South)
    } else if b == ('<' as u8) {
        Instruction::Move(Direction::West)
    } else if b == ('_' as u8) {
        Instruction::MoveEastOrWest
    } else if b == ('|' as u8) {
        Instruction::MoveNorthOrSouth
    } else if b == ('?' as u8) {
        Instruction::MoveRandom
    } else if b == (':' as u8) {
        Instruction::Duplicate
    } else if b == ('\\' as u8) {
        Instruction::Swap
    } else if b == ('$' as u8) {
        Instruction::Pop
    } else if b == ('+' as u8) {
        Instruction::Add
    } else if b == ('-' as u8) {
        Instruction::Sub
    } else if b == ('*' as u8) {
        Instruction::Mul
    } else if b == ('/' as u8) {
        Instruction::Div
    } else if b == ('%' as u8) {
        Instruction::Mod
    } else if b == ('`' as u8) {
        Instruction::GreaterThan
    } else if b == ('!' as u8) {
        Instruction::Not
    } else if b == ('.' as u8) {
        Instruction::PrintInt
    } else if b == (',' as u8) {
        Instruction::PrintChr
    } else if b == ('&' as u8) {
        Instruction::ReadInt
    } else if b == ('~' as u8) {
        Instruction::ReadChr
    } else if b == ('p' as u8) {
        Instruction::Put
    } else if b == ('g' as u8) {
        Instruction::Get
    } else if ('0' as u8) <= b && b <= ('9' as u8) {
        Instruction::ReadAndPush((b - ('0' as u8)) as usize)
    } else {
        Instruction::ReadAndPush(raw)
    }
}

impl Instruction {
    /// Decode a raw cell value under the given string-mode flag. Pure and
    /// deterministic: equal inputs always decode to the equal instruction,
    /// and nothing is mutated.
    pub fn from_raw(raw: usize, string_mode: &bool) -> (r: Self)
        ensures
            r == decode(raw, *string_mode),
    {
        let b = #[verifier::truncate] (raw as u8);
        if *string_mode {
            return if b == ('"' as u8) {
                Self::StringMode
            } else {
                Self::ReadAndPush(raw)
            };
        }
        if b == (' ' as u8) {
            Self::NoOp
        } else if b == ('@' as u8) {
            Self::Stop
        } else if b == ('#' as u8) {
            Self::Skip
        } else if b == ('"' as u8) {
            Self::StringMode
        } else if b == ('^' as u8) {
            Self::Move(Direction::North)
        } else if b == ('>' as u8) {
            Self::Move(Direction::East)
        } else if b == ('v' as u8) {
            Self::Move(Direction::South)
        } else if b == ('<' as u8) {
            Self::Move(Direction::West)
        } else if b == ('_' as u8) {
            Self::MoveEastOrWest
        } else if b == ('|' as u8) {
            Self::MoveNorthOrSouth
        } else if b == ('?' as u8) {
            Self::MoveRandom
        } else if b == (':' as u8) {
            Self::Duplicate
        } else if b == ('\\' as u8) {
            Self::Swap
        } else if b == ('$' as u8) {
            Self::Pop
        } else if b == ('+' as u8) {
            Self::Add
        } else if b == ('-' as u8) {
            Self::Sub
        } else if b == ('*' as u8) {
            Self::Mul
        } else if b == ('/' as u8) {
            Self::Div
        } else if b == ('%' as u8) {
            Self::Mod
        } else if b == ('`' as u8) {
            Self::GreaterThan
        } else if b == ('!' as u8) {
            Self::Not
        } else if b == ('.' as u8) {
            Self::PrintInt
        } else if b == (',' as u8) {
            Self::PrintChr
        } else if b == ('&' as u8) {
            Self::ReadInt
        } else if b == ('~' as u8) {
            Self::ReadChr
        } else if b == ('p' as u8) {
            Self::Put
        } else if b == ('g' as u8) {
            Self::Get
        } else if ('0' as u8) <= b && b <= ('9' as u8) {
            Self::ReadAndPush((b - ('0' as u8)) as usize)
        } else {
            Self::ReadAndPush(raw)
        }
    }
}

} // verus!
