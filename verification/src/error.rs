//! The ways in which assembling a program fails.

use vstd::prelude::*;

verus! {

/// A line has more than one `:`, an instruction has no mnemonic, or a number
/// has a prefix that names no base. `line` counts from 1; a malformed number
/// is reported with line 0.
#[derive(Debug, PartialEq, Eq)]
pub struct SyntaxError {
    pub line: usize,
}

/// An operand is no literal, no register and no label of the program.
#[derive(Debug, PartialEq, Eq)]
pub struct UndefinedLabel(pub String);

/// A mnemonic that the instruction set does not have, and its line.
#[derive(Debug, PartialEq, Eq)]
pub struct InvalidInstruction(pub String, pub usize);

/// The instruction on this line has the wrong number of operands.
#[derive(Debug, PartialEq, Eq)]
pub struct BadOpArgs(pub usize);

/// The instruction on this line does not fit in the current memory bank.
#[derive(Debug, PartialEq, Eq)]
pub struct DoesnotFit(pub usize);

/// A numeric literal holds a character that is no digit of its base, or its
/// value does not fit in a machine word.
#[derive(Debug, PartialEq, Eq)]
pub struct InvalidNumber(pub String);

/// Any failure of the assembler.
#[derive(Debug, PartialEq, Eq)]
pub enum AsmError {
    Syntax(SyntaxError),
    UndefinedLabel(UndefinedLabel),
    InvalidInstruction(InvalidInstruction),
    BadOpArgs(BadOpArgs),
    DoesnotFit(DoesnotFit),
    InvalidNumber(InvalidNumber),
}

/// What an `AsmError` stands for.
pub enum Failure {
    Syntax { line: nat },
    UndefinedLabel { name: Seq<char> },
    InvalidInstruction { mnemonic: Seq<char>, line: nat },
    BadOpArgs { line: nat },
    DoesnotFit { line: nat },
    InvalidNumber { text: Seq<char> },
}

impl View for AsmError {
    type V = Failure;

    open spec fn view(&self) -> Failure {
        match *self {
            AsmError::Syntax(e) => Failure::Syntax { line: e.line as nat },
            AsmError::UndefinedLabel(e) => Failure::UndefinedLabel { name: e.0@ },
            AsmError::InvalidInstruction(e) => Failure::InvalidInstruction {
                mnemonic: e.0@,
                line: e.1 as nat,
            },
            AsmError::BadOpArgs(e) => Failure::BadOpArgs { line: e.0 as nat },
            AsmError::DoesnotFit(e) => Failure::DoesnotFit { line: e.0 as nat },
            AsmError::InvalidNumber(e) => Failure::InvalidNumber { text: e.0@ },
        }
    }
}

/// What a fallible operation yields, with the error taken by what it stands
/// for.
pub open spec fn outcome<T>(r: Result<T, AsmError>) -> Result<T, Failure> {
    match r {
        Ok(v) => Ok(v),
        Err(e) => Err(e@),
    }
}

} // verus!
