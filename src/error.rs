use vstd::prelude::*;

verus! {

/// Errors found while decoding program text.
#[derive(Debug, Clone, PartialEq, Eq)]
pub enum DogCompileError {
    /// The operand field holds a character other than the operand symbol.
    InvalidImm(String),
    /// An opcode that cannot be decoded (unknown opcodes are decoded as
    /// `DogInst::Invalid` instead, so this is not produced at present).
    InvalidOpc(String),
    /// The line does not split into exactly two fields.
    InvalidLine(String),
}

/// Faults raised while running a program.
#[derive(Debug, Clone, Copy, PartialEq, Eq)]
pub enum DogRuntimeError {
    /// An `Invalid` instruction was fetched at this program counter.
    InvalidInstruction(u64),
    /// A pop was requested while the stack was empty.
    EmptyStackError(),
    /// A register id outside `0..=5`.
    InvalidRegisterError(u64),
    /// The program counter fell outside the program when fetching.
    InvalidPcError(u64),
    /// The input instruction at this program counter is not supported.
    UnsupportedInstruction(u64),
    /// The bytes a print instruction popped are not valid UTF-8.
    InvalidTextError(),
}

} // verus!
