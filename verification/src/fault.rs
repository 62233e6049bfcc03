//! The ways in which decoding or executing an instruction can fail.
use vstd::prelude::*;

verus! {

/// A fatal condition met while decoding or executing an instruction. The
/// machine that reports one is left exactly as it was before the attempt.
#[derive(Debug, Clone, Copy, PartialEq, Eq, Structural)]
pub enum Fault {
    /// The two low digits of the opcode word name no operation.
    InvalidOpcode,
    /// A mode digit of the opcode word is not 0, 1 or 2.
    InvalidMode,
    /// A write destination was given in immediate mode.
    InvalidWrite,
    /// A memory index or jump target is negative or beyond the index range,
    /// or the instruction reaches the end of the index range.
    InvalidAddress,
    /// The result of an addition or multiplication does not fit a memory cell.
    Overflow,
}

} // verus!
