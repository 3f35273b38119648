use vstd::prelude::*;

verus! {

/// Why a byte buffer is not the encoding of a program.
#[derive(Debug, Clone, Copy, PartialEq, Eq, Structural)]
pub enum Error {
    /// The buffer is shorter than the eight bytes of the text length.
    TruncatedHeader,
    /// The buffer ends before the text that its header announces.
    TruncatedText,
    /// What follows the text is not a whole number of nine-byte records.
    MisalignedInstructionStream,
    /// A record's type tag names no instruction.
    UnknownOpcode(u8),
    /// The argument of a push or pop record names no style variable.
    InvalidStyleVarEncoding(u64),
}

} // verus!
