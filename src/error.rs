use vstd::prelude::*;

verus! {

/// Everything that can stop the machine: a word that is no instruction, or an
/// instruction that cannot run on the current state.
#[derive(Debug, Clone, Copy, PartialEq, Eq, Structural)]
pub enum Chip8Error {
    /// The word is not in the opcode table.
    InvalidInstruction(u16),
    /// `RTS` with nothing on the call stack.
    EmptyStack,
    /// `LDSPR` on a register value above 15: only sixteen glyphs exist.
    SpriteOutOfRange(u8),
    /// `SYS` with an operand other than 0.
    UnimplementedSys(u16),
    /// An access to the given address would fall outside memory.
    MemoryOutOfRange(u16),
}

} // verus!
