use vstd::prelude::*;

verus! {

/// Why the machine refused to load a program or to execute an instruction.
#[derive(Debug, Clone, Copy, PartialEq, Eq, Structural)]
pub enum Chip8Error {
    /// A program image of `size` bytes does not fit between the load address
    /// and the end of memory.
    RomTooLarge { size: usize },
    /// No instruction has the bit pattern `opcode`, found at address `pc`.
    UnknownOpcode { opcode: u16, pc: u16 },
    /// A call found the stack full; `pc` is the return address that could not
    /// be pushed.
    StackOverflow { pc: u16 },
    /// A return found the stack empty; `pc` is the program counter at that
    /// moment.
    StackUnderflow { pc: u16 },
    /// An access to `len` bytes of memory from address `addr` on reaches past
    /// the end of memory.
    MemoryOutOfBounds { addr: u16, len: u16 },
    /// A register named a key that the keypad does not have.
    KeyOutOfRange { key: u8 },
    /// Moving the program counter on from `pc` would leave its sixteen bits.
    ProgramCounterOverflow { pc: u16 },
}

} // verus!
