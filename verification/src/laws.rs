use vstd::prelude::*;
use crate::error::Chip8Error;
use crate::machine::Machine;

verus! {

/// The instruction word with the hexadecimal digits `a`, `x`, `y` and `n`.
pub open spec fn opcode_of(a: int, x: int, y: int, n: int) -> u16 {
    (0x1000 * a + 0x100 * x + 0x10 * y + n) as u16
}

/// The digits of an instruction word made of four digits are those digits.
pub proof fn lemma_opcode_digits(a: int, x: int, y: int, n: int)
    requires
        0 <= a < 16,
        0 <= x < 16,
        0 <= y < 16,
        0 <= n < 16,
    ensures
        opcode_of(a, x, y, n) / 0x1000 == a,
        (opcode_of(a, x, y, n) / 0x100) % 0x10 == x,
        (opcode_of(a, x, y, n) / 0x10) % 0x10 == y,
        opcode_of(a, x, y, n) % 0x10 == n,
        opcode_of(a, x, y, n) % 0x100 == 0x10 * y + n,
        opcode_of(a, x, y, n) % 0x1000 == 0x100 * x + 0x10 * y + n,
{
    let v = 0x1000 * a + 0x100 * x + 0x10 * y + n;
    assert(opcode_of(a, x, y, n) == v);
    let v1 = 0x100 * a + 0x10 * x + y;
    let v2 = 0x10 * a + x;
    assert(v == 0x10 * v1 + n);
    assert(v / 0x10 == v1 && v % 0x10 == n);
    assert(v1 == 0x10 * v2 + y);
    assert(v1 / 0x10 == v2 && v1 % 0x10 == y);
    assert(v / 0x100 == v2);
    assert(v2 / 0x10 == a && v2 % 0x10 == x);
    assert(v / 0x1000 == a);
    assert(v == 0x100 * v2 + (0x10 * y + n));
    assert(v % 0x100 == 0x10 * y + n);
    assert(v == 0x1000 * a + (0x100 * x + 0x10 * y + n));
    assert(v % 0x1000 == 0x100 * x + 0x10 * y + n);
}

/// The instruction that adds register `y` to register `x` leaves the flag
/// register at 1 if the sum of the two is above 255 and at 0 if not, and
/// register `x`, unless it is the flag register, at the sum modulo 256.
pub proof fn law_add_reg(s: Machine, x: int, y: int, random: u8, t: Machine)
    requires
        s.wf(),
        0 <= x < 16,
        0 <= y < 16,
        s.execute(opcode_of(8, x, y, 4), random) == Ok::<Machine, Chip8Error>(t),
    ensures
        t.reg[0xF] == 1 <==> s.reg[x] + s.reg[y] > 255,
        t.reg[0xF] == 0 <==> s.reg[x] + s.reg[y] <= 255,
        x != 0xF ==> t.reg[x] == (s.reg[x] + s.reg[y]) % 256,
{
    lemma_opcode_digits(8, x, y, 4);
}

/// The instruction that subtracts register `y` from register `x` leaves the
/// flag register at 1 if register `x` was at least register `y` and at 0 if
/// not, and register `x`, unless it is the flag register, at the difference
/// modulo 256.
pub proof fn law_sub(s: Machine, x: int, y: int, random: u8, t: Machine)
    requires
        s.wf(),
        0 <= x < 16,
        0 <= y < 16,
        s.execute(opcode_of(8, x, y, 5), random) == Ok::<Machine, Chip8Error>(t),
    ensures
        t.reg[0xF] == 1 <==> s.reg[x] >= s.reg[y],
        t.reg[0xF] == 0 <==> s.reg[x] < s.reg[y],
        x != 0xF ==> t.reg[x] == (s.reg[x] - s.reg[y]) % 256,
{
    lemma_opcode_digits(8, x, y, 5);
}

/// The instruction that subtracts register `x` from register `y` leaves the
/// flag register at 1 if register `y` was at least register `x` and at 0 if
/// not, and register `x`, unless it is the flag register, at the difference
/// modulo 256.
pub proof fn law_subn(s: Machine, x: int, y: int, random: u8, t: Machine)
    requires
        s.wf(),
        0 <= x < 16,
        0 <= y < 16,
        s.execute(opcode_of(8, x, y, 7), random) == Ok::<Machine, Chip8Error>(t),
    ensures
        t.reg[0xF] == 1 <==> s.reg[y] >= s.reg[x],
        t.reg[0xF] == 0 <==> s.reg[y] < s.reg[x],
        x != 0xF ==> t.reg[x] == (s.reg[y] - s.reg[x]) % 256,
{
    lemma_opcode_digits(8, x, y, 7);
}

/// The instruction that shifts register `x` right leaves the flag register at
/// the bit that left the register, whatever the flag register held before;
/// register `x`, unless it is the flag register, holds the other seven bits.
pub proof fn law_shift_right(s: Machine, x: int, y: int, random: u8, t: Machine)
    requires
        s.wf(),
        0 <= x < 16,
        0 <= y < 16,
        s.execute(opcode_of(8, x, y, 6), random) == Ok::<Machine, Chip8Error>(t),
    ensures
        t.reg[0xF] == s.reg[x] % 2,
        x != 0xF ==> 2 * t.reg[x] + t.reg[0xF] == s.reg[x],
{
    lemma_opcode_digits(8, x, y, 6);
}

/// The instruction that shifts register `x` left leaves the flag register at
/// the bit that left the register, whatever the flag register held before;
/// register `x`, unless it is the flag register, holds the other seven bits
/// above a zero.
pub proof fn law_shift_left(s: Machine, x: int, y: int, random: u8, t: Machine)
    requires
        s.wf(),
        0 <= x < 16,
        0 <= y < 16,
        s.execute(opcode_of(8, x, y, 0xE), random) == Ok::<Machine, Chip8Error>(t),
    ensures
        t.reg[0xF] == s.reg[x] / 128,
        x != 0xF ==> t.reg[x] + 256 * t.reg[0xF] == 2 * s.reg[x],
{
    lemma_opcode_digits(8, x, y, 0xE);
}

/// A return undoes a call: it gives back the machine in which the call was
/// made, but for the slot of the stack in which the call left its return
/// address.
pub proof fn law_ret_undoes_call(s: Machine, opcode: u16, t: Machine)
    requires
        s.wf(),
        s.call(opcode) == Ok::<Machine, Chip8Error>(t),
    ensures
        t.stack == s.stack.update(s.stack_pointer as int, s.program_counter),
        t.ret() == Ok::<Machine, Chip8Error>((Machine { stack: t.stack, ..s })),
{
}

/// After a call instruction, a return instruction that finds the stack
/// pointer and the slot below it as the call left them goes to the
/// instruction after the call, and leaves the stack pointer where it was
/// before the call.
pub proof fn law_call_then_return(
    s: Machine,
    nnn: int,
    r1: u8,
    t: Machine,
    u: Machine,
    r2: u8,
    v: Machine,
)
    requires
        s.wf(),
        0 <= nnn < 0x1000,
        s.execute((0x2000 + nnn) as u16, r1) == Ok::<Machine, Chip8Error>(t),
        u.stack_pointer == t.stack_pointer,
        u.stack[s.stack_pointer as int] == t.stack[s.stack_pointer as int],
        u.execute(0x00EE, r2) == Ok::<Machine, Chip8Error>(v),
    ensures
        t.program_counter == nnn,
        t.stack_pointer == s.stack_pointer + 1,
        t.stack == s.stack.update(s.stack_pointer as int, (s.program_counter + 2) as u16),
        v.program_counter == s.program_counter + 2,
        v.stack_pointer == s.stack_pointer,
        v.stack == u.stack,
{
}

/// The stack never holds more than sixteen return addresses: an instruction
/// that succeeds on a machine within its bounds leaves a machine within its
/// bounds, and a call that finds sixteen addresses on the stack fails and
/// pushes nothing.
pub proof fn law_stack_within_capacity(s: Machine, opcode: u16, random: u8)
    requires
        s.wf(),
    ensures
        s.execute(opcode, random) matches Ok(t) ==> t.wf(),
        s.step(random) matches Ok(t) ==> t.wf(),
        s.stack_pointer == 16 && opcode / 0x1000 == 2 ==> s.execute(opcode, random) is Err,
        s.stack_pointer == 16 && opcode / 0x1000 == 2 && s.program_counter <= 0xFFFD
            ==> s.execute(opcode, random) == Err::<Machine, Chip8Error>(
            Chip8Error::StackOverflow { pc: (s.program_counter + 2) as u16 },
        ),
{
}

} // verus!
