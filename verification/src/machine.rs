use vstd::prelude::*;
use crate::consts::FONT_SET;
use crate::display::{blank, collision_spec, draw_spec};
use crate::error::Chip8Error;

verus! {

/// The state of the machine as a mathematical value. The stack holds all
/// sixteen slots; those below the stack pointer are the live return addresses,
/// the oldest first.
#[verifier::ext_equal]
pub struct Machine {
    pub index_reg: u16,
    pub program_counter: u16,
    pub memory: Seq<u8>,
    pub reg: Seq<u8>,
    pub keys: Seq<bool>,
    pub pixels: Seq<bool>,
    pub stack: Seq<u16>,
    pub stack_pointer: u8,
    pub sound: u8,
    pub delay: u8,
}

/// Memory that holds the built-in font at its start and zero elsewhere.
pub open spec fn font_memory() -> Seq<u8> {
    Seq::new(4096, |a: int| if 0 <= a < 80 { FONT_SET[a] } else { 0u8 })
}

/// Memory that holds the built-in font at its start, `program` from address
/// 0x200 on, and zero elsewhere.
pub open spec fn loaded_memory(program: Seq<u8>) -> Seq<u8> {
    Seq::new(
        4096,
        |a: int|
            if 0 <= a < 80 {
                FONT_SET[a]
            } else if 0x200 <= a < 0x200 + program.len() {
                program[a - 0x200]
            } else {
                0u8
            },
    )
}

/// The highest key below `n` that is down, or -1 if none is.
pub open spec fn highest_pressed(keys: Seq<bool>, n: int) -> int
    decreases n,
{
    if n <= 0 {
        -1
    } else if keys[n - 1] {
        n - 1
    } else {
        highest_pressed(keys, n - 1)
    }
}

/// The highest key below `n` that is down is down, and no key between it and
/// `n` is; it is -1 if and only if no key below `n` is down.
pub proof fn lemma_highest_pressed(keys: Seq<bool>, n: int)
    ensures
        -1 <= highest_pressed(keys, n),
        highest_pressed(keys, n) >= 0 ==> highest_pressed(keys, n) < n && keys[highest_pressed(
            keys,
            n,
        )],
        forall|j: int| highest_pressed(keys, n) < j < n && 0 <= j ==> !keys[j],
    decreases n,
{
    if n > 0 && !keys[n - 1] {
        lemma_highest_pressed(keys, n - 1);
    }
}

/// The two bytes at `index` and `index + 1`, the first one the high byte.
pub open spec fn read_word_spec(memory: Seq<u8>, index: u16) -> Result<u16, Chip8Error> {
    if index + 1 >= 4096 {
        Err(Chip8Error::MemoryOutOfBounds { addr: index, len: 2 })
    } else {
        Ok((memory[index as int] * 256 + memory[index + 1]) as u16)
    }
}

/// Whether a fallible operation ended as `expected` says: with success and the
/// state that `expected` holds, or with its error and the state unchanged.
pub open spec fn outcome(
    expected: Result<Machine, Chip8Error>,
    before: Machine,
    result: Result<(), Chip8Error>,
    after: Machine,
) -> bool {
    match expected {
        Ok(m) => result is Ok && after =~= m,
        Err(e) => result == Err::<(), Chip8Error>(e) && after =~= before,
    }
}

impl Machine {
    /// The lengths that every machine has, and a stack pointer within the
    /// stack.
    pub open spec fn wf(self) -> bool {
        &&& self.memory.len() == 4096
        &&& self.reg.len() == 16
        &&& self.keys.len() == 16
        &&& self.pixels.len() == 2048
        &&& self.stack.len() == 16
        &&& self.stack_pointer <= 16
    }

    /// The machine at power-on or after a reset, with the keys as given: the
    /// font in memory, the program counter at the load address, everything
    /// else zero.
    pub open spec fn power_on(keys: Seq<bool>) -> Machine {
        Machine {
            index_reg: 0,
            program_counter: 0x200,
            memory: font_memory(),
            reg: Seq::new(16, |i: int| 0u8),
            keys: keys,
            pixels: blank(),
            stack: Seq::new(16, |i: int| 0u16),
            stack_pointer: 0,
            sound: 0,
            delay: 0,
        }
    }

    /// The machine after a reset with `program` loaded.
    pub open spec fn load(self, program: Seq<u8>) -> Result<Machine, Chip8Error> {
        if program.len() > 4096 - 0x200 {
            Err(Chip8Error::RomTooLarge { size: program.len() as usize })
        } else {
            Ok(Machine { memory: loaded_memory(program), ..Machine::power_on(self.keys) })
        }
    }

    /// The machine with its program counter at `pc`.
    pub open spec fn with_pc(self, pc: u16) -> Machine {
        Machine { program_counter: pc, ..self }
    }

    /// The machine with its index register at `index`.
    pub open spec fn with_index(self, index: u16) -> Machine {
        Machine { index_reg: index, ..self }
    }

    /// The machine with `value` in register `x`.
    pub open spec fn with_reg(self, x: int, value: u8) -> Machine {
        Machine { reg: self.reg.update(x, value), ..self }
    }

    /// The flag register set to 1 if `set` holds, to 0 if not.
    pub open spec fn with_flag(self, set: bool) -> Machine {
        self.with_reg(0xF, if set { 1u8 } else { 0u8 })
    }

    /// Both timers one step nearer to zero.
    pub open spec fn tick(self) -> Machine {
        Machine {
            delay: if self.delay > 0 { (self.delay - 1) as u8 } else { 0 },
            sound: if self.sound > 0 { (self.sound - 1) as u8 } else { 0 },
            ..self
        }
    }

    /// The machine with every pixel off.
    pub open spec fn clear(self) -> Machine {
        Machine { pixels: blank(), ..self }
    }

    /// Return: the stack pointer goes down by one and the program counter is
    /// the return address in the slot that it then names. The slots stay as
    /// they are.
    pub open spec fn ret(self) -> Result<Machine, Chip8Error> {
        if self.stack_pointer == 0 {
            Err(Chip8Error::StackUnderflow { pc: self.program_counter })
        } else {
            Ok(
                Machine {
                    program_counter: self.stack[self.stack_pointer - 1],
                    stack_pointer: (self.stack_pointer - 1) as u8,
                    ..self
                },
            )
        }
    }

    /// Call: the program counter goes into the slot that the stack pointer
    /// names, the stack pointer goes up by one, and the low twelve bits
    /// of `opcode` become the program counter.
    pub open spec fn call(self, opcode: u16) -> Result<Machine, Chip8Error> {
        if self.stack_pointer >= 16 {
            Err(Chip8Error::StackOverflow { pc: self.program_counter })
        } else {
            Ok(
                Machine {
                    program_counter: opcode % 0x1000,
                    stack: self.stack.update(self.stack_pointer as int, self.program_counter),
                    stack_pointer: (self.stack_pointer + 1) as u8,
                    ..self
                },
            )
        }
    }

    /// The program counter moved past one instruction if `cond` holds.
    pub open spec fn skip_if(self, cond: bool) -> Result<Machine, Chip8Error> {
        if !cond {
            Ok(self)
        } else if self.program_counter > 0xFFFD {
            Err(Chip8Error::ProgramCounterOverflow { pc: self.program_counter })
        } else {
            Ok(self.with_pc((self.program_counter + 2) as u16))
        }
    }

    /// A skip if key `key` is down (`down` holds) or up (`down` does not).
    pub open spec fn skip_key(self, key: u8, down: bool) -> Result<Machine, Chip8Error> {
        if key >= 16 {
            Err(Chip8Error::KeyOutOfRange { key })
        } else {
            self.skip_if(self.keys[key as int] == down)
        }
    }

    /// Register `x` plus register `y` with eight bits kept, the flag set if a
    /// ninth was lost. The flag is written last.
    pub open spec fn add_reg(self, x: int, y: int) -> Machine {
        let sum = self.reg[x] + self.reg[y];
        self.with_reg(x, (sum % 256) as u8).with_flag(sum > 255)
    }

    /// Register `x` minus register `y` modulo 256, the flag set if nothing
    /// was borrowed. The flag is written last.
    pub open spec fn sub_reg(self, x: int, y: int) -> Machine {
        let diff = self.reg[x] - self.reg[y];
        self.with_reg(x, (diff % 256) as u8).with_flag(diff >= 0)
    }

    /// Register `y` minus register `x` modulo 256, stored in `x`, the flag set
    /// if nothing was borrowed. The flag is written last.
    pub open spec fn subn_reg(self, x: int, y: int) -> Machine {
        let diff = self.reg[y] - self.reg[x];
        self.with_reg(x, (diff % 256) as u8).with_flag(diff >= 0)
    }

    /// Register `x` halved, the flag set to the lowest bit of `value`. The
    /// flag is written last.
    pub open spec fn shift_right(self, x: int, value: u8) -> Machine {
        self.with_reg(x, self.reg[x] / 2).with_flag(value % 2 == 1)
    }

    /// Register `x` doubled with eight bits kept, the flag set to the highest
    /// bit of `value`. The flag is written last.
    pub open spec fn shift_left(self, x: int, value: u8) -> Machine {
        self.with_reg(x, ((self.reg[x] * 2) % 256) as u8).with_flag(value >= 128)
    }

    /// The sprite of `n` rows at the index register drawn at (`vx`, `vy`), the
    /// flag set if a lit pixel went off.
    pub open spec fn draw(self, n: u8, vx: u8, vy: u8) -> Result<Machine, Chip8Error> {
        if self.index_reg + n > 4096 {
            Err(Chip8Error::MemoryOutOfBounds { addr: self.index_reg, len: n as u16 })
        } else {
            let sprite = self.memory.subrange(self.index_reg as int, self.index_reg + n);
            Ok(
                Machine {
                    pixels: draw_spec(self.pixels, vx as int, vy as int, sprite),
                    ..self
                }.with_flag(collision_spec(self.pixels, vx as int, vy as int, sprite)),
            )
        }
    }

    /// Waiting for a key: with a key down, register `x` takes the highest such
    /// key; with none, the program counter goes back one instruction.
    pub open spec fn wait_key(self, x: int) -> Result<Machine, Chip8Error> {
        let key = highest_pressed(self.keys, 16);
        if key >= 0 {
            Ok(self.with_reg(x, key as u8))
        } else if self.program_counter < 2 {
            Err(Chip8Error::ProgramCounterOverflow { pc: self.program_counter })
        } else {
            Ok(self.with_pc((self.program_counter - 2) as u16))
        }
    }

    /// The three decimal digits of `value` stored at the index register,
    /// hundreds first.
    pub open spec fn store_bcd(self, value: u8) -> Result<Machine, Chip8Error> {
        let i = self.index_reg as int;
        if i + 3 > 4096 {
            Err(Chip8Error::MemoryOutOfBounds { addr: self.index_reg, len: 3 })
        } else {
            Ok(
                Machine {
                    memory: self.memory.update(i, value / 100).update(
                        i + 1,
                        (value / 10) % 10,
                    ).update(i + 2, value % 10),
                    ..self
                },
            )
        }
    }

    /// Registers 0 to `x` stored in memory from the index register on.
    pub open spec fn dump_regs(self, x: int) -> Result<Machine, Chip8Error> {
        let i = self.index_reg as int;
        if i + x + 1 > 4096 {
            Err(Chip8Error::MemoryOutOfBounds { addr: self.index_reg, len: (x + 1) as u16 })
        } else {
            Ok(
                Machine {
                    memory: Seq::new(
                        4096,
                        |a: int| if i <= a <= i + x { self.reg[a - i] } else { self.memory[a] },
                    ),
                    ..self
                },
            )
        }
    }

    /// Registers 0 to `x` read from memory from the index register on.
    pub open spec fn load_regs(self, x: int) -> Result<Machine, Chip8Error> {
        let i = self.index_reg as int;
        if i + x + 1 > 4096 {
            Err(Chip8Error::MemoryOutOfBounds { addr: self.index_reg, len: (x + 1) as u16 })
        } else {
            Ok(
                Machine {
                    reg: Seq::new(
                        16,
                        |r: int| if 0 <= r <= x { self.memory[i + r] } else { self.reg[r] },
                    ),
                    ..self
                },
            )
        }
    }

    /// What the instruction `opcode` does to a machine whose program counter
    /// has already moved past it; `None` if there is no such instruction.
    /// The instruction is told by its four hexadecimal digits. `random` is
    /// the byte that the random instruction draws.
    pub open spec fn dispatch(self, opcode: u16, random: u8) -> Option<
        Result<Machine, Chip8Error>,
    > {
        let a = opcode / 0x1000;
        let x = (opcode / 0x100) % 0x10;
        let y = (opcode / 0x10) % 0x10;
        let n = opcode % 0x10;
        let kk = (opcode % 0x100) as u8;
        let nnn = opcode % 0x1000;
        let vx = self.reg[x as int];
        let vy = self.reg[y as int];
        if a == 0x0 && x == 0x0 && y == 0xE && n == 0x0 {
            Some(Ok(self.clear()))
        } else if a == 0x0 && x == 0x0 && y == 0xE && n == 0xE {
            Some(self.ret())
        } else if a == 0x1 {
            Some(Ok(self.with_pc(nnn)))
        } else if a == 0x2 {
            Some(self.call(opcode))
        } else if a == 0x3 {
            Some(self.skip_if(vx == kk))
        } else if a == 0x4 {
            Some(self.skip_if(vx != kk))
        } else if a == 0x5 && n == 0x0 {
            Some(self.skip_if(vx == vy))
        } else if a == 0x6 {
            Some(Ok(self.with_reg(x as int, kk)))
        } else if a == 0x7 {
            Some(Ok(self.with_reg(x as int, ((vx + kk) % 256) as u8)))
        } else if a == 0x8 && n == 0x0 {
            Some(Ok(self.with_reg(x as int, vy)))
        } else if a == 0x8 && n == 0x1 {
            Some(Ok(self.with_reg(x as int, vx | vy)))
        } else if a == 0x8 && n == 0x2 {
            Some(Ok(self.with_reg(x as int, vx & vy)))
        } else if a == 0x8 && n == 0x3 {
            Some(Ok(self.with_reg(x as int, vx ^ vy)))
        } else if a == 0x8 && n == 0x4 {
            Some(Ok(self.add_reg(x as int, y as int)))
        } else if a == 0x8 && n == 0x5 {
            Some(Ok(self.sub_reg(x as int, y as int)))
        } else if a == 0x8 && n == 0x6 {
            Some(Ok(self.shift_right(x as int, vx)))
        } else if a == 0x8 && n == 0x7 {
            Some(Ok(self.subn_reg(x as int, y as int)))
        } else if a == 0x8 && n == 0xE {
            Some(Ok(self.shift_left(x as int, vx)))
        } else if a == 0x9 && n == 0x0 {
            Some(self.skip_if(vx != vy))
        } else if a == 0xA {
            Some(Ok(self.with_index(nnn)))
        } else if a == 0xB {
            Some(Ok(self.with_pc((nnn + self.reg[0]) as u16)))
        } else if a == 0xC {
            Some(Ok(self.with_reg(x as int, kk & random)))
        } else if a == 0xD {
            Some(self.draw(n as u8, vx, vy))
        } else if a == 0xE && y == 0x9 && n == 0xE {
            Some(self.skip_key(vx, true))
        } else if a == 0xE && y == 0xA && n == 0x1 {
            Some(self.skip_key(vx, false))
        } else if a == 0xF && y == 0x0 && n == 0x7 {
            Some(Ok(self.with_reg(x as int, self.delay)))
        } else if a == 0xF && y == 0x0 && n == 0xA {
            Some(self.wait_key(x as int))
        } else if a == 0xF && y == 0x1 && n == 0x5 {
            Some(Ok(Machine { delay: vx, ..self }))
        } else if a == 0xF && y == 0x1 && n == 0x8 {
            Some(Ok(Machine { sound: vx, ..self }))
        } else if a == 0xF && y == 0x1 && n == 0xE {
            Some(Ok(self.with_index(((self.index_reg + vx) % 0x10000) as u16)))
        } else if a == 0xF && y == 0x2 && n == 0x9 {
            Some(Ok(self.with_index((vx * 5) as u16)))
        } else if a == 0xF && y == 0x3 && n == 0x3 {
            Some(self.store_bcd(vx))
        } else if a == 0xF && y == 0x5 && n == 0x5 {
            Some(self.dump_regs(x as int))
        } else if a == 0xF && y == 0x6 && n == 0x5 {
            Some(self.load_regs(x as int))
        } else {
            None
        }
    }

    /// What the word `opcode`, found at address `pc`, does to a machine whose
    /// program counter has already moved past it: the effect of the
    /// instruction, or the refusal of a word that is no instruction.
    pub open spec fn perform(self, opcode: u16, random: u8, pc: u16) -> Result<
        Machine,
        Chip8Error,
    > {
        match self.dispatch(opcode, random) {
            Some(result) => result,
            None => Err(Chip8Error::UnknownOpcode { opcode, pc }),
        }
    }

    /// The machine after the instruction `opcode`, found at the program
    /// counter: the program counter moves past the instruction, then the
    /// instruction takes effect.
    pub open spec fn execute(self, opcode: u16, random: u8) -> Result<Machine, Chip8Error> {
        let pc = self.program_counter;
        if pc > 0xFFFD {
            Err(Chip8Error::ProgramCounterOverflow { pc })
        } else {
            self.with_pc((pc + 2) as u16).perform(opcode, random, pc)
        }
    }

    /// Whether the instruction at the program counter can be fetched and is
    /// the random instruction.
    pub open spec fn draws_random(self) -> bool {
        read_word_spec(self.memory, self.program_counter) matches Ok(opcode) && opcode / 0x1000
            == 0xC
    }

    /// The machine after one cycle: the instruction at the program counter is
    /// fetched and executed.
    pub open spec fn step(self, random: u8) -> Result<Machine, Chip8Error> {
        match read_word_spec(self.memory, self.program_counter) {
            Ok(opcode) => self.execute(opcode, random),
            Err(e) => Err(e),
        }
    }
}

} // verus!
