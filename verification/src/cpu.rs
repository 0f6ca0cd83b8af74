use vstd::prelude::*;
use crate::consts::{FONT_SET, ROM_LOCATION};
use crate::display::Display;
use crate::error::Chip8Error;
use crate::keypad::Keypad;
use crate::machine::{font_memory, highest_pressed, outcome, read_word_spec, Machine};
use crate::rng::random_byte;

verus! {

/// The machine: registers, memory, call stack, timers, keypad and
/// framebuffer. `stack[0..stack_pointer]` are the live return addresses.
#[verifier::ext_equal]
pub struct Cpu {
    pub index_reg: u16,
    pub program_counter: u16,
    pub memory: [u8; 4096],
    pub reg: [u8; 16],
    pub keypad: Keypad,
    pub display: Display,
    pub stack: [u16; 16],
    pub stack_pointer: u8,
    pub sound: u8,
    pub delay: u8,
}

impl View for Cpu {
    type V = Machine;

    open spec fn view(&self) -> Machine {
        Machine {
            index_reg: self.index_reg,
            program_counter: self.program_counter,
            memory: self.memory@,
            reg: self.reg@,
            keys: self.keypad@,
            pixels: self.display@,
            stack: self.stack@,
            stack_pointer: self.stack_pointer,
            sound: self.sound,
            delay: self.delay,
        }
    }
}

impl Cpu {
    /// The stack pointer is within the stack.
    pub open spec fn wf(&self) -> bool {
        self.stack_pointer <= 16
    }

    /// A machine at power-on, with every key up.
    pub fn new() -> (cpu: Cpu)
        ensures
            cpu.wf(),
            cpu@ == Machine::power_on(Seq::new(16, |k: int| false)),
    {
        let mut cpu = Cpu {
            index_reg: 0,
            program_counter: ROM_LOCATION,
            memory: [0;4096],
            reg: [0;16],
            display: Display::new(),
            keypad: Keypad::new(),
            stack: [0;16],
            stack_pointer: 0,
            sound: 0,
            delay: 0,
        };
        cpu.reset();
        cpu
    }

    /// Brings the machine back to its state at power-on. The keys stay as
    /// they are.
    pub fn reset(&mut self)
        ensures
            final(self).wf(),
            final(self)@ == Machine::power_on(old(self)@.keys),
    {
        self.index_reg = 0;
        self.program_counter = 0x200;
        self.memory = [0;4096];
        self.reg = [0;16];
        self.stack = [0;16];
        self.stack_pointer = 0;
        self.delay = 0;
        self.sound = 0;
        self.display.clear();
        for i in 0..80usize
            invariant
                forall|a: int| 0 <= a < i ==> self.memory@[a] == FONT_SET[a],
                forall|a: int| i <= a < 4096 ==> self.memory@[a] == 0,
                self.index_reg == 0,
                self.program_counter == 0x200,
                self.reg@ == Seq::new(16, |r: int| 0u8),
                self.stack@ == Seq::new(16, |s: int| 0u16),
                self.stack_pointer == 0,
                self.delay == 0,
                self.sound == 0,
                self.display@ == crate::display::blank(),
                self.keypad == old(self).keypad,
        {
            self.memory[i] = FONT_SET[i];
        }
    }

    /// Executes one cycle: fetches the instruction at the program counter and
    /// executes it. A fetch that reaches past the end of memory is refused.
    pub fn execute_cycle(&mut self) -> (result: Result<(), Chip8Error>)
        requires
            old(self).wf(),
        ensures
            final(self).wf(),
            exists|random: u8|
                outcome(#[trigger] old(self)@.step(random), old(self)@, result, final(self)@),
            !old(self)@.draws_random() ==> outcome(
                old(self)@.step(0),
                old(self)@,
                result,
                final(self)@,
            ),
            result is Err ==> *final(self) == *old(self),
    {
        let ghost before = self@;
        let memory = self.memory;
        let pc = self.program_counter;
        match self.read_word(memory, pc) {
            Ok(opcode) => {
                let result = self.process_instruction(opcode);
                proof {
                    let random = choose|random: u8|
                        outcome(#[trigger] before.execute(opcode, random), before, result, self@);
                    assert(before.step(random) == before.execute(opcode, random));
                    assert(before.step(0) == before.execute(opcode, 0));
                }
                result
            },
            Err(e) => {
                assert(before.step(0) == Err::<Machine, Chip8Error>(e));
                Err(e)
            },
        }
    }

    /// Moves both timers one step towards zero.
    pub fn decrement_timers(&mut self)
        ensures
            final(self)@ == old(self)@.tick(),
            final(self).wf() == old(self).wf(),
    {
        if self.delay > 0 {
            self.delay -= 1;
        }
        if self.sound > 0 {
            self.sound -= 1;
        }
    }

    /// Executes the instruction `opcode`, which stands at the program
    /// counter. An instruction that does not exist, or that cannot be carried
    /// out, is refused and leaves the machine as it was. The random
    /// instruction draws its byte from the thread's random number generator;
    /// every other instruction has one outcome.
    pub fn process_instruction(&mut self, opcode: u16) -> (result: Result<(), Chip8Error>)
        requires
            old(self).wf(),
        ensures
            final(self).wf(),
            exists|random: u8|
                outcome(
                    #[trigger] old(self)@.execute(opcode, random),
                    old(self)@,
                    result,
                    final(self)@,
                ),
            opcode / 0x1000 != 0xC ==> outcome(
                old(self)@.execute(opcode, 0),
                old(self)@,
                result,
                final(self)@,
            ),
            result is Err ==> *final(self) == *old(self),
    {
        assert((opcode & 0xF000) >> 12 == opcode / 0x1000) by (bit_vector);
        let random = if (opcode & 0xF000) >> 12 == 0xC {
            random_byte()
        } else {
            0
        };
        self.process_instruction_with(opcode, random)
    }

    /// Executes the instruction `opcode`, which stands at the program
    /// counter, with `random` as the byte that the random instruction draws.
    pub fn process_instruction_with(&mut self, opcode: u16, random: u8) -> (result: Result<
        (),
        Chip8Error,
    >)
        requires
            old(self).wf(),
        ensures
            final(self).wf(),
            outcome(old(self)@.execute(opcode, random), old(self)@, result, final(self)@),
            result is Err ==> *final(self) == *old(self),
    {
        assert((opcode & 0xF000) >> 12 == opcode / 0x1000) by (bit_vector);
        let first = (opcode & 0xF000) >> 12;
        let pc = self.program_counter;
        if pc > 0xFFFD {
            return Err(Chip8Error::ProgramCounterOverflow { pc });
        }
        self.program_counter = pc + 2;
        let result = if first <= 0x7 {
            self.flow_instruction(opcode, random, pc)
        } else if first == 0x8 {
            self.register_instruction(opcode, random, pc)
        } else if first <= 0xE {
            self.device_instruction(opcode, random, pc)
        } else {
            self.timer_and_memory_instruction(opcode, random, pc)
        };
        if result.is_err() {
            self.program_counter = pc;
        }
        result
    }

    /// The instructions whose first digit is 0 to 7: clear, return, jump,
    /// call, the skips on a register and the two loads of an immediate.
    #[verifier::spinoff_prover]
    fn flow_instruction(&mut self, opcode: u16, random: u8, pc: u16) -> (result: Result<
        (),
        Chip8Error,
    >)
        requires
            old(self).wf(),
            opcode / 0x1000 <= 0x7,
        ensures
            final(self).wf(),
            outcome(old(self)@.perform(opcode, random, pc), old(self)@, result, final(self)@),
            result is Err ==> *final(self) == *old(self),
    {
        let nibbles = (
            (opcode & 0xF000) >> 12,
            (opcode & 0x0F00) >> 8,
            (opcode & 0x00F0) >> 4,
            opcode & 0x000F,
        );
        let x = nibbles.1 as usize;
        let y = nibbles.2 as usize;
        let kk = (opcode & 0x00FF) as u8;
        let nnn = opcode & 0x0FFF;
        proof {
            lemma_decode(opcode);
        }
        let vx = self.reg[x];
        let vy = self.reg[y];
        match nibbles {
            // CLS
            (0, 0, 0xE, 0) => {
                self.display.clear();
                Ok(())
            },
            // RET
            (0, 0, 0xE, 0xE) => self.ret(),
            // JP addr
            (0x1, _, _, _) => {
                self.jp(nnn);
                Ok(())
            },
            // CALL addr
            (0x2, _, _, _) => self.call(opcode),
            // SE Vx, byte
            (0x3, _, _, _) => self.se(vx, kk),
            // SNE Vx, byte
            (0x4, _, _, _) => self.sne(vx, kk),
            // SE Vx, Vy
            (0x5, _, _, 0x0) => self.se(vx, vy),
            // LD Vx, byte
            (0x6, _, _, _) => {
                self.ld(x, kk);
                Ok(())
            },
            // ADD Vx, byte
            (0x7, _, _, _) => {
                self.ld(x, vx.wrapping_add(kk));
                Ok(())
            },
            _ => Err(Chip8Error::UnknownOpcode { opcode, pc }),
        }
    }

    /// The instructions whose first digit is 8: from register to register.
    #[verifier::spinoff_prover]
    fn register_instruction(&mut self, opcode: u16, random: u8, pc: u16) -> (result: Result<
        (),
        Chip8Error,
    >)
        requires
            opcode / 0x1000 == 0x8,
        ensures
            final(self).wf() == old(self).wf(),
            outcome(old(self)@.perform(opcode, random, pc), old(self)@, result, final(self)@),
            result is Err ==> *final(self) == *old(self),
    {
        let x = ((opcode & 0x0F00) >> 8) as usize;
        let y = ((opcode & 0x00F0) >> 4) as usize;
        let last = opcode & 0x000F;
        proof {
            lemma_decode(opcode);
        }
        let vx = self.reg[x];
        let vy = self.reg[y];
        match last {
            // LD Vx, Vy
            0x0 => self.ld(x, vy),
            // OR Vx, Vy
            0x1 => self.or(x, vx, vy),
            // AND Vx, Vy
            0x2 => self.and(x, vx, vy),
            // XOR Vx, Vy
            0x3 => self.xor(x, vx, vy),
            // ADD Vx, Vy
            0x4 => self.op8xy4(x, y),
            // SUB Vx, Vy
            0x5 => self.sub(x, y),
            // SHR Vx
            0x6 => self.shr(x, vx),
            // SUBN Vx, Vy
            0x7 => self.subn(x, y),
            // SHL Vx
            0xE => self.shl(x, vx),
            _ => {
                return Err(Chip8Error::UnknownOpcode { opcode, pc });
            },
        }
        Ok(())
    }

    /// The instructions whose first digit is 9 to E: the skip on two
    /// registers that differ, the index register, the jump with an offset,
    /// the random byte, the sprite and the skips on a key.
    #[verifier::spinoff_prover]
    fn device_instruction(&mut self, opcode: u16, random: u8, pc: u16) -> (result: Result<
        (),
        Chip8Error,
    >)
        requires
            0x9 <= opcode / 0x1000 <= 0xE,
        ensures
            final(self).wf() == old(self).wf(),
            outcome(old(self)@.perform(opcode, random, pc), old(self)@, result, final(self)@),
            result is Err ==> *final(self) == *old(self),
    {
        let nibbles = (
            (opcode & 0xF000) >> 12,
            (opcode & 0x0F00) >> 8,
            (opcode & 0x00F0) >> 4,
            opcode & 0x000F,
        );
        let x = nibbles.1 as usize;
        let y = nibbles.2 as usize;
        let kk = (opcode & 0x00FF) as u8;
        let nnn = opcode & 0x0FFF;
        let n = (opcode & 0x000F) as u8;
        proof {
            lemma_decode(opcode);
        }
        let vx = self.reg[x];
        let vy = self.reg[y];
        match nibbles {
            // SNE Vx, Vy
            (0x9, _, _, 0x0) => self.sne(vx, vy),
            // LD I, addr
            (0xA, _, _, _) => {
                self.index_reg = nnn;
                Ok(())
            },
            // JP V0, addr
            (0xB, _, _, _) => {
                self.jp(nnn + self.reg[0] as u16);
                Ok(())
            },
            // RND Vx, byte
            (0xC, _, _, _) => {
                self.rnd_with(kk, x, random);
                Ok(())
            },
            // DRW Vx, Vy, nibble
            (0xD, _, _, _) => self.drw(n, vx, vy),
            // SKP Vx
            (0xE, _, 0x9, 0xE) => self.skp(vx),
            // SKNP Vx
            (0xE, _, 0xA, 0x1) => self.skpn(vx),
            _ => Err(Chip8Error::UnknownOpcode { opcode, pc }),
        }
    }

    /// The instructions whose first digit is F: the timers, the wait for a
    /// key, and the index register with the memory it points at.
    #[verifier::spinoff_prover]
    fn timer_and_memory_instruction(&mut self, opcode: u16, random: u8, pc: u16) -> (result:
        Result<(), Chip8Error>)
        requires
            opcode / 0x1000 == 0xF,
        ensures
            final(self).wf() == old(self).wf(),
            outcome(old(self)@.perform(opcode, random, pc), old(self)@, result, final(self)@),
            result is Err ==> *final(self) == *old(self),
    {
        let x = ((opcode & 0x0F00) >> 8) as usize;
        let low = ((opcode & 0x00F0) >> 4, opcode & 0x000F);
        proof {
            lemma_decode(opcode);
        }
        let vx = self.reg[x];
        match low {
            // LD Vx, DT
            (0x0, 0x7) => {
                self.ld(x, self.delay);
                Ok(())
            },
            // LD Vx, K
            (0x0, 0xA) => self.fx0a(x),
            // LD DT, Vx
            (0x1, 0x5) => {
                self.delay = vx;
                Ok(())
            },
            // LD ST, Vx
            (0x1, 0x8) => {
                self.sound = vx;
                Ok(())
            },
            // ADD I, Vx
            (0x1, 0xE) => {
                self.index_reg = self.index_reg.wrapping_add(vx as u16);
                Ok(())
            },
            // LD F, Vx
            (0x2, 0x9) => {
                self.fx29(vx);
                Ok(())
            },
            // LD B, Vx
            (0x3, 0x3) => self.fx33(vx),
            // LD [I], Vx
            (0x5, 0x5) => self.fx55(x),
            // LD Vx, [I]
            (0x6, 0x5) => self.fx65(x),
            _ => Err(Chip8Error::UnknownOpcode { opcode, pc }),
        }
    }

    /// Return from a subroutine.
    pub fn ret(&mut self) -> (result: Result<(), Chip8Error>)
        requires
            old(self).wf(),
        ensures
            final(self).wf(),
            outcome(old(self)@.ret(), old(self)@, result, final(self)@),
            result is Err ==> *final(self) == *old(self),
    {
        if self.stack_pointer == 0 {
            return Err(Chip8Error::StackUnderflow { pc: self.program_counter });
        }
        self.stack_pointer -= 1;
        self.program_counter = self.stack[self.stack_pointer as usize];
        Ok(())
    }

    /// Jump to `nnn`.
    pub fn jp(&mut self, nnn: u16)
        ensures
            final(self)@ == old(self)@.with_pc(nnn),
            final(self).wf() == old(self).wf(),
    {
        self.program_counter = nnn;
    }

    /// Call the subroutine at the low twelve bits of `opcode`.
    pub fn call(&mut self, opcode: u16) -> (result: Result<(), Chip8Error>)
        requires
            old(self).wf(),
        ensures
            final(self).wf(),
            outcome(old(self)@.call(opcode), old(self)@, result, final(self)@),
            result is Err ==> *final(self) == *old(self),
            old(self).stack_pointer >= 16 ==> result is Err,
    {
        if self.stack_pointer >= 16 {
            return Err(Chip8Error::StackOverflow { pc: self.program_counter });
        }
        let nnn = opcode & 0x0FFF;
        assert(opcode & 0x0FFF == opcode % 0x1000) by (bit_vector);
        self.stack[self.stack_pointer as usize] = self.program_counter;
        self.stack_pointer += 1;
        self.program_counter = nnn;
        Ok(())
    }

    /// Skip the next instruction if the two values are equal.
    pub fn se(&mut self, reg1: u8, reg2: u8) -> (result: Result<(), Chip8Error>)
        ensures
            final(self).wf() == old(self).wf(),
            outcome(old(self)@.skip_if(reg1 == reg2), old(self)@, result, final(self)@),
            result is Err ==> *final(self) == *old(self),
    {
        self.skip_if(reg1 == reg2)
    }

    /// Skip the next instruction if the two values differ.
    pub fn sne(&mut self, reg1: u8, reg2: u8) -> (result: Result<(), Chip8Error>)
        ensures
            final(self).wf() == old(self).wf(),
            outcome(old(self)@.skip_if(reg1 != reg2), old(self)@, result, final(self)@),
            result is Err ==> *final(self) == *old(self),
    {
        self.skip_if(reg1 != reg2)
    }

    /// Moves the program counter past one instruction if `cond` holds.
    fn skip_if(&mut self, cond: bool) -> (result: Result<(), Chip8Error>)
        ensures
            final(self).wf() == old(self).wf(),
            outcome(old(self)@.skip_if(cond), old(self)@, result, final(self)@),
            result is Err ==> *final(self) == *old(self),
    {
        if cond {
            if self.program_counter > 0xFFFD {
                return Err(Chip8Error::ProgramCounterOverflow { pc: self.program_counter });
            }
            self.program_counter += 2;
        }
        Ok(())
    }

    /// Load `val` into register `reg`.
    pub fn ld(&mut self, reg: usize, val: u8)
        requires
            reg < 16,
        ensures
            final(self)@ == old(self)@.with_reg(reg as int, val),
            final(self).wf() == old(self).wf(),
    {
        self.reg[reg] = val;
    }

    /// Store `val1 | val2` in register `x`.
    pub fn or(&mut self, x: usize, val1: u8, val2: u8)
        requires
            x < 16,
        ensures
            final(self)@ == old(self)@.with_reg(x as int, val1 | val2),
            final(self).wf() == old(self).wf(),
    {
        self.reg[x] = val1 | val2;
    }

    /// Store `reg1 ^ reg2` in register `x`.
    pub fn xor(&mut self, x: usize, reg1: u8, reg2: u8)
        requires
            x < 16,
        ensures
            final(self)@ == old(self)@.with_reg(x as int, reg1 ^ reg2),
            final(self).wf() == old(self).wf(),
    {
        self.reg[x] = reg1 ^ reg2;
    }

    /// Store `val1 & val2` in register `x`.
    pub fn and(&mut self, x: usize, val1: u8, val2: u8)
        requires
            x < 16,
        ensures
            final(self)@ == old(self)@.with_reg(x as int, val1 & val2),
            final(self).wf() == old(self).wf(),
    {
        self.reg[x] = val1 & val2;
    }

    /// Subtract register `y` from register `x`. The flag register ends as 1
    /// if register `x` was at least register `y`, as 0 if not.
    pub fn sub(&mut self, x: usize, y: usize)
        requires
            x < 16,
            y < 16,
        ensures
            final(self)@ == old(self)@.sub_reg(x as int, y as int),
            final(self).wf() == old(self).wf(),
            final(self).reg[0xF] == 1 <==> old(self).reg[x as int] >= old(self).reg[y as int],
            final(self).reg[0xF] == 0 <==> old(self).reg[x as int] < old(self).reg[y as int],
            x != 0xF ==> final(self).reg[x as int] == (old(self).reg[x as int] - old(self).reg[
                y as int
            ]) % 256,
    {
        let vx = self.reg[x];
        let vy = self.reg[y];
        self.reg[x] = vx.wrapping_sub(vy);
        self.reg[0xF] = if vx >= vy { 1 } else { 0 };
    }

    /// Subtract register `x` from register `y` and store the difference in
    /// register `x`. The flag register ends as 1 if register `y` was at least
    /// register `x`, as 0 if not.
    pub fn subn(&mut self, x: usize, y: usize)
        requires
            x < 16,
            y < 16,
        ensures
            final(self)@ == old(self)@.subn_reg(x as int, y as int),
            final(self).wf() == old(self).wf(),
    {
        let vx = self.reg[x];
        let vy = self.reg[y];
        self.reg[x] = vy.wrapping_sub(vx);
        self.reg[0xF] = if vy >= vx { 1 } else { 0 };
    }

    /// Shift register `x` right by one bit. The flag register ends as the
    /// lowest bit of `reg`, which the instruction takes from register `x`
    /// before the shift.
    pub fn shr(&mut self, x: usize, reg: u8)
        requires
            x < 16,
        ensures
            final(self)@ == old(self)@.shift_right(x as int, reg),
            final(self).wf() == old(self).wf(),
            final(self).reg[0xF] == reg % 2,
            x != 0xF ==> 2 * final(self).reg[x as int] + old(self).reg[x as int] % 2 == old(
                self,
            ).reg[x as int],
    {
        let vx = self.reg[x];
        assert(vx >> 1 == vx / 2) by (bit_vector);
        assert(reg & 0x1 == reg % 2) by (bit_vector);
        self.reg[x] = vx >> 1;
        self.reg[0xF] = reg & 0x1;
    }

    /// Shift register `x` left by one bit. The flag register ends as the
    /// highest bit of `reg`, which the instruction takes from register `x`
    /// before the shift.
    pub fn shl(&mut self, x: usize, reg: u8)
        requires
            x < 16,
        ensures
            final(self)@ == old(self)@.shift_left(x as int, reg),
            final(self).wf() == old(self).wf(),
            final(self).reg[0xF] == reg / 128,
            x != 0xF ==> final(self).reg[x as int] + 256 * (old(self).reg[x as int] / 128) == 2
                * old(self).reg[x as int],
    {
        let vx = self.reg[x];
        assert(vx << 1 == (vx * 2) % 256) by (bit_vector);
        assert(reg >> 7 == reg / 128) by (bit_vector);
        self.reg[x] = vx << 1;
        self.reg[0xF] = reg >> 7;
    }

    /// Skip the next instruction if key `reg` is down.
    pub fn skp(&mut self, reg: u8) -> (result: Result<(), Chip8Error>)
        ensures
            final(self).wf() == old(self).wf(),
            outcome(old(self)@.skip_key(reg, true), old(self)@, result, final(self)@),
            result is Err ==> *final(self) == *old(self),
    {
        if reg >= 16 {
            return Err(Chip8Error::KeyOutOfRange { key: reg });
        }
        let down = self.keypad.is_key_down(reg);
        self.skip_if(down)
    }

    /// Skip the next instruction if key `reg` is up.
    pub fn skpn(&mut self, reg: u8) -> (result: Result<(), Chip8Error>)
        ensures
            final(self).wf() == old(self).wf(),
            outcome(old(self)@.skip_key(reg, false), old(self)@, result, final(self)@),
            result is Err ==> *final(self) == *old(self),
    {
        if reg >= 16 {
            return Err(Chip8Error::KeyOutOfRange { key: reg });
        }
        let down = self.keypad.is_key_down(reg);
        self.skip_if(!down)
    }

    /// Store in register `x` a random byte masked by `kk`.
    pub fn rnd(&mut self, kk: u8, x: usize, _reg: u8)
        requires
            x < 16,
        ensures
            exists|random: u8| final(self)@ == old(self)@.with_reg(x as int, kk & random),
            final(self).wf() == old(self).wf(),
    {
        let random = random_byte();
        self.rnd_with(kk, x, random);
    }

    /// Store in register `x` the byte `random` masked by `kk`.
    pub fn rnd_with(&mut self, kk: u8, x: usize, random: u8)
        requires
            x < 16,
        ensures
            final(self)@ == old(self)@.with_reg(x as int, kk & random),
            final(self).wf() == old(self).wf(),
    {
        self.reg[x] = kk & random;
    }

    /// Draw the sprite of `n` rows that memory holds at the index register,
    /// at column `vx` and row `vy`. The flag register ends as 1 if a lit
    /// pixel went off, as 0 if not.
    pub fn drw(&mut self, n: u8, vx: u8, vy: u8) -> (result: Result<(), Chip8Error>)
        ensures
            final(self).wf() == old(self).wf(),
            outcome(old(self)@.draw(n, vx, vy), old(self)@, result, final(self)@),
            result is Err ==> *final(self) == *old(self),
    {
        let start = self.index_reg as usize;
        let end = start + n as usize;
        if end > 4096 {
            return Err(Chip8Error::MemoryOutOfBounds { addr: self.index_reg, len: n as u16 });
        }
        let collision = self.display.draw(vx as usize, vy as usize, &self.memory[start..end]);
        self.reg[0xF] = if collision { 1 } else { 0 };
        Ok(())
    }

    /// Wait for a key: with a key down, register `reg` takes the highest
    /// such key; with none, the program counter goes back by one
    /// instruction, so that the wait is executed again.
    pub fn fx0a(&mut self, reg: usize) -> (result: Result<(), Chip8Error>)
        requires
            reg < 16,
        ensures
            final(self).wf() == old(self).wf(),
            outcome(old(self)@.wait_key(reg as int), old(self)@, result, final(self)@),
            result is Err ==> *final(self) == *old(self),
    {
        let mut found: Option<u8> = None;
        let mut index: u8 = 0;
        while index < 16
            invariant
                index <= 16,
                match found {
                    Some(key) => key == highest_pressed(self.keypad@, index as int),
                    None => highest_pressed(self.keypad@, index as int) == -1,
                },
            decreases 16 - index,
        {
            if self.keypad.is_key_down(index) {
                found = Some(index);
            }
            index += 1;
        }
        match found {
            Some(key) => {
                self.reg[reg] = key;
                Ok(())
            },
            None => {
                if self.program_counter < 2 {
                    return Err(
                        Chip8Error::ProgramCounterOverflow { pc: self.program_counter },
                    );
                }
                self.program_counter -= 2;
                Ok(())
            },
        }
    }

    /// Point the index register at the glyph of the digit `reg`.
    pub fn fx29(&mut self, reg: u8)
        ensures
            final(self)@ == old(self)@.with_index((reg * 5) as u16),
            final(self).wf() == old(self).wf(),
    {
        self.index_reg = reg as u16 * 5;
    }

    /// Store the three decimal digits of `reg` at the index register,
    /// hundreds first.
    pub fn fx33(&mut self, reg: u8) -> (result: Result<(), Chip8Error>)
        ensures
            final(self).wf() == old(self).wf(),
            outcome(old(self)@.store_bcd(reg), old(self)@, result, final(self)@),
            result is Err ==> *final(self) == *old(self),
    {
        let i = self.index_reg as usize;
        if i + 3 > 4096 {
            return Err(Chip8Error::MemoryOutOfBounds { addr: self.index_reg, len: 3 });
        }
        self.memory[i] = reg / 100;
        self.memory[i + 1] = (reg / 10) % 10;
        self.memory[i + 2] = (reg % 100) % 10;
        Ok(())
    }

    /// Store registers 0 to `x` in memory from the index register on.
    pub fn fx55(&mut self, x: usize) -> (result: Result<(), Chip8Error>)
        requires
            x < 16,
        ensures
            final(self).wf() == old(self).wf(),
            outcome(old(self)@.dump_regs(x as int), old(self)@, result, final(self)@),
            result is Err ==> *final(self) == *old(self),
    {
        let start = self.index_reg as usize;
        if start + x + 1 > 4096 {
            return Err(
                Chip8Error::MemoryOutOfBounds { addr: self.index_reg, len: (x + 1) as u16 },
            );
        }
        let mut r: usize = 0;
        while r <= x
            invariant
                r <= x + 1,
                x < 16,
                start + x + 1 <= 4096,
                start == self.index_reg,
                forall|a: int|
                    0 <= a < 4096 ==> self.memory@[a] == if start <= a < start + r {
                        self.reg@[a - start]
                    } else {
                        old(self).memory@[a]
                    },
                self.reg == old(self).reg,
                self.index_reg == old(self).index_reg,
                self.program_counter == old(self).program_counter,
                self.keypad == old(self).keypad,
                self.display == old(self).display,
                self.stack == old(self).stack,
                self.stack_pointer == old(self).stack_pointer,
                self.sound == old(self).sound,
                self.delay == old(self).delay,
            decreases x + 1 - r,
        {
            self.memory[start + r] = self.reg[r];
            r += 1;
        }
        Ok(())
    }

    /// Read registers 0 to `x` from memory from the index register on.
    pub fn fx65(&mut self, x: usize) -> (result: Result<(), Chip8Error>)
        requires
            x < 16,
        ensures
            final(self).wf() == old(self).wf(),
            outcome(old(self)@.load_regs(x as int), old(self)@, result, final(self)@),
            result is Err ==> *final(self) == *old(self),
    {
        let start = self.index_reg as usize;
        if start + x + 1 > 4096 {
            return Err(
                Chip8Error::MemoryOutOfBounds { addr: self.index_reg, len: (x + 1) as u16 },
            );
        }
        let mut r: usize = 0;
        while r <= x
            invariant
                r <= x + 1,
                x < 16,
                start + x + 1 <= 4096,
                start == self.index_reg,
                forall|i: int|
                    0 <= i < 16 ==> self.reg@[i] == if i < r {
                        self.memory@[start + i]
                    } else {
                        old(self).reg@[i]
                    },
                self.memory == old(self).memory,
                self.index_reg == old(self).index_reg,
                self.program_counter == old(self).program_counter,
                self.keypad == old(self).keypad,
                self.display == old(self).display,
                self.stack == old(self).stack,
                self.stack_pointer == old(self).stack_pointer,
                self.sound == old(self).sound,
                self.delay == old(self).delay,
            decreases x + 1 - r,
        {
            self.reg[r] = self.memory[start + r];
            r += 1;
        }
        Ok(())
    }

    /// Add register `y` to register `x`. The flag register ends as 1 if the
    /// sum is above 255, as 0 if not.
    pub fn op8xy4(&mut self, x: usize, y: usize)
        requires
            x < 16,
            y < 16,
        ensures
            final(self)@ == old(self)@.add_reg(x as int, y as int),
            final(self).wf() == old(self).wf(),
            final(self).reg[0xF] == 1 <==> old(self).reg[x as int] + old(self).reg[y as int]
                > 255,
            final(self).reg[0xF] == 0 <==> old(self).reg[x as int] + old(self).reg[y as int]
                <= 255,
            x != 0xF ==> final(self).reg[x as int] == (old(self).reg[x as int] + old(self).reg[
                y as int
            ]) % 256,
    {
        let vx = self.reg[x];
        let vy = self.reg[y];
        let sum: u16 = vx as u16 + vy as u16;
        self.reg[x] = vx.wrapping_add(vy);
        self.reg[0xF] = if sum > 0xFF { 1 } else { 0 };
    }

    /// Resets the machine and copies the program image `data` into memory
    /// from address 0x200 on. An image that does not fit is refused and the
    /// machine stays as it was.
    pub fn load_rom(&mut self, data: &[u8]) -> (result: Result<(), Chip8Error>)
        ensures
            result is Ok ==> final(self).wf(),
            outcome(old(self)@.load(data@), old(self)@, result, final(self)@),
            result is Err ==> *final(self) == *old(self),
    {
        if data.len() > 4096 - 0x200 {
            return Err(Chip8Error::RomTooLarge { size: data.len() });
        }
        self.reset();
        let mut i: usize = 0;
        while i < data.len()
            invariant
                i <= data.len() <= 4096 - 0x200,
                self.wf(),
                forall|a: int|
                    0 <= a < 4096 ==> self.memory@[a] == if 0 <= a < 80 {
                        FONT_SET[a]
                    } else if 0x200 <= a < 0x200 + i {
                        data@[a - 0x200]
                    } else {
                        0u8
                    },
                (Machine { memory: font_memory(), ..self@ }) == Machine::power_on(
                    old(self)@.keys,
                ),
            decreases data.len() - i,
        {
            let addr = 0x200 + i;
            self.memory[addr] = data[i];
            i += 1;
        }
        Ok(())
    }

    /// The two bytes of `memory` at `index` and `index + 1` as one word, the
    /// first byte the high one.
    pub fn read_word(&mut self, memory: [u8; 4096], index: u16) -> (result: Result<
        u16,
        Chip8Error,
    >)
        ensures
            *final(self) == *old(self),
            result == read_word_spec(memory@, index),
    {
        let i = index as usize;
        if i + 1 >= 4096 {
            return Err(Chip8Error::MemoryOutOfBounds { addr: index, len: 2 });
        }
        let hi = memory[i];
        let lo = memory[i + 1];
        assert(((hi as u16) << 8 | (lo as u16)) == hi * 256 + lo) by (bit_vector);
        Ok((hi as u16) << 8 | (lo as u16))
    }
}

/// The view leaves nothing of a machine out: two machines with the same view
/// are the same machine.
pub proof fn lemma_view_injective(a: Cpu, b: Cpu)
    requires
        a@ == b@,
    ensures
        a == b,
{
    assert(a.memory@ == b.memory@);
    assert(a.reg@ == b.reg@);
    assert(a.stack@ == b.stack@);
    assert(a.keypad@ == b.keypad@);
    assert(a.display@ == b.display@);
    assert(a =~= b);
}

/// The fields of an instruction word, taken with masks and shifts, are its
/// hexadecimal digits and the numbers that its low digits make up.
pub proof fn lemma_decode(opcode: u16)
    ensures
        (opcode & 0xF000) >> 12 == opcode / 0x1000,
        (opcode & 0x0F00) >> 8 == (opcode / 0x100) % 16,
        (opcode & 0x00F0) >> 4 == (opcode / 0x10) % 16,
        opcode & 0x000F == opcode % 0x10,
        opcode & 0x00FF == opcode % 0x100,
        opcode & 0x0FFF == opcode % 0x1000,
{
    assert((opcode & 0xF000) >> 12 == opcode / 0x1000) by (bit_vector);
    assert((opcode & 0x0F00) >> 8 == (opcode / 0x100) % 16) by (bit_vector);
    assert((opcode & 0x00F0) >> 4 == (opcode / 0x10) % 16) by (bit_vector);
    assert(opcode & 0x000F == opcode % 0x10) by (bit_vector);
    assert(opcode & 0x00FF == opcode % 0x100) by (bit_vector);
    assert(opcode & 0x0FFF == opcode % 0x1000) by (bit_vector);
}

} // verus!
