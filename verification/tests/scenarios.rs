use chip8::cpu::Cpu;
use chip8::error::Chip8Error;

fn machine_with(program: &[u8]) -> Cpu {
    let mut cpu = Cpu::new();
    assert_eq!(cpu.load_rom(program), Ok(()));
    cpu
}

#[test]
fn clear_instruction_blanks_the_framebuffer_and_advances() {
    let mut cpu = machine_with(&[0x00, 0xE0]);
    cpu.display.memory[5] = true;
    cpu.display.memory[2047] = true;
    assert_eq!(cpu.execute_cycle(), Ok(()));
    assert!(cpu.display.memory.iter().all(|pixel| !*pixel));
    assert_eq!(cpu.program_counter, 0x202);
}

#[test]
fn load_immediate_then_add_immediate() {
    let mut cpu = machine_with(&[0x6A, 0x05, 0x7A, 0x03]);
    assert_eq!(cpu.execute_cycle(), Ok(()));
    assert_eq!(cpu.reg[0xA], 5);
    assert_eq!(cpu.execute_cycle(), Ok(()));
    assert_eq!(cpu.reg[0xA], 8);
    assert_eq!(cpu.program_counter, 0x204);
}

#[test]
fn add_registers_with_carry() {
    let mut cpu = Cpu::new();
    cpu.reg[0] = 250;
    cpu.reg[1] = 10;
    cpu.op8xy4(0, 1);
    assert_eq!(cpu.reg[0], 4);
    assert_eq!(cpu.reg[0xF], 1);
    assert_eq!(cpu.reg[1], 10);
}

#[test]
fn add_registers_with_carry_as_an_instruction() {
    let mut cpu = Cpu::new();
    cpu.reg[0] = 250;
    cpu.reg[1] = 10;
    assert_eq!(cpu.process_instruction(0x8014), Ok(()));
    assert_eq!(cpu.reg[0], 4);
    assert_eq!(cpu.reg[0xF], 1);
    assert_eq!(cpu.program_counter, 0x202);
}

#[test]
fn jump_sets_the_program_counter() {
    let mut cpu = machine_with(&[0x12, 0x04]);
    assert_eq!(cpu.execute_cycle(), Ok(()));
    assert_eq!(cpu.program_counter, 0x204);
}

#[test]
fn a_new_machine_holds_the_font_and_starts_at_the_load_address() {
    let cpu = Cpu::new();
    assert_eq!(cpu.program_counter, 0x200);
    assert_eq!(cpu.index_reg, 0);
    assert_eq!(cpu.stack_pointer, 0);
    assert_eq!(cpu.stack, [0u16; 16]);
    assert_eq!(cpu.delay, 0);
    assert_eq!(cpu.sound, 0);
    assert_eq!(cpu.reg, [0u8; 16]);
    assert_eq!(&cpu.memory[0..5], &[0xF0, 0x90, 0x90, 0x90, 0xF0]);
    assert_eq!(&cpu.memory[75..80], &[0xF0, 0x80, 0xF0, 0x80, 0x80]);
    assert!(cpu.memory[80..].iter().all(|byte| *byte == 0));
    assert!(cpu.display.memory.iter().all(|pixel| !*pixel));
    assert!(cpu.keypad.keys.iter().all(|key| !*key));
}

#[test]
fn load_rom_resets_and_copies_the_image() {
    let mut cpu = Cpu::new();
    cpu.reg[3] = 9;
    cpu.index_reg = 77;
    cpu.program_counter = 0x300;
    cpu.stack_pointer = 2;
    cpu.stack = [0x222; 16];
    cpu.delay = 4;
    cpu.sound = 5;
    cpu.memory[0x400] = 0xAA;
    cpu.display.memory[100] = true;
    cpu.keypad.key_down(7);
    assert_eq!(cpu.load_rom(&[1, 2, 3]), Ok(()));
    assert_eq!(cpu.reg, [0u8; 16]);
    assert_eq!(cpu.index_reg, 0);
    assert_eq!(cpu.program_counter, 0x200);
    assert_eq!(cpu.stack_pointer, 0);
    assert_eq!(cpu.stack, [0u16; 16]);
    assert_eq!(cpu.delay, 0);
    assert_eq!(cpu.sound, 0);
    assert_eq!(&cpu.memory[0x200..0x204], &[1, 2, 3, 0]);
    assert_eq!(cpu.memory[0x400], 0);
    assert_eq!(cpu.memory[0], 0xF0);
    assert!(!cpu.display.memory[100]);
    assert!(cpu.keypad.keys[7]);
}

#[test]
fn load_rom_takes_an_image_that_fills_memory() {
    let image = vec![0x5Au8; 4096 - 0x200];
    let mut cpu = Cpu::new();
    assert_eq!(cpu.load_rom(&image), Ok(()));
    assert_eq!(cpu.memory[0x200], 0x5A);
    assert_eq!(cpu.memory[4095], 0x5A);
    assert_eq!(cpu.memory[0x1FF], 0);
}

#[test]
fn load_rom_refuses_an_image_that_is_too_large() {
    let image = vec![0x5Au8; 4096 - 0x200 + 1];
    let mut cpu = Cpu::new();
    cpu.reg[3] = 9;
    cpu.memory[0x300] = 0x11;
    assert_eq!(cpu.load_rom(&image), Err(Chip8Error::RomTooLarge { size: 3585 }));
    assert_eq!(cpu.reg[3], 9);
    assert_eq!(cpu.memory[0x300], 0x11);
    assert_eq!(cpu.memory[0x200], 0);
}

#[test]
fn load_rom_takes_an_empty_image() {
    let mut cpu = Cpu::new();
    assert_eq!(cpu.load_rom(&[]), Ok(()));
    assert!(cpu.memory[80..].iter().all(|byte| *byte == 0));
}

#[test]
fn reset_keeps_the_keys() {
    let mut cpu = Cpu::new();
    cpu.keypad.key_down(0xB);
    cpu.reg[0] = 1;
    cpu.memory[3] = 0;
    cpu.reset();
    assert!(cpu.keypad.keys[0xB]);
    assert_eq!(cpu.reg[0], 0);
    assert_eq!(cpu.memory[3], 0x90);
    assert_eq!(cpu.program_counter, 0x200);
}

#[test]
fn a_fetch_past_the_end_of_memory_is_refused() {
    let mut cpu = Cpu::new();
    cpu.program_counter = 4095;
    assert_eq!(
        cpu.execute_cycle(),
        Err(Chip8Error::MemoryOutOfBounds { addr: 4095, len: 2 })
    );
    assert_eq!(cpu.program_counter, 4095);
    cpu.program_counter = 0xFFFF;
    assert_eq!(
        cpu.execute_cycle(),
        Err(Chip8Error::MemoryOutOfBounds { addr: 0xFFFF, len: 2 })
    );
}

#[test]
fn the_last_word_of_memory_can_be_fetched() {
    let mut cpu = Cpu::new();
    cpu.memory[4094] = 0x6B;
    cpu.memory[4095] = 0x2A;
    cpu.program_counter = 4094;
    assert_eq!(cpu.execute_cycle(), Ok(()));
    assert_eq!(cpu.reg[0xB], 0x2A);
    assert_eq!(cpu.program_counter, 4096);
    assert_eq!(
        cpu.execute_cycle(),
        Err(Chip8Error::MemoryOutOfBounds { addr: 4096, len: 2 })
    );
}

#[test]
fn read_word_puts_the_first_byte_high() {
    let mut cpu = Cpu::new();
    let mut memory = [0u8; 4096];
    memory[10] = 0xAB;
    memory[11] = 0xCD;
    memory[4094] = 0x12;
    memory[4095] = 0x34;
    assert_eq!(cpu.read_word(memory, 10), Ok(0xABCD));
    assert_eq!(cpu.read_word(memory, 4094), Ok(0x1234));
    assert_eq!(
        cpu.read_word(memory, 4095),
        Err(Chip8Error::MemoryOutOfBounds { addr: 4095, len: 2 })
    );
    assert_eq!(cpu.program_counter, 0x200);
}

#[test]
fn a_program_counts_down_in_a_loop() {
    // 0x200: V0 <- 3; 0x202: V0 += 0xFF; 0x204: skip if V0 == 0; 0x206: jump 0x202; 0x208: V1 <- 7
    let mut cpu = machine_with(&[0x60, 0x03, 0x70, 0xFF, 0x30, 0x00, 0x12, 0x02, 0x61, 0x07]);
    let mut cycles = 0;
    while cpu.program_counter != 0x20A {
        assert_eq!(cpu.execute_cycle(), Ok(()));
        cycles += 1;
        assert!(cycles < 100);
    }
    assert_eq!(cycles, 1 + 3 * 3 - 1 + 1);
    assert_eq!(cpu.reg[0], 0);
    assert_eq!(cpu.reg[1], 7);
}

#[test]
fn the_timers_stop_at_zero() {
    let mut cpu = Cpu::new();
    cpu.delay = 2;
    cpu.sound = 1;
    cpu.decrement_timers();
    assert_eq!((cpu.delay, cpu.sound), (1, 0));
    cpu.decrement_timers();
    assert_eq!((cpu.delay, cpu.sound), (0, 0));
    cpu.decrement_timers();
    assert_eq!((cpu.delay, cpu.sound), (0, 0));
    assert_eq!(cpu.program_counter, 0x200);
}

#[test]
fn reset_zeroes_every_stack_slot() {
    let mut cpu = Cpu::new();
    for _ in 0..16 {
        assert_eq!(cpu.process_instruction(0x2300), Ok(()));
    }
    assert_eq!(cpu.stack_pointer, 16);
    assert_ne!(cpu.stack, [0u16; 16]);
    cpu.reset();
    assert_eq!(cpu.stack_pointer, 0);
    assert_eq!(cpu.stack, [0u16; 16]);
}

#[test]
fn the_timers_leave_everything_else_alone() {
    let mut cpu = Cpu::new();
    assert_eq!(cpu.process_instruction(0x2300), Ok(()));
    assert_eq!(cpu.process_instruction(0x6A07), Ok(()));
    cpu.stack[15] = 0x0ABC;
    cpu.index_reg = 0x123;
    cpu.delay = 9;
    let (stack, pointer, reg, memory, pc) =
        (cpu.stack, cpu.stack_pointer, cpu.reg, cpu.memory, cpu.program_counter);
    cpu.decrement_timers();
    assert_eq!(cpu.delay, 8);
    assert_eq!(cpu.sound, 0);
    assert_eq!(cpu.stack, stack);
    assert_eq!(cpu.stack_pointer, pointer);
    assert_eq!(cpu.reg, reg);
    assert_eq!(cpu.memory, memory);
    assert_eq!(cpu.program_counter, pc);
    assert_eq!(cpu.index_reg, 0x123);
}
