use crab_boy::cpu::{create_cpu, Cpu, Flag, RegisterTarget, Registers, Step};
use crab_boy::memory::{Memory, MEMORY_SIZE};

/// A processor after start-up with `program` at 0x100, where execution begins.
fn boot_with(program: &[u8]) -> Cpu {
    let mut mem = Memory::new();
    for (i, b) in program.iter().enumerate() {
        mem.memory[0x100 + i] = *b;
    }
    Cpu::new(Registers::new(), mem)
}

fn run(cpu: &mut Cpu, steps: usize) {
    for _ in 0..steps {
        assert_eq!(cpu.tick(), Step::Continue);
    }
}

fn a_of(cpu: &Cpu) -> u8 {
    (cpu.get_registers().get_af() >> 8) as u8
}

fn f_of(cpu: &Cpu) -> u8 {
    (cpu.get_registers().get_af() & 0xff) as u8
}

fn flag(cpu: &Cpu, f: Flag) -> bool {
    cpu.get_registers().get_flag(f)
}

#[test]
fn boot_state_matches_the_boot_rom() {
    let cpu = boot_with(&[]);
    let r = cpu.get_registers();
    assert_eq!(r.get_af(), 0x01B0);
    assert_eq!(r.get_bc(), 0x0013);
    assert_eq!(r.get_de(), 0x00D8);
    assert_eq!(r.get_hl(), 0x014D);
    assert_eq!(r.get_sp(), 0xFFFE);
    assert_eq!(r.get_pc(), 0x0100);
    assert!(cpu.interrupts_enabled());
}

#[test]
fn flag_masks() {
    assert_eq!(Flag::Z.og(), 0x80);
    assert_eq!(Flag::N.og(), 0x40);
    assert_eq!(Flag::H.og(), 0x20);
    assert_eq!(Flag::C.og(), 0x10);
    assert_eq!(Flag::Z.bw(), 0x7F);
    assert_eq!(Flag::C.bw(), 0xEF);
}

#[test]
fn set_flag_then_get_flag() {
    let mut r = Registers::new();
    r.set_flag(Flag::H, true);
    assert!(r.get_flag(Flag::H));
    assert!(!r.get_flag(Flag::Z));
    assert_eq!(r.get_af(), 0x0020);
    r.set_flag(Flag::C, true);
    r.set_flag(Flag::H, false);
    assert!(!r.get_flag(Flag::H));
    assert!(r.get_flag(Flag::C));
    assert_eq!(r.get_af(), 0x0010);
}

#[test]
fn register_pairs_read_back() {
    let mut r = Registers::new();
    r.set_bc(0x1234);
    r.set_de(0xBEEF);
    r.set_hl(0x00FF);
    r.set_af(0x12FF);
    assert_eq!(r.get_bc(), 0x1234);
    assert_eq!(r.get_de(), 0xBEEF);
    assert_eq!(r.get_hl(), 0x00FF);
    // the low nibble of F is never stored
    assert_eq!(r.get_af(), 0x12F0);
}

#[test]
fn register_target_from_code() {
    assert_eq!(RegisterTarget::from(7), RegisterTarget::A);
    assert_eq!(RegisterTarget::from(0), RegisterTarget::B);
    assert_eq!(RegisterTarget::from(5), RegisterTarget::L);
    assert_eq!(RegisterTarget::from(6), RegisterTarget::HL);
    assert_eq!(RegisterTarget::from(8), RegisterTarget::UNKNOWN);
}

#[test]
fn nop_only_advances_pc() {
    let mut cpu = boot_with(&[0x00]);
    let before = cpu.get_registers();
    run(&mut cpu, 1);
    let after = cpu.get_registers();
    assert_eq!(after.get_pc(), 0x101);
    assert_eq!(after.get_af(), before.get_af());
    assert_eq!(after.get_sp(), before.get_sp());
}

#[test]
fn load_pair_immediates() {
    let mut cpu = boot_with(&[0x01, 0x34, 0x12, 0x11, 0x78, 0x56, 0x21, 0xCD, 0xAB, 0x31, 0x00, 0xD0]);
    run(&mut cpu, 4);
    let r = cpu.get_registers();
    assert_eq!(r.get_bc(), 0x1234);
    assert_eq!(r.get_de(), 0x5678);
    assert_eq!(r.get_hl(), 0xABCD);
    assert_eq!(r.get_sp(), 0xD000);
    assert_eq!(r.get_pc(), 0x10C);
}

#[test]
fn add_sets_zero_half_carry_and_carry() {
    // LD A,0x3A ; LD B,0xC6 ; ADD A,B
    let mut cpu = boot_with(&[0x3E, 0x3A, 0x06, 0xC6, 0x80]);
    run(&mut cpu, 3);
    assert_eq!(a_of(&cpu), 0x00);
    assert!(flag(&cpu, Flag::Z));
    assert!(flag(&cpu, Flag::H));
    assert!(flag(&cpu, Flag::C));
    assert!(!flag(&cpu, Flag::N));
}

#[test]
fn add_without_carry_out() {
    // XOR A ; LD A,0x12 ; LD C,0x34 ; ADD A,C
    let mut cpu = boot_with(&[0xAF, 0x3E, 0x12, 0x0E, 0x34, 0x81]);
    run(&mut cpu, 4);
    assert_eq!(a_of(&cpu), 0x46);
    assert!(!flag(&cpu, Flag::Z));
    assert!(!flag(&cpu, Flag::H));
    assert!(!flag(&cpu, Flag::C));
}

#[test]
fn adc_adds_the_carry() {
    // SCF ; LD A,0x10 ; LD D,0x05 ; ADC A,D
    let mut cpu = boot_with(&[0x37, 0x3E, 0x10, 0x16, 0x05, 0x8A]);
    run(&mut cpu, 4);
    assert_eq!(a_of(&cpu), 0x16);
    assert!(!flag(&cpu, Flag::C));
}

#[test]
fn subtract_equal_values() {
    // LD A,0x3E ; LD E,0x3E ; SUB E
    let mut cpu = boot_with(&[0x3E, 0x3E, 0x1E, 0x3E, 0x93]);
    run(&mut cpu, 3);
    assert_eq!(a_of(&cpu), 0);
    assert_eq!(f_of(&cpu), 0xC0);
}

#[test]
fn subtract_with_borrow() {
    // LD A,0x10 ; LD L,0x01 ; SUB L
    let mut cpu = boot_with(&[0x3E, 0x10, 0x2E, 0x01, 0x95]);
    run(&mut cpu, 3);
    assert_eq!(a_of(&cpu), 0x0F);
    assert!(flag(&cpu, Flag::H));
    assert!(flag(&cpu, Flag::N));
    assert!(!flag(&cpu, Flag::C));
    assert!(!flag(&cpu, Flag::Z));
}

#[test]
fn compare_keeps_a() {
    // LD A,0x20 ; CP 0x30
    let mut cpu = boot_with(&[0x3E, 0x20, 0xFE, 0x30]);
    run(&mut cpu, 2);
    assert_eq!(a_of(&cpu), 0x20);
    assert!(flag(&cpu, Flag::C));
    assert!(flag(&cpu, Flag::N));
    assert!(!flag(&cpu, Flag::Z));
}

#[test]
fn logic_operations() {
    // LD A,0xF0 ; LD B,0x3C ; AND B
    let mut cpu = boot_with(&[0x3E, 0xF0, 0x06, 0x3C, 0xA0]);
    run(&mut cpu, 3);
    assert_eq!(a_of(&cpu), 0x30);
    assert_eq!(f_of(&cpu), 0x20);
    // LD A,0xF0 ; OR 0x0F
    let mut cpu = boot_with(&[0x3E, 0xF0, 0xF6, 0x0F]);
    run(&mut cpu, 2);
    assert_eq!(a_of(&cpu), 0xFF);
    assert_eq!(f_of(&cpu), 0x00);
    // XOR A
    let mut cpu = boot_with(&[0xAF]);
    run(&mut cpu, 1);
    assert_eq!(a_of(&cpu), 0);
    assert_eq!(f_of(&cpu), 0x80);
}

#[test]
fn increment_and_decrement() {
    // LD A,0x0F ; INC A
    let mut cpu = boot_with(&[0x3E, 0x0F, 0x3C]);
    run(&mut cpu, 2);
    assert_eq!(a_of(&cpu), 0x10);
    assert!(flag(&cpu, Flag::H));
    assert!(!flag(&cpu, Flag::Z));
    assert!(!flag(&cpu, Flag::N));
    // LD B,0x01 ; DEC B
    let mut cpu = boot_with(&[0x06, 0x01, 0x05]);
    run(&mut cpu, 2);
    assert_eq!(cpu.get_registers().get_bc() >> 8, 0);
    assert!(flag(&cpu, Flag::Z));
    assert!(flag(&cpu, Flag::N));
    // LD A,0xFF ; INC A wraps to zero
    let mut cpu = boot_with(&[0x3E, 0xFF, 0x3C]);
    run(&mut cpu, 2);
    assert_eq!(a_of(&cpu), 0);
    assert!(flag(&cpu, Flag::Z));
}

#[test]
fn pair_increment_wraps_without_flags() {
    // LD BC,0xFFFF ; INC BC ; DEC DE
    let mut cpu = boot_with(&[0x01, 0xFF, 0xFF, 0x03, 0x1B]);
    let f = f_of(&cpu);
    run(&mut cpu, 3);
    assert_eq!(cpu.get_registers().get_bc(), 0x0000);
    assert_eq!(cpu.get_registers().get_de(), 0x00D7);
    assert_eq!(f_of(&cpu), f);
}

#[test]
fn rotations() {
    // LD A,0x85 ; RLCA
    let mut cpu = boot_with(&[0x3E, 0x85, 0x07]);
    run(&mut cpu, 2);
    assert_eq!(a_of(&cpu), 0x0B);
    assert_eq!(f_of(&cpu), 0x10);
    // LD A,0x01 ; RRCA
    let mut cpu = boot_with(&[0x3E, 0x01, 0x0F]);
    run(&mut cpu, 2);
    assert_eq!(a_of(&cpu), 0x80);
    assert_eq!(f_of(&cpu), 0x10);
    // carry is set at boot: LD A,0x80 ; RLA
    let mut cpu = boot_with(&[0x3E, 0x80, 0x17]);
    run(&mut cpu, 2);
    assert_eq!(a_of(&cpu), 0x01);
    assert!(flag(&cpu, Flag::C));
    // LD A,0x02 ; RRA (carry in from boot)
    let mut cpu = boot_with(&[0x3E, 0x02, 0x1F]);
    run(&mut cpu, 2);
    assert_eq!(a_of(&cpu), 0x81);
    assert!(!flag(&cpu, Flag::C));
}

#[test]
fn rla_then_rra_restores_a_and_carry() {
    let mut cpu = boot_with(&[0x3E, 0xB7, 0x17, 0x1F]);
    run(&mut cpu, 4);
    assert_eq!(a_of(&cpu), 0xB7);
    assert!(flag(&cpu, Flag::C));
}

#[test]
fn decimal_adjust_after_addition() {
    // XOR A clears all but Z; LD A,0x45 ; ADD A,0x38 with ADD-immediate (which adds the carry)
    // so use LD B,0x38 ; ADD A,B ; DAA
    let mut cpu = boot_with(&[0xAF, 0x3E, 0x45, 0x06, 0x38, 0x80, 0x27]);
    run(&mut cpu, 5);
    assert_eq!(a_of(&cpu), 0x83);
    assert!(!flag(&cpu, Flag::C));
    assert!(!flag(&cpu, Flag::Z));
}

#[test]
fn decimal_adjust_with_carry_out() {
    // XOR A ; LD A,0x99 ; LD B,0x01 ; ADD A,B ; DAA
    let mut cpu = boot_with(&[0xAF, 0x3E, 0x99, 0x06, 0x01, 0x80, 0x27]);
    run(&mut cpu, 5);
    assert_eq!(a_of(&cpu), 0x00);
    assert!(flag(&cpu, Flag::C));
    assert!(flag(&cpu, Flag::Z));
}

#[test]
fn complement_and_carry_flag_instructions() {
    // LD A,0x35 ; CPL ; SCF ; CCF
    let mut cpu = boot_with(&[0x3E, 0x35, 0x2F, 0x37, 0x3F]);
    run(&mut cpu, 2);
    assert_eq!(a_of(&cpu), 0xCA);
    assert!(flag(&cpu, Flag::N));
    assert!(flag(&cpu, Flag::H));
    run(&mut cpu, 1);
    assert!(flag(&cpu, Flag::C));
    assert!(!flag(&cpu, Flag::N));
    run(&mut cpu, 1);
    assert!(!flag(&cpu, Flag::C));
}

#[test]
fn relative_jumps() {
    // JR +2 skips two bytes
    let mut cpu = boot_with(&[0x18, 0x02, 0x00, 0x00, 0x00]);
    run(&mut cpu, 1);
    assert_eq!(cpu.get_registers().get_pc(), 0x104);
    // JR -2 jumps back onto itself
    let mut cpu = boot_with(&[0x18, 0xFE]);
    run(&mut cpu, 1);
    assert_eq!(cpu.get_registers().get_pc(), 0x100);
    // Z is set at boot: JR NZ is not taken, the displacement is still consumed
    let mut cpu = boot_with(&[0x20, 0x10]);
    run(&mut cpu, 1);
    assert_eq!(cpu.get_registers().get_pc(), 0x102);
    // JR Z is taken
    let mut cpu = boot_with(&[0x28, 0x10]);
    run(&mut cpu, 1);
    assert_eq!(cpu.get_registers().get_pc(), 0x112);
}

#[test]
fn absolute_jumps() {
    let mut cpu = boot_with(&[0xC3, 0x34, 0x12]);
    run(&mut cpu, 1);
    assert_eq!(cpu.get_registers().get_pc(), 0x1234);
    // Z set at boot: JP NZ is not taken and does not consume its address
    let mut cpu = boot_with(&[0xC2, 0x34, 0x12]);
    run(&mut cpu, 1);
    assert_eq!(cpu.get_registers().get_pc(), 0x101);
    let mut cpu = boot_with(&[0xCA, 0x34, 0x12]);
    run(&mut cpu, 1);
    assert_eq!(cpu.get_registers().get_pc(), 0x1234);
}

#[test]
fn push_then_pop_moves_a_pair() {
    // LD SP,0xD000 ; LD BC,0x1234 ; PUSH BC ; POP DE
    let mut cpu = boot_with(&[0x31, 0x00, 0xD0, 0x01, 0x34, 0x12, 0xC5, 0xD1]);
    run(&mut cpu, 3);
    assert_eq!(cpu.get_registers().get_sp(), 0xCFFE);
    let mem = cpu.get_memory_debug();
    assert_eq!(mem.memory[0xCFFF], 0x12);
    assert_eq!(mem.memory[0xCFFE], 0x34);
    run(&mut cpu, 1);
    assert_eq!(cpu.get_registers().get_de(), 0x1234);
    assert_eq!(cpu.get_registers().get_sp(), 0xD000);
}

#[test]
fn push_af_then_pop_af_exchanges_a_and_f() {
    // LD SP,0xD000 ; LD A,0x12 ; PUSH AF ; POP AF
    let mut cpu = boot_with(&[0x31, 0x00, 0xD0, 0x3E, 0x12, 0xF5, 0xF1]);
    run(&mut cpu, 4);
    assert_eq!(a_of(&cpu), 0xB0);
    assert_eq!(f_of(&cpu), 0x12);
    assert_eq!(cpu.get_registers().get_sp(), 0xD000);
}

#[test]
fn restart_pushes_pc() {
    // LD SP,0xD000 ; RST 38
    let mut cpu = boot_with(&[0x31, 0x00, 0xD0, 0xFF]);
    run(&mut cpu, 2);
    assert_eq!(cpu.get_registers().get_pc(), 0x38);
    assert_eq!(cpu.get_registers().get_sp(), 0xCFFE);
    let mem = cpu.get_memory_debug();
    assert_eq!(mem.memory[0xCFFF], 0x01);
    assert_eq!(mem.memory[0xCFFE], 0x04);
}

#[test]
fn conditional_return() {
    // LD SP,0xD000 ; RST 08 ... at 0x08: RET NZ (Z is set, not taken), then RET Z via 0xC8 (C set,
    // 0xC8 returns when C is clear, so not taken either)
    let mut mem = Memory::new();
    mem.memory[0x100] = 0x31;
    mem.memory[0x101] = 0x00;
    mem.memory[0x102] = 0xD0;
    mem.memory[0x103] = 0xCF;
    mem.memory[0x08] = 0xC0;
    mem.memory[0x09] = 0xC8;
    mem.memory[0x0A] = 0xD8;
    let mut cpu = Cpu::new(Registers::new(), mem);
    run(&mut cpu, 2);
    assert_eq!(cpu.get_registers().get_pc(), 0x08);
    run(&mut cpu, 2);
    assert_eq!(cpu.get_registers().get_pc(), 0x0A);
    // RET C is taken
    run(&mut cpu, 1);
    assert_eq!(cpu.get_registers().get_pc(), 0x104);
    assert_eq!(cpu.get_registers().get_sp(), 0xD000);
}

#[test]
fn memory_through_hl() {
    // LD HL,0xC000 ; LD (HL),0x42 ; LD A,(HL) ; INC (HL) ; LD B,(HL)
    let mut cpu = boot_with(&[0x21, 0x00, 0xC0, 0x36, 0x42, 0x7E, 0x34, 0x46]);
    run(&mut cpu, 5);
    assert_eq!(a_of(&cpu), 0x42);
    assert_eq!(cpu.get_registers().get_bc() >> 8, 0x43);
    assert_eq!(cpu.get_memory_debug().memory[0xC000], 0x43);
}

#[test]
fn load_and_step_hl() {
    // LD HL,0xC000 ; LD A,0x11 ; LD (HL+),A ; LD (HL-),A ; LD A,(HL+)
    let mut cpu = boot_with(&[0x21, 0x00, 0xC0, 0x3E, 0x11, 0x22, 0x32, 0x2A]);
    run(&mut cpu, 3);
    assert_eq!(cpu.get_registers().get_hl(), 0xC001);
    run(&mut cpu, 1);
    assert_eq!(cpu.get_registers().get_hl(), 0xC000);
    let mem = cpu.get_memory_debug();
    assert_eq!(mem.memory[0xC000], 0x11);
    assert_eq!(mem.memory[0xC001], 0x11);
    run(&mut cpu, 1);
    assert_eq!(cpu.get_registers().get_hl(), 0xC001);
}

#[test]
fn register_to_register_loads() {
    // LD B,0x77 ; LD C,B ; LD A,C
    let mut cpu = boot_with(&[0x06, 0x77, 0x48, 0x79]);
    run(&mut cpu, 3);
    assert_eq!(cpu.get_registers().get_bc(), 0x7777);
    assert_eq!(a_of(&cpu), 0x77);
}

#[test]
fn store_stack_pointer() {
    // LD SP,0xBEEF ; LD (0xC000),SP
    let mut cpu = boot_with(&[0x31, 0xEF, 0xBE, 0x08, 0x00, 0xC0]);
    run(&mut cpu, 2);
    let mem = cpu.get_memory_debug();
    assert_eq!(mem.memory[0xC000], 0xEF);
    assert_eq!(mem.memory[0xC001], 0xBE);
}

#[test]
fn high_memory_loads() {
    // LD A,0x5A ; LDH (0x80),A ; XOR A ; LDH A,(0x80)
    let mut cpu = boot_with(&[0x3E, 0x5A, 0xE0, 0x80, 0xAF, 0xF0, 0x80]);
    run(&mut cpu, 2);
    assert_eq!(cpu.get_memory_debug().memory[0xFF80], 0x5A);
    run(&mut cpu, 2);
    assert_eq!(a_of(&cpu), 0x5A);
}

#[test]
fn stack_pointer_offsets() {
    // LD SP,0x00FF ; ADD SP,0x01
    let mut cpu = boot_with(&[0x31, 0xFF, 0x00, 0xE8, 0x01]);
    run(&mut cpu, 2);
    assert_eq!(cpu.get_registers().get_sp(), 0x0100);
    assert!(flag(&cpu, Flag::H));
    assert!(flag(&cpu, Flag::C));
    assert!(!flag(&cpu, Flag::Z));
    // LD SP,0x1000 ; LD HL,SP+0x22
    let mut cpu = boot_with(&[0x31, 0x00, 0x10, 0xF8, 0x22]);
    run(&mut cpu, 2);
    assert_eq!(cpu.get_registers().get_hl(), 0x1022);
    assert_eq!(cpu.get_registers().get_sp(), 0x1000);
    assert!(!flag(&cpu, Flag::H));
    assert!(!flag(&cpu, Flag::C));
}

#[test]
fn add_to_hl() {
    // LD HL,0x0FFF ; LD BC,0x0001 ; ADD HL,BC
    let mut cpu = boot_with(&[0x21, 0xFF, 0x0F, 0x01, 0x01, 0x00, 0x09]);
    run(&mut cpu, 3);
    assert_eq!(cpu.get_registers().get_hl(), 0x1000);
    assert!(flag(&cpu, Flag::H));
    assert!(!flag(&cpu, Flag::C));
    assert!(!flag(&cpu, Flag::N));
    // LD HL,0xFFFF ; ADD HL,HL
    let mut cpu = boot_with(&[0x21, 0xFF, 0xFF, 0x29]);
    run(&mut cpu, 2);
    assert_eq!(cpu.get_registers().get_hl(), 0xFFFE);
    assert!(flag(&cpu, Flag::C));
}

#[test]
fn interrupt_enable_and_disable() {
    let mut cpu = boot_with(&[0xF3, 0xFB]);
    run(&mut cpu, 1);
    assert!(!cpu.interrupts_enabled());
    run(&mut cpu, 1);
    assert!(cpu.interrupts_enabled());
}

#[test]
fn prefixed_bit_seven_of_h() {
    // LD H,0x80 ; BIT 7,H ; LD H,0x00 ; BIT 7,H
    let mut cpu = boot_with(&[0x26, 0x80, 0xCB, 0x7C, 0x26, 0x00, 0xCB, 0x7C]);
    run(&mut cpu, 2);
    assert!(!flag(&cpu, Flag::Z));
    assert!(!flag(&cpu, Flag::N));
    assert!(!flag(&cpu, Flag::H));
    run(&mut cpu, 2);
    assert!(flag(&cpu, Flag::Z));
}

#[test]
fn stop_ends_the_program() {
    let mut cpu = boot_with(&[0x10]);
    assert_eq!(cpu.tick(), Step::Stop);
    assert_eq!(cpu.get_registers().get_pc(), 0x101);
}

#[test]
fn unfinished_and_unknown_opcodes() {
    let mut cpu = boot_with(&[0x76]);
    assert_eq!(cpu.tick(), Step::Unfinished(0x76));
    let mut cpu = boot_with(&[0xC4]);
    assert_eq!(cpu.tick(), Step::Unfinished(0xC4));
    let mut cpu = boot_with(&[0xCD, 0x00, 0x00]);
    assert_eq!(cpu.tick(), Step::UnknownOpcode(0xCD));
    let mut cpu = boot_with(&[0xCB, 0x11]);
    assert_eq!(cpu.tick(), Step::UnknownPrefixedOpcode(0x11));
    assert_eq!(cpu.get_registers().get_pc(), 0x102);
}

#[test]
fn popping_past_the_top_of_the_stack_faults() {
    // SP is 0xFFFE after boot: POP BC would move it past 0xFFFF
    let mut cpu = boot_with(&[0xC1]);
    let before = cpu.get_registers();
    assert_eq!(cpu.tick(), Step::Fault);
    let after = cpu.get_registers();
    assert_eq!(after.get_pc(), before.get_pc());
    assert_eq!(after.get_sp(), before.get_sp());
}

#[test]
fn fetching_from_an_unbacked_address_faults() {
    // JP 0xFFFF, then the next opcode cannot be read
    let mut cpu = boot_with(&[0xC3, 0xFF, 0xFF]);
    run(&mut cpu, 1);
    assert_eq!(cpu.get_registers().get_pc(), 0xFFFF);
    assert_eq!(cpu.tick(), Step::Fault);
    assert_eq!(cpu.get_registers().get_pc(), 0xFFFF);
}

#[test]
fn writing_to_the_last_address_faults() {
    // LD A,0x01 ; LDH (0xFF),A would store at 0xFFFF
    let mut cpu = boot_with(&[0x3E, 0x01, 0xE0, 0xFF]);
    run(&mut cpu, 1);
    assert_eq!(cpu.tick(), Step::Fault);
    assert_eq!(cpu.get_registers().get_pc(), 0x102);
}

#[test]
fn register_debug_string() {
    let cpu = boot_with(&[0xAB]);
    assert_eq!(
        cpu.get_register_debug_string(),
        "PC: 100, OpCode ab \nRegisters \na: 1, f: b0 \nb: 0 c: 13 \nd: 0 e:d8 \nh:1 l: 4d \nsp: fffe pc: 100"
    );
}

#[test]
fn memory_starts_zeroed_and_reads_back() {
    let mut mem = Memory::new();
    assert_eq!(mem.memory.len(), MEMORY_SIZE);
    assert_eq!(mem.get(0x1234), 0);
    mem.set(0x1234, 0x99);
    assert_eq!(mem.get(0x1234), 0x99);
    assert_eq!(mem.get(0x1235), 0);
}

#[test]
fn create_cpu_loads_the_cartridge() {
    let mut rom = vec![0u8; 256_000];
    rom[0x0000] = 0x11;
    rom[0x0100] = 0x22;
    rom[0x7FFF] = 0x33;
    rom[0x8000] = 0x44;
    let mut cpu = create_cpu(&rom);
    let mem = cpu.get_memory_debug();
    assert_eq!(mem.memory[0x0000], 0x11);
    assert_eq!(mem.memory[0x0100], 0x22);
    assert_eq!(mem.memory[0x7FFF], 0x33);
    assert_eq!(mem.memory[0x8000], 0x00);
    assert_eq!(cpu.get_registers().get_pc(), 0x100);
}

#[test]
fn rrca_undoes_rlca() {
    // LD A,0xB1 ; RLCA ; RRCA
    let mut cpu = boot_with(&[0x3E, 0xB1, 0x07, 0x0F]);
    run(&mut cpu, 2);
    assert_eq!(a_of(&cpu), 0x63);
    run(&mut cpu, 1);
    assert_eq!(a_of(&cpu), 0xB1);
    // C holds the old bit 7; Z, N and H are clear
    assert_eq!(f_of(&cpu), 0x10);
}

#[test]
fn sub_undoes_add() {
    // LD A,0xF0 ; LD B,0x35 ; ADD A,B ; SUB B
    let mut cpu = boot_with(&[0x3E, 0xF0, 0x06, 0x35, 0x80, 0x90]);
    run(&mut cpu, 3);
    assert_eq!(a_of(&cpu), 0x25);
    run(&mut cpu, 1);
    assert_eq!(a_of(&cpu), 0xF0);
}

#[test]
fn dec_undoes_inc_on_pairs() {
    // LD HL,0xFFFF ; INC HL ; DEC HL ; DEC SP ; INC SP
    let mut cpu = boot_with(&[0x21, 0xFF, 0xFF, 0x23, 0x2B, 0x3B, 0x33]);
    run(&mut cpu, 2);
    assert_eq!(cpu.get_registers().get_hl(), 0x0000);
    run(&mut cpu, 1);
    assert_eq!(cpu.get_registers().get_hl(), 0xFFFF);
    run(&mut cpu, 2);
    assert_eq!(cpu.get_registers().get_sp(), 0xFFFE);
}

#[test]
fn add_clears_the_subtract_flag() {
    // LD A,0x05 ; LD B,0x01 ; SUB B ; ADD A,B
    let mut cpu = boot_with(&[0x3E, 0x05, 0x06, 0x01, 0x90, 0x80]);
    run(&mut cpu, 3);
    assert!(flag(&cpu, Flag::N));
    run(&mut cpu, 1);
    assert!(!flag(&cpu, Flag::N));
    assert_eq!(a_of(&cpu), 0x05);
}

#[test]
fn add_with_carry_counts_the_carry_in_the_flags() {
    // C is set at boot, A = 0x01: ADC A,0xFF gives 0x101
    let mut cpu = boot_with(&[0xC6, 0xFF]);
    run(&mut cpu, 1);
    assert_eq!(a_of(&cpu), 0x01);
    assert_eq!(f_of(&cpu), 0x30);
}

#[test]
fn decrement_borrowing_from_the_low_nibble_sets_h() {
    // B is 0 at boot
    let mut cpu = boot_with(&[0x05]);
    run(&mut cpu, 1);
    assert_eq!(cpu.get_registers().get_bc() >> 8, 0xFF);
    assert_eq!(f_of(&cpu), 0x70);
}

#[test]
fn decimal_adjust_with_both_corrections() {
    // XOR A ; LD A,0x58 ; LD B,0x67 ; ADD A,B ; DAA  (58 + 67 = 125)
    let mut cpu = boot_with(&[0xAF, 0x3E, 0x58, 0x06, 0x67, 0x80, 0x27]);
    run(&mut cpu, 5);
    assert_eq!(a_of(&cpu), 0x25);
    assert!(flag(&cpu, Flag::C));
    assert!(!flag(&cpu, Flag::Z));
}

#[test]
fn dec_undoes_inc_on_registers_and_memory() {
    // LD B,0xFF ; INC B ; DEC B ; LD HL,0xC000 ; LD (HL),0x00 ; DEC (HL) ; INC (HL)
    let mut cpu = boot_with(&[0x06, 0xFF, 0x04, 0x05, 0x21, 0x00, 0xC0, 0x36, 0x00, 0x35, 0x34]);
    run(&mut cpu, 2);
    assert_eq!(cpu.get_registers().get_bc() >> 8, 0x00);
    run(&mut cpu, 1);
    assert_eq!(cpu.get_registers().get_bc() >> 8, 0xFF);
    run(&mut cpu, 3);
    assert_eq!(cpu.get_memory_debug().memory[0xC000], 0xFF);
    run(&mut cpu, 1);
    assert_eq!(cpu.get_memory_debug().memory[0xC000], 0x00);
}

#[test]
fn subtract_with_carry_counts_the_carry_in_the_flags() {
    // SCF ; LD A,0x10 ; LD B,0x00 ; SBC A,B  (0x10 - 0 - 1)
    let mut cpu = boot_with(&[0x37, 0x3E, 0x10, 0x06, 0x00, 0x98]);
    run(&mut cpu, 4);
    assert_eq!(a_of(&cpu), 0x0F);
    assert!(!flag(&cpu, Flag::C));
    assert!(flag(&cpu, Flag::H));
    assert!(flag(&cpu, Flag::N));
    assert!(!flag(&cpu, Flag::Z));
    // LD A,0x00 ; LD B,0x00 ; SCF ; SBC A,B borrows past zero
    let mut cpu = boot_with(&[0x3E, 0x00, 0x06, 0x00, 0x37, 0x98]);
    run(&mut cpu, 4);
    assert_eq!(a_of(&cpu), 0xFF);
    assert!(flag(&cpu, Flag::C));
    assert!(flag(&cpu, Flag::H));
}
