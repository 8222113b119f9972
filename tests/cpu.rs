use cheap8::cpu::{MEMORY_SIZE, START_PC};
use cheap8::{Cpu, CpuError, PIXELS};

const NO_KEYS: [bool; 16] = [false; 16];

fn boot(rom: &[u8]) -> Cpu {
    let mut cpu = Cpu::new();
    cpu.reset();
    cpu.load(rom);
    cpu
}

fn run(cpu: &mut Cpu, steps: usize) {
    for _ in 0..steps {
        assert!(cpu.step(&NO_KEYS, 0).is_ok());
    }
}

fn step_error(cpu: &mut Cpu) -> CpuError {
    match cpu.step(&NO_KEYS, 0) {
        Ok(_) => panic!("the step should have failed"),
        Err(e) => e,
    }
}

#[test]
fn load_immediate_sets_register() {
    for x in 0..16u8 {
        for nn in [0u8, 5, 0x7F, 0xFF] {
            let mut cpu = boot(&[0x60 | x, nn]);
            let out = cpu.step(&NO_KEYS, 0).unwrap();
            assert!(!out.screen_update);
            assert!(!out.beep);
            assert_eq!(cpu.register(x as usize), nn);
            assert_eq!(cpu.pc(), START_PC + 2);
        }
    }
}

#[test]
fn add_immediate_wraps() {
    let mut cpu = boot(&[0x60, 250, 0x70, 10]);
    run(&mut cpu, 2);
    assert_eq!(cpu.register(0), 4);
}

#[test]
fn subtract_with_borrow() {
    let mut cpu = boot(&[0x60, 3, 0x61, 5, 0x80, 0x15]);
    run(&mut cpu, 3);
    assert_eq!(cpu.register(0), 254);
    assert_eq!(cpu.register(0xF), 0);
}

#[test]
fn subtract_without_borrow() {
    let mut cpu = boot(&[0x60, 5, 0x61, 3, 0x80, 0x15]);
    run(&mut cpu, 3);
    assert_eq!(cpu.register(0), 2);
    assert_eq!(cpu.register(0xF), 1);
}

#[test]
fn reverse_subtract_sets_flag() {
    let mut cpu = boot(&[0x60, 5, 0x61, 3, 0x80, 0x17]);
    run(&mut cpu, 3);
    assert_eq!(cpu.register(0), 254);
    assert_eq!(cpu.register(0xF), 0);
}

#[test]
fn add_registers_sets_carry() {
    let mut cpu = boot(&[0x60, 200, 0x61, 100, 0x80, 0x14, 0x82, 0x14]);
    run(&mut cpu, 3);
    assert_eq!(cpu.register(0), 44);
    assert_eq!(cpu.register(0xF), 1);
    run(&mut cpu, 1);
    assert_eq!(cpu.register(2), 100);
    assert_eq!(cpu.register(0xF), 0);
}

#[test]
fn shifts_set_raw_flag() {
    let mut cpu = boot(&[0x60, 0x81, 0x80, 0x0E, 0x61, 0x03, 0x81, 0x06]);
    run(&mut cpu, 2);
    assert_eq!(cpu.register(0), 0x02);
    assert_eq!(cpu.register(0xF), 0x80);
    run(&mut cpu, 2);
    assert_eq!(cpu.register(1), 0x01);
    assert_eq!(cpu.register(0xF), 1);
}

#[test]
fn bitwise_operations() {
    let mut cpu = boot(&[
        0x60, 0b1100, 0x61, 0b1010, 0x82, 0x00, 0x82, 0x11, 0x83, 0x00, 0x83, 0x12, 0x84, 0x00,
        0x84, 0x13,
    ]);
    run(&mut cpu, 8);
    assert_eq!(cpu.register(2), 0b1110);
    assert_eq!(cpu.register(3), 0b1000);
    assert_eq!(cpu.register(4), 0b0110);
}

#[test]
fn draw_same_sprite_twice_collides() {
    // I = 0x20A, draw the one-row sprite there twice at (0, 0).
    let mut cpu = boot(&[0xA2, 0x0A, 0xD0, 0x01, 0xD0, 0x01, 0x00, 0x00, 0x00, 0x00, 0xF0]);
    run(&mut cpu, 2);
    assert_eq!(cpu.register(0xF), 0);
    assert!(cpu.display().get()[0..4].iter().all(|p| *p));
    let out = cpu.step(&NO_KEYS, 0).unwrap();
    assert!(out.screen_update);
    assert!(out.screen.iter().all(|p| !*p));
    assert_eq!(cpu.register(0xF), 1);
}

#[test]
fn draw_disjoint_sprites_does_not_collide() {
    // V1 = 8: the second copy lands right of the first.
    let mut cpu = boot(&[0xA2, 0x0A, 0xD0, 0x01, 0x61, 0x08, 0xD1, 0x01, 0x00, 0x00, 0xF0]);
    run(&mut cpu, 4);
    assert_eq!(cpu.register(0xF), 0);
    let lit = cpu.display().get().iter().filter(|p| **p).count();
    assert_eq!(lit, 8);
}

#[test]
fn timers_count_down_once_per_step() {
    // V0 = 5; delay = V0; sound = V0; then jump to self.
    let mut cpu = boot(&[0x60, 0x05, 0xF0, 0x15, 0xF0, 0x18, 0x12, 0x06]);
    run(&mut cpu, 2);
    assert_eq!(cpu.delay_timer(), 5);
    let out = cpu.step(&NO_KEYS, 0).unwrap();
    assert!(!out.beep);
    assert_eq!(cpu.delay_timer(), 4);
    assert_eq!(cpu.sound_timer(), 5);
    let mut delays = Vec::new();
    for _ in 0..5 {
        let out = cpu.step(&NO_KEYS, 0).unwrap();
        assert!(out.beep);
        delays.push(cpu.delay_timer());
    }
    assert_eq!(delays, vec![3, 2, 1, 0, 0]);
    assert_eq!(cpu.sound_timer(), 0);
    let out = cpu.step(&NO_KEYS, 0).unwrap();
    assert!(!out.beep);
    assert_eq!(cpu.sound_timer(), 0);
    assert_eq!(cpu.delay_timer(), 0);
}

#[test]
fn delay_timer_reads_five_down_to_zero() {
    // V0 = 5; delay = V0; then V1 = delay, five times, and once more.
    let mut cpu = boot(&[
        0x60, 0x05, 0xF0, 0x15, 0xF1, 0x07, 0xF1, 0x07, 0xF1, 0x07, 0xF1, 0x07, 0xF1, 0x07,
        0xF1, 0x07,
    ]);
    run(&mut cpu, 2);
    let mut seen = Vec::new();
    for _ in 0..6 {
        run(&mut cpu, 1);
        seen.push(cpu.register(1));
    }
    assert_eq!(seen, vec![4, 3, 2, 1, 0, 0]);
}

#[test]
fn wait_for_key_repeats_until_pressed() {
    let mut cpu = boot(&[0xF0, 0x0A]);
    for _ in 0..3 {
        run(&mut cpu, 1);
        assert_eq!(cpu.pc(), START_PC);
    }
    let mut keys = [false; 16];
    keys[3] = true;
    keys[9] = true;
    assert!(cpu.step(&keys, 0).is_ok());
    assert_eq!(cpu.register(0), 3);
    assert_eq!(cpu.pc(), START_PC + 2);
}

#[test]
fn end_to_end_program() {
    let mut cpu = boot(&[0x00, 0xE0, 0x60, 0x05, 0x70, 0x03]);
    let out = cpu.step(&NO_KEYS, 0).unwrap();
    assert!(out.screen_update);
    run(&mut cpu, 2);
    assert!(cpu.display().get().iter().all(|p| !*p));
    assert_eq!(cpu.register(0), 8);
    assert_eq!(cpu.pc(), 0x206);
}

#[test]
fn new_machine_is_zeroed() {
    let cpu = Cpu::new();
    assert_eq!(cpu.pc(), 0);
    assert_eq!(cpu.index(), 0);
    assert_eq!(cpu.stack_depth(), 0);
    assert_eq!(cpu.memory_at(0), 0);
    assert_eq!(cpu.display().get().len(), PIXELS);
}

#[test]
fn reset_loads_font() {
    let mut cpu = Cpu::new();
    cpu.reset();
    assert_eq!(cpu.pc(), START_PC);
    assert_eq!(cpu.memory_at(0), 0xF0);
    assert_eq!(cpu.memory_at(5), 0x20);
    assert_eq!(cpu.memory_at(79), 0x80);
    assert_eq!(cpu.memory_at(80), 0);
}

#[test]
fn load_truncates_at_end_of_memory() {
    let rom: Vec<u8> = (0..4000u32).map(|i| (i % 251) as u8 + 1).collect();
    let cpu = boot(&rom);
    assert_eq!(cpu.memory_at(0x200), rom[0]);
    assert_eq!(cpu.memory_at(MEMORY_SIZE - 1), rom[3583]);
    assert_eq!(cpu.memory_at(0x1FF), 0);
}

#[test]
fn call_and_return() {
    // call 0x206; (0x202) V0 = 1; (0x204) jump self; (0x206) V1 = 2; return.
    let mut cpu = boot(&[0x22, 0x06, 0x60, 0x01, 0x12, 0x04, 0x61, 0x02, 0x00, 0xEE]);
    run(&mut cpu, 1);
    assert_eq!(cpu.pc(), 0x206);
    assert_eq!(cpu.stack_depth(), 1);
    run(&mut cpu, 2);
    assert_eq!(cpu.pc(), 0x202);
    assert_eq!(cpu.stack_depth(), 0);
    run(&mut cpu, 1);
    assert_eq!(cpu.register(0), 1);
    assert_eq!(cpu.register(1), 2);
}

#[test]
fn skips_and_jumps() {
    // V0 = 7; skip if V0 == 7; (skipped) V1 = 1; skip if V0 != 7; V2 = 2; V3 = 1; jump 0x300 + V0.
    let mut cpu = boot(&[
        0x60, 0x07, 0x30, 0x07, 0x61, 0x01, 0x40, 0x07, 0x62, 0x02, 0x63, 0x01, 0xB3, 0x00,
    ]);
    run(&mut cpu, 6);
    assert_eq!(cpu.register(1), 0);
    assert_eq!(cpu.register(2), 2);
    assert_eq!(cpu.pc(), 0x307);
}

#[test]
fn register_skips() {
    // V0 = 1; V1 = 1; skip if V0 == V1; (skipped) V2 = 9; skip if V0 != V1; V3 = 4.
    let mut cpu = boot(&[
        0x60, 0x01, 0x61, 0x01, 0x50, 0x10, 0x62, 0x09, 0x90, 0x10, 0x63, 0x04,
    ]);
    run(&mut cpu, 5);
    assert_eq!(cpu.register(2), 0);
    assert_eq!(cpu.register(3), 4);
}

#[test]
fn key_skips() {
    // V0 = 2; skip if key V0; (skipped when pressed) V1 = 1; skip if not key V0; V2 = 2.
    let mut cpu = boot(&[0x60, 0x02, 0xE0, 0x9E, 0x61, 0x01, 0xE0, 0xA1, 0x62, 0x02]);
    let mut keys = [false; 16];
    keys[2] = true;
    for _ in 0..4 {
        assert!(cpu.step(&keys, 0).is_ok());
    }
    assert_eq!(cpu.register(1), 0);
    assert_eq!(cpu.register(2), 2);
}

#[test]
fn random_is_masked() {
    let mut cpu = boot(&[0xC0, 0x0F, 0xC1, 0xF0]);
    assert!(cpu.step(&NO_KEYS, 0xAB).is_ok());
    assert_eq!(cpu.register(0), 0x0B);
    assert!(cpu.cycle(&NO_KEYS).is_ok());
    assert_eq!(cpu.register(1) & 0x0F, 0);
}

#[test]
fn index_instructions() {
    // V0 = 0xA; I = font glyph of V0; I += V0; I = 0x123.
    let mut cpu = boot(&[0x60, 0x0A, 0xF0, 0x29, 0xF0, 0x1E, 0xA1, 0x23]);
    run(&mut cpu, 2);
    assert_eq!(cpu.index(), 50);
    run(&mut cpu, 1);
    assert_eq!(cpu.index(), 60);
    run(&mut cpu, 1);
    assert_eq!(cpu.index(), 0x123);
}

#[test]
fn store_decimal_digits() {
    let mut cpu = boot(&[0x60, 234, 0xA3, 0x00, 0xF0, 0x33]);
    run(&mut cpu, 3);
    assert_eq!(cpu.memory_at(0x300), 2);
    assert_eq!(cpu.memory_at(0x301), 3);
    assert_eq!(cpu.memory_at(0x302), 4);
}

#[test]
fn store_and_load_registers() {
    // V0..V2 = 1, 2, 3; I = 0x300; store V0..V2; V0..V2 = 0; load V0..V1.
    let mut cpu = boot(&[
        0x60, 1, 0x61, 2, 0x62, 3, 0xA3, 0x00, 0xF2, 0x55, 0x60, 0, 0x61, 0, 0x62, 0, 0xF1, 0x65,
    ]);
    run(&mut cpu, 5);
    assert_eq!(cpu.memory_at(0x300), 1);
    assert_eq!(cpu.memory_at(0x302), 3);
    assert_eq!(cpu.memory_at(0x303), 0);
    run(&mut cpu, 4);
    assert_eq!(cpu.register(0), 1);
    assert_eq!(cpu.register(1), 2);
    assert_eq!(cpu.register(2), 0);
}

#[test]
fn unknown_instruction_is_an_error() {
    let mut cpu = boot(&[0x01, 0x23]);
    assert_eq!(step_error(&mut cpu), CpuError::UnknownInstruction(0x0123));
    assert_eq!(cpu.pc(), START_PC);
    let mut cpu = boot(&[0x51, 0x21]);
    assert_eq!(step_error(&mut cpu), CpuError::UnknownInstruction(0x5121));
}

#[test]
fn return_without_call_underflows() {
    let mut cpu = boot(&[0x00, 0xEE]);
    assert_eq!(step_error(&mut cpu), CpuError::StackUnderflow);
    assert_eq!(cpu.pc(), START_PC);
}

#[test]
fn seventeenth_call_overflows() {
    let mut cpu = boot(&[0x22, 0x00]);
    run(&mut cpu, 16);
    assert_eq!(cpu.stack_depth(), 16);
    assert_eq!(step_error(&mut cpu), CpuError::StackOverflow);
    assert_eq!(cpu.stack_depth(), 16);
}

#[test]
fn fetch_past_memory_is_an_error() {
    let mut cpu = boot(&[0x1F, 0xFF]);
    run(&mut cpu, 1);
    assert_eq!(cpu.pc(), 0xFFF);
    assert_eq!(step_error(&mut cpu), CpuError::MemoryAccessViolation);
}

#[test]
fn access_through_index_past_memory_is_an_error() {
    let mut cpu = boot(&[0xAF, 0xFE, 0xF0, 0x33]);
    run(&mut cpu, 1);
    assert_eq!(step_error(&mut cpu), CpuError::MemoryAccessViolation);
    let mut cpu = boot(&[0xAF, 0xFF, 0x60, 0x01, 0xF0, 0x1E]);
    run(&mut cpu, 2);
    assert_eq!(step_error(&mut cpu), CpuError::MemoryAccessViolation);
    assert_eq!(cpu.index(), 0xFFF);
    let mut cpu = boot(&[0xAF, 0xFC, 0xD0, 0x05]);
    run(&mut cpu, 1);
    assert_eq!(step_error(&mut cpu), CpuError::MemoryAccessViolation);
}

#[test]
fn key_register_out_of_range_is_an_error() {
    let mut cpu = boot(&[0x60, 0x10, 0xE0, 0x9E]);
    run(&mut cpu, 1);
    assert_eq!(step_error(&mut cpu), CpuError::InvalidKey(0x10));
}
