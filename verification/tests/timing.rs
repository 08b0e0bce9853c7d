use chip8::{Emulator, EmulatorError, Instruction};

const NO_KEYS: [bool; 16] = [false; 16];

fn boot_at(rate: u32, rom: &[u8]) -> Emulator {
    let mut emulator = Emulator::new(64, 32, rate).unwrap();
    emulator.load_rom(rom).unwrap();
    emulator
}

// V0 = 3, delay = V0, V1 = 2, sound = V1
const SET_TIMERS: [u8; 8] = [0x60, 0x03, 0xF0, 0x15, 0x61, 0x02, 0xF1, 0x18];

fn with_timers() -> Emulator {
    let mut emulator = boot_at(700, &SET_TIMERS);
    for _ in 0..4 {
        emulator.step(&NO_KEYS).unwrap();
    }
    emulator
}

#[test]
fn tick_timers_counts_down_to_zero_and_no_further() {
    let mut emulator = with_timers();
    assert_eq!((emulator.delay_timer(), emulator.sound_timer()), (3, 2));
    emulator.tick_timers();
    assert_eq!((emulator.delay_timer(), emulator.sound_timer()), (2, 1));
    emulator.tick_timers();
    assert_eq!((emulator.delay_timer(), emulator.sound_timer()), (1, 0));
    emulator.tick_timers();
    assert_eq!((emulator.delay_timer(), emulator.sound_timer()), (0, 0));
    emulator.tick_timers();
    assert_eq!((emulator.delay_timer(), emulator.sound_timer()), (0, 0));
}

#[test]
fn beep_follows_the_sound_timer_at_each_tick() {
    let mut emulator = with_timers();
    assert!(!emulator.beep());
    emulator.tick_timers();
    assert!(emulator.beep());
    emulator.tick_timers();
    assert!(emulator.beep());
    emulator.tick_timers();
    assert!(!emulator.beep());
}

#[test]
fn beep_is_not_touched_by_cycles() {
    let mut emulator = boot_at(700, &[0x60, 0x01, 0xF0, 0x18, 0x60, 0x00, 0xF0, 0x18, 0x12, 0x08]);
    emulator.step(&NO_KEYS).unwrap();
    emulator.step(&NO_KEYS).unwrap();
    assert!(!emulator.beep());
    emulator.tick_timers();
    assert!(emulator.beep());
    for _ in 0..10 {
        emulator.step(&NO_KEYS).unwrap();
    }
    assert!(emulator.beep());
}

#[test]
fn update_state_is_one_timer_tick() {
    let mut emulator = with_timers();
    emulator.update_state();
    assert_eq!((emulator.delay_timer(), emulator.sound_timer()), (2, 1));
    assert!(emulator.beep());
    assert_eq!(emulator.program_counter(), 0x208);
}

#[test]
fn a_thousand_cycles_leave_the_timers_alone() {
    // ... then 0x208: V2 += 1; 0x20A: jump 0x208
    let mut rom = SET_TIMERS.to_vec();
    rom.extend_from_slice(&[0x72, 0x01, 0x12, 0x08]);
    let mut emulator = boot_at(700, &rom);
    for _ in 0..4 {
        emulator.step(&NO_KEYS).unwrap();
    }
    emulator.tick_timers();
    let before = (emulator.delay_timer(), emulator.sound_timer(), emulator.beep());
    assert_eq!(before, (2, 1, true));
    for _ in 0..1000 {
        emulator.step(&NO_KEYS).unwrap();
    }
    assert_eq!((emulator.delay_timer(), emulator.sound_timer(), emulator.beep()), before);
    assert_eq!(emulator.register(2), (500 % 256) as u8);
}

#[test]
fn a_thousand_failing_cycles_leave_the_timers_alone() {
    let mut emulator = with_timers();
    emulator.jump(0xFFF);
    for _ in 0..1000 {
        assert_eq!(emulator.step(&NO_KEYS), Err(EmulatorError::MemoryOutOfBounds));
    }
    assert_eq!((emulator.delay_timer(), emulator.sound_timer()), (3, 2));
}

#[test]
fn ticks_do_not_execute_instructions() {
    let mut emulator = boot_at(700, &[0x60, 0x01]);
    for _ in 0..100 {
        emulator.tick_timers();
    }
    assert_eq!(emulator.program_counter(), 0x200);
    assert_eq!(emulator.register(0), 0);
}

#[test]
fn run_for_a_second_does_a_seconds_worth() {
    // 0x200: V0 = 200; 0x202: delay = V0; 0x204: V1 += 1; 0x206: jump 0x204
    let mut emulator = boot_at(500, &[0x60, 0xC8, 0xF0, 0x15, 0x71, 0x01, 0x12, 0x04]);
    emulator.step(&NO_KEYS).unwrap();
    emulator.step(&NO_KEYS).unwrap();
    assert_eq!(emulator.run(1_000_000, &NO_KEYS), Ok(()));
    assert_eq!(emulator.delay_timer(), 140);
    assert_eq!(emulator.register(1), 250);
    assert_eq!(emulator.program_counter(), 0x204);
}

#[test]
fn run_carries_unused_time_over() {
    // V1 += 1, 32 times over
    let rom: Vec<u8> = [0x71, 0x01].repeat(32);
    let mut emulator = boot_at(700, &rom);
    let mut seen = Vec::new();
    for _ in 0..10 {
        emulator.run(1_000, &NO_KEYS).unwrap();
        seen.push(emulator.register(1));
    }
    assert_eq!(seen, vec![0, 1, 2, 2, 3, 4, 4, 5, 6, 7]);
}

#[test]
fn run_ticks_sixty_times_a_second_whatever_the_rate() {
    for rate in [0u32, 1, 700, 1_000_000] {
        let mut emulator = boot_at(rate, &[0x12, 0x00]);
        emulator.execute_instruction(Instruction::Load { x: 0, value: 100 }, &NO_KEYS).unwrap();
        emulator.execute_instruction(Instruction::SetDelay { x: 0 }, &NO_KEYS).unwrap();
        let mut ticks_seen = Vec::new();
        for _ in 0..6 {
            emulator.run(10_000, &NO_KEYS).unwrap();
            ticks_seen.push(100 - emulator.delay_timer());
        }
        assert_eq!(ticks_seen, vec![0, 1, 1, 2, 3, 3]);
    }
}

#[test]
fn run_applies_the_ticks_before_the_cycles() {
    // 0x200: V1 = delay; 0x202: jump 0x202
    let mut emulator = boot_at(100, &[0xF1, 0x07, 0x12, 0x02]);
    emulator.execute_instruction(Instruction::Load { x: 0, value: 9 }, &NO_KEYS).unwrap();
    emulator.execute_instruction(Instruction::SetDelay { x: 0 }, &NO_KEYS).unwrap();
    emulator.run(50_000, &NO_KEYS).unwrap();
    assert_eq!(emulator.delay_timer(), 6);
    assert_eq!(emulator.register(1), 6);
}

#[test]
fn run_with_a_zero_rate_executes_nothing() {
    let mut emulator = boot_at(0, &[0x60, 0x01]);
    assert_eq!(emulator.run(u64::MAX, &NO_KEYS), Ok(()));
    assert_eq!(emulator.program_counter(), 0x200);
    assert_eq!(emulator.register(0), 0);
}

#[test]
fn run_for_no_time_changes_nothing() {
    let mut emulator = with_timers();
    assert_eq!(emulator.run(0, &NO_KEYS), Ok(()));
    assert_eq!((emulator.delay_timer(), emulator.sound_timer()), (3, 2));
    assert!(!emulator.beep());
    assert_eq!(emulator.program_counter(), 0x208);
}

#[test]
fn run_for_a_long_time_runs_the_timers_out() {
    let mut emulator = boot_at(0, &SET_TIMERS);
    emulator.execute_instruction(Instruction::Load { x: 0, value: 255 }, &NO_KEYS).unwrap();
    emulator.execute_instruction(Instruction::SetDelay { x: 0 }, &NO_KEYS).unwrap();
    emulator.execute_instruction(Instruction::SetSound { x: 0 }, &NO_KEYS).unwrap();
    assert_eq!(emulator.run(u64::MAX, &NO_KEYS), Ok(()));
    assert_eq!((emulator.delay_timer(), emulator.sound_timer()), (0, 0));
    assert!(!emulator.beep());
}

#[test]
fn run_reports_the_beep_of_its_last_tick() {
    let mut emulator = boot_at(0, &[]);
    emulator.execute_instruction(Instruction::Load { x: 0, value: 3 }, &NO_KEYS).unwrap();
    emulator.execute_instruction(Instruction::SetSound { x: 0 }, &NO_KEYS).unwrap();
    emulator.run(50_000, &NO_KEYS).unwrap();
    assert_eq!(emulator.sound_timer(), 0);
    assert!(emulator.beep());
    emulator.run(16_667, &NO_KEYS).unwrap();
    assert!(!emulator.beep());
}

#[test]
fn run_stops_at_the_first_cycle_that_fails() {
    // V0 = 1; unknown word; V0 = 2
    let mut emulator = boot_at(1_000, &[0x60, 0x01, 0x50, 0x01, 0x60, 0x02]);
    emulator.execute_instruction(Instruction::Load { x: 5, value: 50 }, &NO_KEYS).unwrap();
    emulator.execute_instruction(Instruction::SetDelay { x: 5 }, &NO_KEYS).unwrap();
    assert_eq!(emulator.run(100_000, &NO_KEYS), Err(EmulatorError::UnknownOpcode(0x5001)));
    assert_eq!(emulator.register(0), 1);
    assert_eq!(emulator.program_counter(), 0x204);
    assert_eq!(emulator.delay_timer(), 44);
    assert_eq!(emulator.run(1_000, &NO_KEYS), Ok(()));
    assert_eq!(emulator.register(0), 2);
}

#[test]
fn run_hands_the_keys_to_every_cycle() {
    let mut keys = [false; 16];
    keys[4] = true;
    // V0 = wait for key; V1 = 4; skip if key V1 down; V2 = 1; V3 = 1; jump here
    let mut emulator = boot_at(
        1_000,
        &[0xF0, 0x0A, 0x61, 0x04, 0xE1, 0x9E, 0x62, 0x01, 0x63, 0x01, 0x12, 0x0A],
    );
    emulator.run(10_000, &NO_KEYS).unwrap();
    assert_eq!(emulator.program_counter(), 0x200);
    emulator.run(10_000, &keys).unwrap();
    assert_eq!(emulator.register(0), 4);
    assert_eq!(emulator.register(2), 0);
    assert_eq!(emulator.register(3), 1);
}

#[test]
fn load_rom_drops_the_time_carried_over() {
    let rom: Vec<u8> = [0x71, 0x01].repeat(8);
    let mut emulator = boot_at(700, &rom);
    emulator.run(1_000, &NO_KEYS).unwrap();
    assert_eq!(emulator.register(1), 0);
    emulator.load_rom(&rom).unwrap();
    emulator.run(1_000, &NO_KEYS).unwrap();
    assert_eq!(emulator.register(1), 0);
    emulator.run(1_000, &NO_KEYS).unwrap();
    assert_eq!(emulator.register(1), 1);
}
