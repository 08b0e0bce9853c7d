use chip8::{Emulator, EmulatorError, Instruction};

const NO_KEYS: [bool; 16] = [false; 16];

fn boot(rom: &[u8]) -> Emulator {
    let mut emulator = Emulator::new(64, 32, 700).unwrap();
    emulator.load_rom(rom).unwrap();
    emulator
}

fn run_all(rom: &[u8]) -> Emulator {
    let mut emulator = boot(rom);
    for _ in 0..rom.len() / 2 {
        emulator.step(&NO_KEYS).unwrap();
    }
    emulator
}

fn keys_down(down: &[usize]) -> [bool; 16] {
    let mut keys = [false; 16];
    for &key in down {
        keys[key] = true;
    }
    keys
}

#[test]
fn sys_is_ignored() {
    let emulator = run_all(&[0x01, 0x23]);
    assert_eq!(emulator.program_counter(), 0x202);
    assert_eq!(emulator.stack_depth(), 0);
}

#[test]
fn jump_sets_the_program_counter() {
    let emulator = run_all(&[0x1A, 0xBC]);
    assert_eq!(emulator.program_counter(), 0xABC);
}

#[test]
fn load_puts_the_byte_in_the_register() {
    let emulator = run_all(&[0x6B, 0x7F]);
    assert_eq!(emulator.register(0xB), 0x7F);
}

#[test]
fn add_immediate_wraps_and_leaves_the_flag() {
    let emulator = run_all(&[0x63, 0xFF, 0x73, 0x02]);
    assert_eq!(emulator.register(3), 0x01);
    assert_eq!(emulator.register(0xF), 0);
}

#[test]
fn add_immediate_without_wrap() {
    let emulator = run_all(&[0x63, 0x10, 0x73, 0x22]);
    assert_eq!(emulator.register(3), 0x32);
}

#[test]
fn copy_takes_the_other_register() {
    let emulator = run_all(&[0x61, 0x44, 0x82, 0x10]);
    assert_eq!(emulator.register(2), 0x44);
    assert_eq!(emulator.register(1), 0x44);
}

#[test]
fn or_and_xor_combine_bit_by_bit() {
    let or = run_all(&[0x60, 0xF0, 0x61, 0x3C, 0x80, 0x11]);
    assert_eq!(or.register(0), 0xFC);
    let and = run_all(&[0x60, 0xF0, 0x61, 0x3C, 0x80, 0x12]);
    assert_eq!(and.register(0), 0x30);
    let xor = run_all(&[0x60, 0xF0, 0x61, 0x3C, 0x80, 0x13]);
    assert_eq!(xor.register(0), 0xCC);
    assert_eq!(or.register(0xF), 0);
    assert_eq!(and.register(0xF), 0);
    assert_eq!(xor.register(0xF), 0);
}

#[test]
fn add_wraps_around_and_sets_the_carry() {
    let emulator = run_all(&[0x60, 0xFF, 0x61, 0x02, 0x80, 0x14]);
    assert_eq!(emulator.register(0), 0x01);
    assert_eq!(emulator.register(0xF), 1);
    assert_eq!(emulator.register(1), 0x02);
}

#[test]
fn add_without_carry_clears_the_flag() {
    let emulator = run_all(&[0x6F, 0x01, 0x60, 0x10, 0x61, 0x20, 0x80, 0x14]);
    assert_eq!(emulator.register(0), 0x30);
    assert_eq!(emulator.register(0xF), 0);
}

#[test]
fn add_up_to_255_does_not_carry() {
    let emulator = run_all(&[0x60, 0xFE, 0x61, 0x01, 0x80, 0x14]);
    assert_eq!(emulator.register(0), 0xFF);
    assert_eq!(emulator.register(0xF), 0);
}

#[test]
fn add_up_to_256_carries() {
    let emulator = run_all(&[0x60, 0xFF, 0x61, 0x01, 0x80, 0x14]);
    assert_eq!(emulator.register(0), 0x00);
    assert_eq!(emulator.register(0xF), 1);
}

#[test]
fn add_into_the_flag_register_keeps_the_carry_not_the_sum() {
    let emulator = run_all(&[0x6F, 0x10, 0x61, 0x20, 0x8F, 0x14]);
    assert_eq!(emulator.register(0xF), 0);
    let carried = run_all(&[0x6F, 0xF0, 0x61, 0x20, 0x8F, 0x14]);
    assert_eq!(carried.register(0xF), 1);
}

#[test]
fn subtract_with_borrow_wraps_and_clears_the_flag() {
    let emulator = run_all(&[0x60, 0x01, 0x61, 0x02, 0x80, 0x15]);
    assert_eq!(emulator.register(0), 0xFF);
    assert_eq!(emulator.register(0xF), 0);
}

#[test]
fn subtract_without_borrow_sets_the_flag() {
    let emulator = run_all(&[0x60, 0x05, 0x61, 0x03, 0x80, 0x15]);
    assert_eq!(emulator.register(0), 0x02);
    assert_eq!(emulator.register(0xF), 1);
}

#[test]
fn subtract_of_equals_borrows_nothing() {
    let emulator = run_all(&[0x60, 0x07, 0x61, 0x07, 0x80, 0x15]);
    assert_eq!(emulator.register(0), 0x00);
    assert_eq!(emulator.register(0xF), 1);
}

#[test]
fn subtract_from_takes_the_other_order() {
    let emulator = run_all(&[0x60, 0x03, 0x61, 0x05, 0x80, 0x17]);
    assert_eq!(emulator.register(0), 0x02);
    assert_eq!(emulator.register(0xF), 1);
    let borrowed = run_all(&[0x60, 0x05, 0x61, 0x03, 0x80, 0x17]);
    assert_eq!(borrowed.register(0), 0xFE);
    assert_eq!(borrowed.register(0xF), 0);
    assert_eq!(borrowed.register(1), 0x03);
}

#[test]
fn shift_right_halves_the_register_itself() {
    let odd = run_all(&[0x60, 0x05, 0x61, 0xF0, 0x80, 0x16]);
    assert_eq!(odd.register(0), 0x02);
    assert_eq!(odd.register(0xF), 1);
    assert_eq!(odd.register(1), 0xF0);
    let even = run_all(&[0x60, 0x04, 0x61, 0xFF, 0x80, 0x16]);
    assert_eq!(even.register(0), 0x02);
    assert_eq!(even.register(0xF), 0);
}

#[test]
fn shift_left_doubles_the_register_itself() {
    let high = run_all(&[0x60, 0x81, 0x61, 0x01, 0x80, 0x1E]);
    assert_eq!(high.register(0), 0x02);
    assert_eq!(high.register(0xF), 1);
    assert_eq!(high.register(1), 0x01);
    let low = run_all(&[0x60, 0x41, 0x61, 0xFF, 0x80, 0x1E]);
    assert_eq!(low.register(0), 0x82);
    assert_eq!(low.register(0xF), 0);
}

#[test]
fn skip_if_equal_skips_one_instruction() {
    let taken = run_all(&[0x64, 0x2A, 0x34, 0x2A]);
    assert_eq!(taken.program_counter(), 0x206);
    let not_taken = run_all(&[0x64, 0x2A, 0x34, 0x2B]);
    assert_eq!(not_taken.program_counter(), 0x204);
}

#[test]
fn skip_if_not_equal_skips_one_instruction() {
    let taken = run_all(&[0x64, 0x2A, 0x44, 0x2B]);
    assert_eq!(taken.program_counter(), 0x206);
    let not_taken = run_all(&[0x64, 0x2A, 0x44, 0x2A]);
    assert_eq!(not_taken.program_counter(), 0x204);
}

#[test]
fn skip_if_registers_equal_skips_one_instruction() {
    let taken = run_all(&[0x61, 0x09, 0x62, 0x09, 0x51, 0x20]);
    assert_eq!(taken.program_counter(), 0x208);
    let not_taken = run_all(&[0x61, 0x09, 0x62, 0x08, 0x51, 0x20]);
    assert_eq!(not_taken.program_counter(), 0x206);
}

#[test]
fn skip_if_registers_not_equal_skips_one_instruction() {
    let taken = run_all(&[0x61, 0x09, 0x62, 0x08, 0x91, 0x20]);
    assert_eq!(taken.program_counter(), 0x208);
    let not_taken = run_all(&[0x61, 0x09, 0x62, 0x09, 0x91, 0x20]);
    assert_eq!(not_taken.program_counter(), 0x206);
}

#[test]
fn skipped_instruction_is_not_executed() {
    let mut emulator = boot(&[0x30, 0x00, 0x61, 0x11, 0x62, 0x22]);
    emulator.step(&NO_KEYS).unwrap();
    emulator.step(&NO_KEYS).unwrap();
    assert_eq!(emulator.register(1), 0);
    assert_eq!(emulator.register(2), 0x22);
}

#[test]
fn load_index_sets_the_address_register() {
    let emulator = run_all(&[0xAF, 0xED]);
    assert_eq!(emulator.index_register(), 0xFED);
}

#[test]
fn jump_offset_adds_the_first_register() {
    let emulator = run_all(&[0x60, 0x10, 0xB3, 0x00]);
    assert_eq!(emulator.program_counter(), 0x310);
    let far = run_all(&[0x60, 0xFF, 0xBF, 0xFF]);
    assert_eq!(far.program_counter(), 0x10FE);
}

#[test]
fn random_follows_the_generator_and_the_mask() {
    let emulator = run_all(&[0xC0, 0xFF, 0xC1, 0xFF, 0xC2, 0x0F, 0xC3, 0xF0]);
    assert_eq!(emulator.register(0), 0x06);
    assert_eq!(emulator.register(1), 0xA0);
    assert_eq!(emulator.register(2), 0x04);
    assert_eq!(emulator.register(3), 0x90);
}

#[test]
fn random_with_a_zero_mask_is_zero() {
    let emulator = run_all(&[0x60, 0x55, 0xC0, 0x00]);
    assert_eq!(emulator.register(0), 0);
}

#[test]
fn seed_random_restarts_the_generator() {
    let mut emulator = boot(&[0xC0, 0xFF, 0xC1, 0xFF]);
    emulator.seed_random(0);
    emulator.step(&NO_KEYS).unwrap();
    assert_eq!(emulator.register(0), 0x36);
    emulator.seed_random(0);
    emulator.step(&NO_KEYS).unwrap();
    assert_eq!(emulator.register(1), 0x36);
}

#[test]
fn skip_if_key_down_reads_the_key_named_by_the_register() {
    let mut emulator = boot(&[0x61, 0x0A, 0xE1, 0x9E]);
    emulator.step(&NO_KEYS).unwrap();
    emulator.step(&keys_down(&[0xA])).unwrap();
    assert_eq!(emulator.program_counter(), 0x206);

    let mut other = boot(&[0x61, 0x0A, 0xE1, 0x9E]);
    other.step(&NO_KEYS).unwrap();
    other.step(&keys_down(&[0x9, 0xB])).unwrap();
    assert_eq!(other.program_counter(), 0x204);
}

#[test]
fn skip_if_key_up_reads_the_key_named_by_the_register() {
    let mut emulator = boot(&[0x61, 0x0A, 0xE1, 0xA1]);
    emulator.step(&NO_KEYS).unwrap();
    emulator.step(&keys_down(&[0x9, 0xB])).unwrap();
    assert_eq!(emulator.program_counter(), 0x206);

    let mut other = boot(&[0x61, 0x0A, 0xE1, 0xA1]);
    other.step(&NO_KEYS).unwrap();
    other.step(&keys_down(&[0xA])).unwrap();
    assert_eq!(other.program_counter(), 0x204);
}

#[test]
fn key_instructions_use_the_low_digit_of_the_register() {
    let mut emulator = boot(&[0x61, 0x3A, 0xE1, 0x9E]);
    emulator.step(&NO_KEYS).unwrap();
    emulator.step(&keys_down(&[0xA])).unwrap();
    assert_eq!(emulator.program_counter(), 0x206);
}

#[test]
fn read_delay_copies_the_timer() {
    let mut emulator = boot(&[0x60, 0x09, 0xF0, 0x15, 0xF3, 0x07]);
    emulator.step(&NO_KEYS).unwrap();
    emulator.step(&NO_KEYS).unwrap();
    emulator.tick_timers();
    emulator.step(&NO_KEYS).unwrap();
    assert_eq!(emulator.register(3), 8);
}

#[test]
fn set_delay_and_set_sound_copy_the_register() {
    let emulator = run_all(&[0x60, 0x09, 0x61, 0x21, 0xF0, 0x15, 0xF1, 0x18]);
    assert_eq!(emulator.delay_timer(), 0x09);
    assert_eq!(emulator.sound_timer(), 0x21);
    assert!(!emulator.beep());
}

#[test]
fn wait_for_key_repeats_until_a_key_is_down() {
    let mut emulator = boot(&[0xF5, 0x0A, 0x61, 0x01]);
    for _ in 0..3 {
        assert_eq!(emulator.step(&NO_KEYS), Ok(()));
        assert_eq!(emulator.program_counter(), 0x200);
        assert_eq!(emulator.register(5), 0);
    }
    assert_eq!(emulator.step(&keys_down(&[7, 3, 12])), Ok(()));
    assert_eq!(emulator.register(5), 3);
    assert_eq!(emulator.program_counter(), 0x202);
}

#[test]
fn wait_for_key_sees_the_highest_key() {
    let mut emulator = boot(&[0xF5, 0x0A]);
    emulator.step(&keys_down(&[15])).unwrap();
    assert_eq!(emulator.register(5), 15);
    assert_eq!(emulator.program_counter(), 0x202);
}

#[test]
fn add_to_index_adds_the_register() {
    let emulator = run_all(&[0xA1, 0x00, 0x60, 0x25, 0xF0, 0x1E]);
    assert_eq!(emulator.index_register(), 0x125);
    assert_eq!(emulator.register(0xF), 0);
}

#[test]
fn add_to_index_wraps_at_sixteen_bits() {
    // 0x200: I = 0xFFF; 0x202: V0 = 0xFF; 0x204: I += V0; 0x206: jump 0x204
    let mut emulator = boot(&[0xAF, 0xFF, 0x60, 0xFF, 0xF0, 0x1E, 0x12, 0x04]);
    emulator.step(&NO_KEYS).unwrap();
    emulator.step(&NO_KEYS).unwrap();
    for _ in 0..240 {
        emulator.step(&NO_KEYS).unwrap();
        emulator.step(&NO_KEYS).unwrap();
    }
    assert_eq!(emulator.index_register(), 0xFFF + 240 * 255);
    emulator.step(&NO_KEYS).unwrap();
    assert_eq!(emulator.index_register(), 14);
}

#[test]
fn load_glyph_points_at_the_digit() {
    let emulator = run_all(&[0x60, 0x0A, 0xF0, 0x29]);
    assert_eq!(emulator.index_register(), 0x50 + 5 * 10);
    let zero = run_all(&[0x60, 0x00, 0xF0, 0x29]);
    assert_eq!(zero.index_register(), 0x50);
    let low_digit = run_all(&[0x60, 0x3F, 0xF0, 0x29]);
    assert_eq!(low_digit.index_register(), 0x50 + 5 * 15);
}

#[test]
fn store_decimal_writes_three_digits() {
    let emulator = run_all(&[0xA3, 0x00, 0x60, 0xFE, 0xF0, 0x33]);
    assert_eq!(emulator.read_memory(0x300), Ok(2));
    assert_eq!(emulator.read_memory(0x301), Ok(5));
    assert_eq!(emulator.read_memory(0x302), Ok(4));
    assert_eq!(emulator.read_memory(0x303), Ok(0));
    assert_eq!(emulator.index_register(), 0x300);
    let small = run_all(&[0xA3, 0x00, 0x60, 0x07, 0xF0, 0x33]);
    assert_eq!(small.read_memory(0x300), Ok(0));
    assert_eq!(small.read_memory(0x301), Ok(0));
    assert_eq!(small.read_memory(0x302), Ok(7));
}

#[test]
fn store_decimal_is_bounds_checked() {
    let mut fits = boot(&[0xAF, 0xFD, 0x60, 0x7B, 0xF0, 0x33]);
    fits.step(&NO_KEYS).unwrap();
    fits.step(&NO_KEYS).unwrap();
    assert_eq!(fits.step(&NO_KEYS), Ok(()));
    assert_eq!(fits.read_memory(0xFFD), Ok(1));
    assert_eq!(fits.read_memory(0xFFE), Ok(2));
    assert_eq!(fits.read_memory(0xFFF), Ok(3));

    let mut overruns = boot(&[0xAF, 0xFE, 0x60, 0x7B, 0xF0, 0x33]);
    overruns.step(&NO_KEYS).unwrap();
    overruns.step(&NO_KEYS).unwrap();
    assert_eq!(overruns.step(&NO_KEYS), Err(EmulatorError::MemoryOutOfBounds));
    assert_eq!(overruns.read_memory(0xFFE), Ok(0));
    assert_eq!(overruns.read_memory(0xFFF), Ok(0));
    assert_eq!(overruns.program_counter(), 0x206);
}

#[test]
fn store_registers_copies_up_to_the_named_register() {
    let emulator = run_all(
        &[0x60, 0x11, 0x61, 0x22, 0x62, 0x33, 0x63, 0x44, 0xA3, 0x00, 0xF2, 0x55],
    );
    assert_eq!(emulator.read_memory(0x300), Ok(0x11));
    assert_eq!(emulator.read_memory(0x301), Ok(0x22));
    assert_eq!(emulator.read_memory(0x302), Ok(0x33));
    assert_eq!(emulator.read_memory(0x303), Ok(0));
    assert_eq!(emulator.index_register(), 0x300);
}

#[test]
fn load_registers_copies_up_to_the_named_register() {
    // 0x200: I = 0x208; 0x202: V3 = 9; 0x204: load V0..=V2; 0x208: data
    let mut emulator =
        boot(&[0xA2, 0x08, 0x63, 0x09, 0xF2, 0x65, 0x00, 0x00, 0xAA, 0xBB, 0xCC, 0xDD]);
    for _ in 0..3 {
        emulator.step(&NO_KEYS).unwrap();
    }
    assert_eq!(emulator.register(0), 0xAA);
    assert_eq!(emulator.register(1), 0xBB);
    assert_eq!(emulator.register(2), 0xCC);
    assert_eq!(emulator.register(3), 0x09);
    assert_eq!(emulator.index_register(), 0x208);
}

#[test]
fn store_and_load_registers_are_bounds_checked() {
    let mut fits = boot(&[0xAF, 0xFF, 0x60, 0x5A, 0xF0, 0x55, 0x60, 0x00, 0xF0, 0x65]);
    for _ in 0..5 {
        fits.step(&NO_KEYS).unwrap();
    }
    assert_eq!(fits.read_memory(0xFFF), Ok(0x5A));
    assert_eq!(fits.register(0), 0x5A);

    let mut store = boot(&[0xAF, 0xFF, 0x60, 0x5A, 0x61, 0x5B, 0xF1, 0x55]);
    for _ in 0..3 {
        store.step(&NO_KEYS).unwrap();
    }
    assert_eq!(store.step(&NO_KEYS), Err(EmulatorError::MemoryOutOfBounds));
    assert_eq!(store.read_memory(0xFFF), Ok(0));

    let mut load = boot(&[0xAF, 0xFF, 0x60, 0x5A, 0x61, 0x5B, 0xF1, 0x65]);
    for _ in 0..3 {
        load.step(&NO_KEYS).unwrap();
    }
    assert_eq!(load.step(&NO_KEYS), Err(EmulatorError::MemoryOutOfBounds));
    assert_eq!(load.register(0), 0x5A);
    assert_eq!(load.register(1), 0x5B);
}

#[test]
fn the_named_operations_do_what_their_instructions_do() {
    let mut emulator = Emulator::new(64, 32, 700).unwrap();
    emulator.set_register(4, 0xF0);
    assert_eq!(emulator.register(4), 0xF0);
    emulator.add_to_register(4, 0x20);
    assert_eq!(emulator.register(4), 0x10);
    assert_eq!(emulator.register(0xF), 0);

    emulator.jump(0x300);
    emulator.skip_instruction_conditionally(false);
    assert_eq!(emulator.program_counter(), 0x300);
    emulator.skip_instruction_conditionally(true);
    assert_eq!(emulator.program_counter(), 0x302);
    emulator.skip_if_register_value_equals(4, 0x10);
    assert_eq!(emulator.program_counter(), 0x304);
    emulator.skip_if_register_value_equals(4, 0x11);
    assert_eq!(emulator.program_counter(), 0x304);
    emulator.skip_if_register_value_not_equal(4, 0x11);
    assert_eq!(emulator.program_counter(), 0x306);
    emulator.skip_if_register_value_not_equal(4, 0x10);
    assert_eq!(emulator.program_counter(), 0x306);
    emulator.set_register(5, 0x10);
    emulator.skip_if_registers_equal(4, 5);
    assert_eq!(emulator.program_counter(), 0x308);
    emulator.skip_if_registers_not_equal(4, 5);
    assert_eq!(emulator.program_counter(), 0x308);
    emulator.set_register(5, 0x12);
    emulator.skip_if_registers_equal(4, 5);
    assert_eq!(emulator.program_counter(), 0x308);
    emulator.skip_if_registers_not_equal(4, 5);
    assert_eq!(emulator.program_counter(), 0x30A);
}

#[test]
fn skip_wraps_the_program_counter_at_sixteen_bits() {
    let mut emulator = Emulator::new(64, 32, 700).unwrap();
    emulator.jump(0xFFFE);
    emulator.skip_instruction_conditionally(true);
    assert_eq!(emulator.program_counter(), 0);
    emulator.jump(0xFFFF);
    emulator.skip_instruction_conditionally(true);
    assert_eq!(emulator.program_counter(), 1);
}

#[test]
fn execute_instruction_applies_a_decoded_instruction() {
    let mut emulator = Emulator::new(64, 32, 700).unwrap();
    assert_eq!(
        emulator.execute_instruction(Instruction::Load { x: 2, value: 0x99 }, &NO_KEYS),
        Ok(())
    );
    assert_eq!(emulator.register(2), 0x99);
    assert_eq!(emulator.program_counter(), 0x200);
    assert_eq!(
        emulator.execute_instruction(Instruction::Return, &NO_KEYS),
        Err(EmulatorError::StackUnderflow)
    );
    assert_eq!(emulator.execute_instruction(Instruction::WaitForKey { x: 1 }, &NO_KEYS), Ok(()));
    assert_eq!(emulator.program_counter(), 0x1FE);
}
