use chip8::{Emulator, EmulatorError, Instruction};

const NO_KEYS: [bool; 16] = [false; 16];

fn boot_sized(width: usize, height: usize, rom: &[u8]) -> Emulator {
    let mut emulator = Emulator::new(width, height, 700).unwrap();
    emulator.load_rom(rom).unwrap();
    emulator
}

fn run_all_sized(width: usize, height: usize, rom: &[u8], steps: usize) -> Emulator {
    let mut emulator = boot_sized(width, height, rom);
    for _ in 0..steps {
        emulator.step(&NO_KEYS).unwrap();
    }
    emulator
}

fn lit(frame: &[Vec<u8>]) -> Vec<(usize, usize)> {
    let mut cells = Vec::new();
    for (row, line) in frame.iter().enumerate() {
        for (column, &cell) in line.iter().enumerate() {
            assert!(cell <= 1);
            if cell == 1 {
                cells.push((row, column));
            }
        }
    }
    cells
}

#[test]
fn draw_paints_the_glyph_bit_by_bit() {
    // I = glyph 0; draw 5 rows at column V0 = 0, row V1 = 0
    let emulator = run_all_sized(64, 32, &[0xA0, 0x50, 0xD0, 0x15], 2);
    let frame = emulator.draw();
    assert_eq!(frame.len(), 32);
    assert!(frame.iter().all(|row| row.len() == 64));
    assert_eq!(
        lit(&frame),
        vec![
            (0, 0), (0, 1), (0, 2), (0, 3),
            (1, 0), (1, 3),
            (2, 0), (2, 3),
            (3, 0), (3, 3),
            (4, 0), (4, 1), (4, 2), (4, 3),
        ]
    );
    assert_eq!(emulator.register(0xF), 0);
    assert_eq!(emulator.index_register(), 0x50);
}

#[test]
fn draw_places_the_sprite_at_the_registers() {
    // V0 = 10, V1 = 3, I = 0x20A (0x81), draw 1 row
    let emulator = run_all_sized(
        64,
        32,
        &[0x60, 0x0A, 0x61, 0x03, 0xA2, 0x0A, 0xD0, 0x11, 0x00, 0x00, 0x81],
        4,
    );
    assert_eq!(lit(&emulator.draw()), vec![(3, 10), (3, 17)]);
    assert_eq!(emulator.pixel(3, 10), Some(1));
    assert_eq!(emulator.pixel(3, 11), Some(0));
    assert_eq!(emulator.pixel(3, 17), Some(1));
}

#[test]
fn draw_wraps_around_the_right_edge() {
    // V0 = 62, V1 = 0, sprite 0xF0
    let emulator = run_all_sized(
        64,
        32,
        &[0x60, 0x3E, 0x61, 0x00, 0xA2, 0x0A, 0xD0, 0x11, 0x00, 0x00, 0xF0],
        4,
    );
    assert_eq!(lit(&emulator.draw()), vec![(0, 0), (0, 1), (0, 62), (0, 63)]);
}

#[test]
fn draw_wraps_around_the_bottom_edge() {
    // V0 = 0, V1 = 31, sprite 0x80, 0x40
    let emulator = run_all_sized(
        64,
        32,
        &[0x60, 0x00, 0x61, 0x1F, 0xA2, 0x0A, 0xD0, 0x12, 0x00, 0x00, 0x80, 0x40],
        4,
    );
    assert_eq!(lit(&emulator.draw()), vec![(0, 1), (31, 0)]);
}

#[test]
fn draw_wraps_a_position_past_the_display() {
    // V0 = 67, V1 = 34, sprite 0x80
    let emulator = run_all_sized(
        64,
        32,
        &[0x60, 0x43, 0x61, 0x22, 0xA2, 0x0A, 0xD0, 0x11, 0x00, 0x00, 0x80],
        4,
    );
    assert_eq!(lit(&emulator.draw()), vec![(2, 3)]);
}

#[test]
fn draw_twice_clears_the_sprite_and_reports_the_collision() {
    let mut emulator = boot_sized(64, 32, &[0xA0, 0x50, 0xD0, 0x15, 0xD0, 0x15]);
    emulator.step(&NO_KEYS).unwrap();
    emulator.step(&NO_KEYS).unwrap();
    assert_eq!(emulator.register(0xF), 0);
    assert_eq!(lit(&emulator.draw()).len(), 14);
    emulator.step(&NO_KEYS).unwrap();
    assert_eq!(emulator.register(0xF), 1);
    assert_eq!(emulator.draw(), vec![vec![0u8; 64]; 32]);
}

#[test]
fn draw_twice_gives_back_what_was_under_the_sprite() {
    // glyph 0 at (0, 0), then twice glyph 1 at (2, 0)
    let mut emulator = boot_sized(
        64,
        32,
        &[0xA0, 0x50, 0xD0, 0x15, 0x62, 0x02, 0xA0, 0x55, 0xD2, 0x15, 0xD2, 0x15],
    );
    emulator.step(&NO_KEYS).unwrap();
    emulator.step(&NO_KEYS).unwrap();
    let under = emulator.draw();
    for _ in 0..3 {
        emulator.step(&NO_KEYS).unwrap();
    }
    assert_eq!(emulator.register(0xF), 1);
    assert_ne!(emulator.draw(), under);
    emulator.step(&NO_KEYS).unwrap();
    assert_eq!(emulator.draw(), under);
}

#[test]
fn draw_reports_a_collision_only_where_a_lit_pixel_goes_dark() {
    // sprite 0x80 at (0, 0), sprite 0x40 at (0, 0), sprite 0xC0 at (0, 0)
    let mut emulator = boot_sized(
        64,
        32,
        &[0xA2, 0x0C, 0xD0, 0x01, 0xA2, 0x0D, 0xD0, 0x01, 0xA2, 0x0E, 0xD0, 0x01, 0x80, 0x40, 0xC0],
    );
    emulator.step(&NO_KEYS).unwrap();
    emulator.step(&NO_KEYS).unwrap();
    assert_eq!(emulator.register(0xF), 0);
    emulator.step(&NO_KEYS).unwrap();
    emulator.step(&NO_KEYS).unwrap();
    assert_eq!(emulator.register(0xF), 0);
    assert_eq!(lit(&emulator.draw()), vec![(0, 0), (0, 1)]);
    emulator.step(&NO_KEYS).unwrap();
    emulator.step(&NO_KEYS).unwrap();
    assert_eq!(emulator.register(0xF), 1);
    assert_eq!(lit(&emulator.draw()), vec![]);
}

#[test]
fn draw_clears_a_stale_flag() {
    let emulator = run_all_sized(64, 32, &[0x6F, 0x01, 0xA0, 0x50, 0xD0, 0x15], 3);
    assert_eq!(emulator.register(0xF), 0);
}

#[test]
fn draw_of_no_rows_changes_only_the_flag() {
    let emulator = run_all_sized(64, 32, &[0x6F, 0x01, 0xA0, 0x50, 0xD0, 0x10], 3);
    assert_eq!(emulator.register(0xF), 0);
    assert_eq!(emulator.draw(), vec![vec![0u8; 64]; 32]);
}

#[test]
fn draw_is_bounds_checked() {
    // I = 0xFFF, one row fits
    let mut fits = boot_sized(64, 32, &[0xAF, 0xFF, 0xD0, 0x01]);
    fits.step(&NO_KEYS).unwrap();
    assert_eq!(fits.step(&NO_KEYS), Ok(()));

    let mut overruns = boot_sized(64, 32, &[0x6F, 0x07, 0xAF, 0xFF, 0xD0, 0x02]);
    overruns.step(&NO_KEYS).unwrap();
    overruns.step(&NO_KEYS).unwrap();
    assert_eq!(overruns.step(&NO_KEYS), Err(EmulatorError::MemoryOutOfBounds));
    assert_eq!(overruns.register(0xF), 7);
    assert_eq!(overruns.draw(), vec![vec![0u8; 64]; 32]);
    assert_eq!(overruns.program_counter(), 0x206);
}

#[test]
fn draw_on_a_narrow_display_folds_the_row_onto_itself() {
    // four columns: the eight bits of 0xFF land twice on every cell
    let emulator = run_all_sized(4, 2, &[0xA2, 0x04, 0xD0, 0x01, 0xFF], 2);
    assert_eq!(emulator.draw(), vec![vec![0u8; 4]; 2]);
    assert_eq!(emulator.register(0xF), 1);

    let half = run_all_sized(4, 2, &[0xA2, 0x04, 0xD0, 0x01, 0xF0], 2);
    assert_eq!(half.draw(), vec![vec![1u8; 4], vec![0u8; 4]]);
    assert_eq!(half.register(0xF), 0);
}

#[test]
fn draw_on_a_single_cell() {
    let emulator = run_all_sized(1, 1, &[0xA2, 0x04, 0xD0, 0x01, 0x80], 2);
    assert_eq!(emulator.draw(), vec![vec![1u8]]);
    assert_eq!(emulator.register(0xF), 0);
}

#[test]
fn draw_sprite_is_the_draw_instruction() {
    let mut emulator = Emulator::new(64, 32, 700).unwrap();
    emulator.load_rom(&[0x90, 0x60]).unwrap();
    emulator.set_register(1, 8);
    emulator.set_register(2, 4);
    emulator
        .execute_instruction(Instruction::LoadIndex { address: 0x200 }, &NO_KEYS)
        .unwrap();
    assert_eq!(emulator.draw_sprite(1, 2, 2), Ok(()));
    assert_eq!(lit(&emulator.draw()), vec![(4, 8), (4, 11), (5, 9), (5, 10)]);
    assert_eq!(emulator.register(0xF), 0);
    assert_eq!(emulator.draw_sprite(1, 2, 1), Ok(()));
    assert_eq!(emulator.register(0xF), 1);
    assert_eq!(lit(&emulator.draw()), vec![(5, 9), (5, 10)]);
}

#[test]
fn clear_screen_zeroes_every_cell_and_keeps_the_size() {
    let mut emulator = boot_sized(64, 32, &[0xA0, 0x50, 0xD0, 0x15, 0x00, 0xE0]);
    emulator.step(&NO_KEYS).unwrap();
    emulator.step(&NO_KEYS).unwrap();
    assert_ne!(emulator.draw(), vec![vec![0u8; 64]; 32]);
    assert_eq!(emulator.step(&NO_KEYS), Ok(()));
    let frame = emulator.draw();
    assert_eq!(frame.len(), 32);
    assert!(frame.iter().all(|row| row.len() == 64));
    assert!(frame.iter().all(|row| row.iter().all(|&cell| cell == 0)));
    assert_eq!(emulator.screen_width(), 64);
    assert_eq!(emulator.screen_height(), 32);
    assert_eq!(emulator.program_counter(), 0x206);
}

#[test]
fn clear_screen_on_an_odd_sized_display() {
    let mut emulator = boot_sized(7, 3, &[0xA0, 0x50, 0xD0, 0x15]);
    emulator.step(&NO_KEYS).unwrap();
    emulator.step(&NO_KEYS).unwrap();
    emulator.clear_screen();
    assert_eq!(emulator.draw(), vec![vec![0u8; 7]; 3]);
    assert_eq!(emulator.screen_width(), 7);
    assert_eq!(emulator.screen_height(), 3);
}

#[test]
fn pixel_is_bounds_checked() {
    let emulator = Emulator::new(8, 4, 700).unwrap();
    assert_eq!(emulator.pixel(0, 0), Some(0));
    assert_eq!(emulator.pixel(3, 7), Some(0));
    assert_eq!(emulator.pixel(4, 0), None);
    assert_eq!(emulator.pixel(0, 8), None);
    assert_eq!(emulator.pixel(usize::MAX, usize::MAX), None);
}

#[test]
fn pixel_agrees_with_the_frame() {
    let emulator = run_all_sized(16, 8, &[0x60, 0x0D, 0x61, 0x06, 0xA0, 0x5A, 0xD0, 0x15], 4);
    let frame = emulator.draw();
    for row in 0..8 {
        for column in 0..16 {
            assert_eq!(emulator.pixel(row, column), Some(frame[row][column]));
        }
    }
    // glyph 2 is F0 10 F0 80 F0: 4 + 1 + 4 + 1 + 4 lit cells
    assert_eq!(lit(&frame).len(), 14);
}
