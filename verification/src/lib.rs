//! A CHIP-8 interpreter engine whose behaviour is stated in contracts and
//! proved against a mathematical model of the machine.
//!
//! The host owns the clock, the screen, the speaker and the keypad. It loads
//! a program with `Emulator::load_rom`, then either calls `Emulator::step`
//! and `Emulator::tick_timers` at its own cadence or hands the elapsed time
//! to `Emulator::run`; it reads the display with `Emulator::draw` and the
//! sound signal with `Emulator::beep`. The engine never blocks, never sleeps
//! and never aborts: every failure comes back as an `EmulatorError`.
//!
//! Where interpreters for this instruction set have differed, this one keeps
//! to the following conventions.
//!
//! - `8xy6` and `8xyE` shift `Vx` in place; `Vy` is not read.
//! - After `8xy5` and `8xy7`, `VF` is 1 when nothing was borrowed, that is
//!   when the minuend was at least the subtrahend, and 0 otherwise.
//! - An instruction that writes both `Vx` and `VF` writes `VF` last.
//! - `8xy1`, `8xy2`, `8xy3`, `7xkk` and `Fx1E` leave `VF` alone.
//! - `Fx55` and `Fx65` leave `I` as it was.
//! - A sprite wraps around the edges of the display pixel by pixel.
//! - `Ex9E`, `ExA1` and `Fx29` use the low four bits of `Vx`.
//! - `Fx0A` takes the lowest key that is down; while none is, the program
//!   counter goes back by one instruction, so that the next cycle waits again.
//! - `0nnn`, other than `00E0` and `00EE`, is accepted and ignored.
//! - `Cxkk` draws from a 16-bit linear congruential generator, which a load
//!   puts back to `DEFAULT_SEED`; the same program sees the same numbers
//!   unless the host calls `Emulator::seed_random`.
//! - A jump or call goes where it says, to an odd address too.
//! - When a word stands for no instruction, or an instruction fails, the
//!   program counter is left past the word and nothing else has changed.

pub mod display;
pub mod emulator;
pub mod error;
pub mod instruction;
pub mod keypad;
pub mod laws;
pub mod semantics;
pub mod state;

pub use emulator::Emulator;
pub use error::EmulatorError;
pub use instruction::{decode, Instruction};
pub use keypad::KeyQuery;
pub use state::{
    DEFAULT_SEED, FLAG_REGISTER, FONT_SIZE, FONT_START, GLYPH_SIZE, KEY_COUNT, MAX_ROM_SIZE,
    MEMORY_SIZE, MICROS_PER_SECOND, PROGRAM_START, REGISTER_COUNT, STACK_DEPTH, TIMER_FREQUENCY,
};
