//! The mathematical model of the machine and the constants of its layout.

use vstd::prelude::*;
use crate::error::EmulatorError;

verus! {

/// Number of addressable bytes.
pub const MEMORY_SIZE: usize = 4096;

/// Address at which a program is loaded and at which execution starts.
pub const PROGRAM_START: u16 = 0x200;

/// Largest program that fits between `PROGRAM_START` and the end of memory.
pub const MAX_ROM_SIZE: usize = 3584;

/// Number of return addresses the stack holds.
pub const STACK_DEPTH: usize = 16;

/// Number of general-purpose registers, `V0` to `VF`.
pub const REGISTER_COUNT: usize = 16;

/// Number of keys on the keypad.
pub const KEY_COUNT: usize = 16;

/// Index of `VF`, the register that doubles as carry, borrow and collision flag.
pub const FLAG_REGISTER: usize = 15;

/// Address of the first byte of the built-in glyphs.
pub const FONT_START: u16 = 0x050;

/// Number of bytes in one built-in glyph.
pub const GLYPH_SIZE: u16 = 5;

/// Number of bytes in the sixteen built-in glyphs together.
pub const FONT_SIZE: usize = 80;

/// How often per second the delay and sound timers count down.
pub const TIMER_FREQUENCY: u32 = 60;

/// Microseconds in a second.
pub const MICROS_PER_SECOND: u32 = 1_000_000;

/// Value of the pseudo-random generator before its first draw.
pub const DEFAULT_SEED: u16 = 0x2A6D;

/// The mathematical model of the machine: everything a program can observe
/// or change, and the bookkeeping that paces it against real time.
#[verifier::ext_equal]
pub struct MachineState {
    /// The 4096 bytes of memory.
    pub memory: Seq<u8>,
    /// `V0` to `VF`.
    pub registers: Seq<u8>,
    /// `I`, the address register.
    pub index_register: u16,
    /// Address of the next instruction to fetch.
    pub program_counter: u16,
    /// Return addresses, the most recent last.
    pub stack: Seq<u16>,
    /// The delay timer.
    pub delay_timer: u8,
    /// The sound timer.
    pub sound_timer: u8,
    /// Whether the last timer tick found the sound timer running.
    pub beep: bool,
    /// Columns of the display.
    pub width: nat,
    /// Rows of the display.
    pub height: nat,
    /// The display, row after row; each cell is 0 or 1.
    pub pixels: Seq<u8>,
    /// Instructions to execute per second of real time.
    pub instructions_per_second: u32,
    /// Real time not yet turned into instructions, in millionths of a cycle.
    pub cycle_credit: nat,
    /// Real time not yet turned into timer ticks, in millionths of a tick.
    pub tick_credit: nat,
    /// State of the pseudo-random generator.
    pub random_state: u16,
}

/// A state together with the verdict of the operation that produced it.
pub type Outcome = (MachineState, Result<(), EmulatorError>);

/// The built-in glyphs for the hexadecimal digits, five bytes each.
pub open spec fn font_data() -> Seq<u8> {
    seq![
        0xF0u8, 0x90u8, 0x90u8, 0x90u8, 0xF0u8,
        0x20u8, 0x60u8, 0x20u8, 0x20u8, 0x70u8,
        0xF0u8, 0x10u8, 0xF0u8, 0x80u8, 0xF0u8,
        0xF0u8, 0x10u8, 0xF0u8, 0x10u8, 0xF0u8,
        0x90u8, 0x90u8, 0xF0u8, 0x10u8, 0x10u8,
        0xF0u8, 0x80u8, 0xF0u8, 0x10u8, 0xF0u8,
        0xF0u8, 0x80u8, 0xF0u8, 0x90u8, 0xF0u8,
        0xF0u8, 0x10u8, 0x20u8, 0x40u8, 0x40u8,
        0xF0u8, 0x90u8, 0xF0u8, 0x90u8, 0xF0u8,
        0xF0u8, 0x90u8, 0xF0u8, 0x10u8, 0xF0u8,
        0xF0u8, 0x90u8, 0xF0u8, 0x90u8, 0x90u8,
        0xE0u8, 0x90u8, 0xE0u8, 0x90u8, 0xE0u8,
        0xF0u8, 0x80u8, 0x80u8, 0x80u8, 0xF0u8,
        0xE0u8, 0x90u8, 0x90u8, 0x90u8, 0xE0u8,
        0xF0u8, 0x80u8, 0xF0u8, 0x80u8, 0xF0u8,
        0xF0u8, 0x80u8, 0xF0u8, 0x80u8, 0x80u8,
    ]
}

/// The byte that memory holds at `address` once `rom` has been loaded.
pub open spec fn loaded_byte(rom: Seq<u8>, address: int) -> u8 {
    if FONT_START <= address < FONT_START + FONT_SIZE {
        font_data()[address - FONT_START]
    } else if PROGRAM_START <= address < PROGRAM_START + rom.len() {
        rom[address - PROGRAM_START]
    } else {
        0u8
    }
}

/// The generator's state after one draw.
pub open spec fn next_random(state: u16) -> u16 {
    ((state * 25173 + 13849) % 0x10000) as u16
}

/// The byte that a draw yields, given the generator's state after the draw.
pub open spec fn random_byte(state: u16) -> u8 {
    (state / 0x100) as u8
}

impl MachineState {
    /// The shape every reachable state has.
    pub open spec fn wf(self) -> bool {
        &&& self.memory.len() == MEMORY_SIZE
        &&& self.registers.len() == REGISTER_COUNT
        &&& self.stack.len() <= STACK_DEPTH
        &&& self.width > 0
        &&& self.height > 0
        &&& self.pixels.len() == self.width * self.height
        &&& forall|cell: int| 0 <= cell < self.pixels.len() ==> self.pixels[cell] <= 1
        &&& self.cycle_credit < MICROS_PER_SECOND
        &&& self.tick_credit < MICROS_PER_SECOND
    }

    /// The machine with `rom` in memory and everything else as at power-on.
    pub open spec fn booted(
        width: nat,
        height: nat,
        instructions_per_second: u32,
        rom: Seq<u8>,
    ) -> MachineState {
        MachineState {
            memory: Seq::new(MEMORY_SIZE as nat, |address: int| loaded_byte(rom, address)),
            registers: Seq::new(REGISTER_COUNT as nat, |i: int| 0u8),
            index_register: 0,
            program_counter: PROGRAM_START,
            stack: Seq::empty(),
            delay_timer: 0,
            sound_timer: 0,
            beep: false,
            width,
            height,
            pixels: Seq::new(width * height, |cell: int| 0u8),
            instructions_per_second,
            cycle_credit: 0,
            tick_credit: 0,
            random_state: DEFAULT_SEED,
        }
    }

    /// The machine as it is created: no program, glyphs in place.
    pub open spec fn power_on(
        width: nat,
        height: nat,
        instructions_per_second: u32,
    ) -> MachineState {
        Self::booted(width, height, instructions_per_second, Seq::empty())
    }

    /// The machine after loading `rom`: only the display's size and the
    /// instruction rate survive.
    pub open spec fn load(self, rom: Seq<u8>) -> MachineState {
        Self::booted(self.width, self.height, self.instructions_per_second, rom)
    }

    /// Loading a program: fails, changing nothing, when the program is too
    /// large; otherwise gives the machine booted with it.
    pub open spec fn load_rom(self, rom: Seq<u8>) -> Outcome {
        if rom.len() > MAX_ROM_SIZE {
            (self, Err(EmulatorError::RomTooLarge))
        } else {
            (self.load(rom), Ok(()))
        }
    }

    /// The value of `Vx`.
    pub open spec fn register(self, x: int) -> u8 {
        self.registers[x]
    }

    /// The state with `Vx` replaced by `value`.
    pub open spec fn with_register(self, x: int, value: u8) -> MachineState {
        MachineState { registers: self.registers.update(x, value), ..self }
    }

    /// The state with `Vx` replaced by `value` and then `VF` by `flag`.
    pub open spec fn with_result_and_flag(self, x: int, value: u8, flag: u8) -> MachineState {
        self.with_register(x, value).with_register(FLAG_REGISTER as int, flag)
    }

    /// The state with the program counter at `address`.
    pub open spec fn jump(self, address: u16) -> MachineState {
        MachineState { program_counter: address, ..self }
    }

    /// The state with the program counter moved past one more instruction
    /// when `condition` holds.
    pub open spec fn skip_if(self, condition: bool) -> MachineState {
        if condition {
            self.jump(((self.program_counter + 2) % 0x10000) as u16)
        } else {
            self
        }
    }

    /// The state with the program counter moved back by one instruction.
    pub open spec fn rewind(self) -> MachineState {
        self.jump(((self.program_counter + 0x10000 - 2) % 0x10000) as u16)
    }
}

} // verus!
