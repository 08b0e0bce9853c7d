//! The engine itself: the executable machine, every operation of it held to
//! the model by its contract.

use vstd::prelude::*;
use crate::display::{lemma_cell_in_range, lemma_paint_shape, paint_sprite};
use crate::instruction::{decode, decode_spec, lemma_encode_inverts_decode, Instruction};
use crate::keypad::{lowest_key_down, KeyQuery};
use crate::semantics::{lemma_product_fits, lemma_ticks_at_once};
use crate::error::EmulatorError;
use crate::state::{
    font_data, loaded_byte, MachineState, DEFAULT_SEED, FONT_SIZE, FONT_START, MAX_ROM_SIZE,
    FLAG_REGISTER, GLYPH_SIZE, KEY_COUNT, MEMORY_SIZE, MICROS_PER_SECOND, PROGRAM_START,
    REGISTER_COUNT, STACK_DEPTH, TIMER_FREQUENCY,
};

verus! {

/// A CHIP-8 machine: memory, registers, stack, timers and display, together
/// with the bookkeeping that paces it against real time.
///
/// The host drives it: `step` executes one instruction, `tick_timers` counts
/// the timers down once, and `run` does both for a stretch of real time.
/// Nothing here blocks, sleeps or touches a device.
pub struct Emulator {
    memory: Vec<u8>,
    display: Vec<u8>,
    width: usize,
    height: usize,
    program_counter: u16,
    index_register: u16,
    stack: Vec<u16>,
    delay_timer: u8,
    sound_timer: u8,
    beep: bool,
    registers: Vec<u8>,
    instructions_per_second: u32,
    cycle_credit: u32,
    tick_credit: u32,
    random_state: u16,
}

impl View for Emulator {
    type V = MachineState;

    closed spec fn view(&self) -> MachineState {
        MachineState {
            memory: self.memory@,
            registers: self.registers@,
            index_register: self.index_register,
            program_counter: self.program_counter,
            stack: self.stack@,
            delay_timer: self.delay_timer,
            sound_timer: self.sound_timer,
            beep: self.beep,
            width: self.width as nat,
            height: self.height as nat,
            pixels: self.display@,
            instructions_per_second: self.instructions_per_second,
            cycle_credit: self.cycle_credit as nat,
            tick_credit: self.tick_credit as nat,
            random_state: self.random_state,
        }
    }
}

/// One byte of the built-in glyphs.
fn glyph_byte(index: usize) -> (byte: u8)
    requires
        index < FONT_SIZE,
    ensures
        byte == font_data()[index as int],
{
    let table: [u8; 80] = [
        0xF0, 0x90, 0x90, 0x90, 0xF0,
        0x20, 0x60, 0x20, 0x20, 0x70,
        0xF0, 0x10, 0xF0, 0x80, 0xF0,
        0xF0, 0x10, 0xF0, 0x10, 0xF0,
        0x90, 0x90, 0xF0, 0x10, 0x10,
        0xF0, 0x80, 0xF0, 0x10, 0xF0,
        0xF0, 0x80, 0xF0, 0x90, 0xF0,
        0xF0, 0x10, 0x20, 0x40, 0x40,
        0xF0, 0x90, 0xF0, 0x90, 0xF0,
        0xF0, 0x90, 0xF0, 0x10, 0xF0,
        0xF0, 0x90, 0xF0, 0x90, 0x90,
        0xE0, 0x90, 0xE0, 0x90, 0xE0,
        0xF0, 0x80, 0x80, 0x80, 0xF0,
        0xE0, 0x90, 0x90, 0x90, 0xE0,
        0xF0, 0x80, 0xF0, 0x80, 0xF0,
        0xF0, 0x80, 0xF0, 0x80, 0x80,
    ];
    table[index]
}

/// Memory as it is once `rom` has been loaded: glyphs, program, zeros.
fn boot_memory(rom: &[u8]) -> (memory: Vec<u8>)
    requires
        rom.len() <= MAX_ROM_SIZE,
    ensures
        memory@ == Seq::new(MEMORY_SIZE as nat, |address: int| loaded_byte(rom@, address)),
{
    let mut memory: Vec<u8> = Vec::new();
    let mut address: usize = 0;
    while address < MEMORY_SIZE
        invariant
            address <= MEMORY_SIZE,
            rom.len() <= MAX_ROM_SIZE,
            memory.len() == address,
            forall|a: int| 0 <= a < address ==> memory[a] == loaded_byte(rom@, a),
        decreases MEMORY_SIZE - address,
    {
        let byte: u8 = if FONT_START as usize <= address && address < FONT_START as usize
            + FONT_SIZE {
            glyph_byte(address - FONT_START as usize)
        } else if PROGRAM_START as usize <= address && address - (PROGRAM_START as usize)
            < rom.len() {
            rom[address - PROGRAM_START as usize]
        } else {
            0
        };
        memory.push(byte);
        address += 1;
    }
    memory
}

/// A vector of `count` zeros.
fn zeros(count: usize) -> (cells: Vec<u8>)
    ensures
        cells@ == Seq::new(count as nat, |i: int| 0u8),
{
    let mut cells: Vec<u8> = Vec::new();
    let mut filled: usize = 0;
    while filled < count
        invariant
            filled <= count,
            cells.len() == filled,
            forall|i: int| 0 <= i < filled ==> cells[i] == 0,
        decreases count - filled,
    {
        cells.push(0);
        filled += 1;
    }
    cells
}

/// Copies `count` items of `source`, from `from` on, over those of `target`
/// from `to` on.
fn copy_into(target: &mut Vec<u8>, to: usize, source: &Vec<u8>, from: usize, count: usize)
    requires
        to + count <= old(target).len(),
        from + count <= source.len(),
    ensures
        final(target)@ == Seq::new(
            old(target).len() as nat,
            |i: int|
                if to <= i < to + count {
                    source[from + i - to]
                } else {
                    old(target)[i]
                },
        ),
{
    let ghost before = target@;
    let mut copied: usize = 0;
    while copied < count
        invariant
            copied <= count,
            to + count <= target.len(),
            from + count <= source.len(),
            target.len() == before.len(),
            forall|i: int|
                0 <= i < target.len() ==> target[i] == (if to <= i < to + copied {
                    source[from + i - to]
                } else {
                    before[i]
                }),
        decreases count - copied,
    {
        target[to + copied] = source[from + copied];
        copied += 1;
    }
}

impl Emulator {
    /// The invariant that every constructor establishes and every method keeps.
    pub open spec fn wf(&self) -> bool {
        self@.wf()
    }

    /// Creates a machine with a dark display of the given size, glyphs in
    /// low memory, and the program counter at `PROGRAM_START`.
    ///
    /// Fails exactly when the display would have no columns or no rows.
    pub fn new(screen_width: usize, screen_height: usize, instructions_per_second: u32) -> (created:
        Result<Emulator, EmulatorError>)
        requires
            screen_width * screen_height <= usize::MAX,
        ensures
            created is Err <==> screen_width == 0 || screen_height == 0,
            created is Err ==> created == Err::<Emulator, EmulatorError>(
                EmulatorError::InvalidDimensions,
            ),
            created is Ok ==> created->Ok_0.wf() && created->Ok_0@ == MachineState::power_on(
                screen_width as nat,
                screen_height as nat,
                instructions_per_second,
            ),
    {
        if screen_width == 0 || screen_height == 0 {
            return Err(EmulatorError::InvalidDimensions);
        }
        let empty: [u8; 0] = [];
        Ok(
            Emulator {
                memory: boot_memory(empty.as_slice()),
                display: zeros(screen_width * screen_height),
                width: screen_width,
                height: screen_height,
                program_counter: PROGRAM_START,
                index_register: 0,
                stack: Vec::new(),
                delay_timer: 0,
                sound_timer: 0,
                beep: false,
                registers: zeros(REGISTER_COUNT),
                instructions_per_second,
                cycle_credit: 0,
                tick_credit: 0,
                random_state: DEFAULT_SEED,
            },
        )
    }

    /// Loads a program at `PROGRAM_START` and puts everything else back to
    /// what `new` made it: only the display's size and the instruction rate
    /// are kept.
    ///
    /// Fails with `RomTooLarge`, changing nothing, exactly when the program
    /// is longer than `MAX_ROM_SIZE` bytes.
    pub fn load_rom(&mut self, bytes: &[u8]) -> (result: Result<(), EmulatorError>)
        requires
            old(self).wf(),
        ensures
            final(self).wf(),
            (final(self)@, result) == old(self)@.load_rom(bytes@),
    {
        if bytes.len() > MAX_ROM_SIZE {
            return Err(EmulatorError::RomTooLarge);
        }
        self.memory = boot_memory(bytes);
        self.clear_screen();
        self.registers = zeros(REGISTER_COUNT);
        self.stack.clear();
        self.program_counter = PROGRAM_START;
        self.index_register = 0;
        self.delay_timer = 0;
        self.sound_timer = 0;
        self.beep = false;
        self.cycle_credit = 0;
        self.tick_credit = 0;
        self.random_state = DEFAULT_SEED;
        Ok(())
    }

    /// Reads the instruction word at the program counter, high byte first.
    /// Fails with `MemoryOutOfBounds` exactly when the word's second byte
    /// would lie past the end of memory.
    pub fn fetch_instruction(&self) -> (fetched: Result<u16, EmulatorError>)
        requires
            self.wf(),
        ensures
            fetched == self@.fetch(),
    {
        let at = self.program_counter as usize;
        if at + 1 >= MEMORY_SIZE {
            return Err(EmulatorError::MemoryOutOfBounds);
        }
        Ok(self.memory[at] as u16 * 0x100 + self.memory[at + 1] as u16)
    }

    /// Decodes an instruction word. Fails with `UnknownOpcode`, carrying the
    /// word, exactly when the word stands for no instruction.
    pub fn decode_instruction(&self, instruction: u16) -> (decoded: Result<
        Instruction,
        EmulatorError,
    >)
        ensures
            decoded == (match decode_spec(instruction) {
                Some(known) => Ok::<Instruction, EmulatorError>(known),
                None => Err::<Instruction, EmulatorError>(
                    EmulatorError::UnknownOpcode(instruction),
                ),
            }),
            decoded is Ok ==> decoded->Ok_0.well_formed(),
    {
        proof {
            if decode_spec(instruction) is Some {
                lemma_encode_inverts_decode(instruction);
            }
        }
        match decode(instruction) {
            Some(known) => Ok(known),
            None => Err(EmulatorError::UnknownOpcode(instruction)),
        }
    }

    /// Applies one decoded instruction. The program counter is taken to have
    /// moved past the instruction already, as `step` leaves it.
    ///
    /// Fails exactly where the instruction's own rule says so, and then
    /// changes nothing.
    pub fn execute_instruction(&mut self, instruction: Instruction, keys: &[bool; 16]) -> (result:
        Result<(), EmulatorError>)
        requires
            old(self).wf(),
            instruction.registers_valid(),
        ensures
            final(self).wf(),
            (final(self)@, result) == old(self)@.execute(instruction, keys@),
    {
        match instruction {
            Instruction::Sys { address: _ } => Ok(()),
            Instruction::ClearScreen => {
                self.clear_screen();
                Ok(())
            },
            Instruction::Return => self.return_from_subroutine(),
            Instruction::Jump { address } => {
                self.jump(address);
                Ok(())
            },
            Instruction::Call { address } => self.call_subroutine(address),
            Instruction::SkipIfEqual { x, value } => {
                self.skip_if_register_value_equals(x as usize, value);
                Ok(())
            },
            Instruction::SkipIfNotEqual { x, value } => {
                self.skip_if_register_value_not_equal(x as usize, value);
                Ok(())
            },
            Instruction::SkipIfRegistersEqual { x, y } => {
                self.skip_if_registers_equal(x as usize, y as usize);
                Ok(())
            },
            Instruction::Load { x, value } => {
                self.set_register(x as usize, value);
                Ok(())
            },
            Instruction::AddImmediate { x, value } => {
                self.add_to_register(x as usize, value);
                Ok(())
            },
            Instruction::Copy { x, y } => {
                let value = self.registers[y as usize];
                self.set_register(x as usize, value);
                Ok(())
            },
            Instruction::Or { x, y } => {
                let value = self.registers[x as usize] | self.registers[y as usize];
                self.set_register(x as usize, value);
                Ok(())
            },
            Instruction::And { x, y } => {
                let value = self.registers[x as usize] & self.registers[y as usize];
                self.set_register(x as usize, value);
                Ok(())
            },
            Instruction::Xor { x, y } => {
                let value = self.registers[x as usize] ^ self.registers[y as usize];
                self.set_register(x as usize, value);
                Ok(())
            },
            Instruction::Add { x, y } => {
                let sum: u16 = self.registers[x as usize] as u16
                    + self.registers[y as usize] as u16;
                let carry: u8 = if sum > 0xFF {
                    1
                } else {
                    0
                };
                self.set_result_and_flag(x as usize, (sum % 0x100) as u8, carry);
                Ok(())
            },
            Instruction::Subtract { x, y } => {
                let minuend = self.registers[x as usize];
                let subtrahend = self.registers[y as usize];
                self.subtract(x as usize, minuend, subtrahend);
                Ok(())
            },
            Instruction::ShiftRight { x, y: _ } => {
                let value = self.registers[x as usize];
                self.set_result_and_flag(x as usize, value / 2, value % 2);
                Ok(())
            },
            Instruction::SubtractFrom { x, y } => {
                let minuend = self.registers[y as usize];
                let subtrahend = self.registers[x as usize];
                self.subtract(x as usize, minuend, subtrahend);
                Ok(())
            },
            Instruction::ShiftLeft { x, y: _ } => {
                let value = self.registers[x as usize];
                self.set_result_and_flag(
                    x as usize,
                    ((value as u16 * 2) % 0x100) as u8,
                    value / 0x80,
                );
                Ok(())
            },
            Instruction::SkipIfRegistersNotEqual { x, y } => {
                self.skip_if_registers_not_equal(x as usize, y as usize);
                Ok(())
            },
            Instruction::LoadIndex { address } => {
                self.index_register = address;
                Ok(())
            },
            Instruction::JumpOffset { address } => {
                let target: u32 = (address as u32 + self.registers[0] as u32) % 0x10000;
                self.jump(target as u16);
                Ok(())
            },
            Instruction::Random { x, value } => {
                self.randomize(x as usize, value);
                Ok(())
            },
            Instruction::Draw { x, y, rows } => self.draw_sprite(x as usize, y as usize, rows),
            Instruction::SkipIfKeyDown { x } => {
                let down = keys[(self.registers[x as usize] % 16) as usize];
                self.skip_instruction_conditionally(down);
                Ok(())
            },
            Instruction::SkipIfKeyUp { x } => {
                let down = keys[(self.registers[x as usize] % 16) as usize];
                self.skip_instruction_conditionally(!down);
                Ok(())
            },
            Instruction::ReadDelay { x } => {
                let value = self.delay_timer;
                self.set_register(x as usize, value);
                Ok(())
            },
            Instruction::WaitForKey { x } => {
                self.wait_for_key(x as usize, keys);
                Ok(())
            },
            Instruction::SetDelay { x } => {
                self.delay_timer = self.registers[x as usize];
                Ok(())
            },
            Instruction::SetSound { x } => {
                self.sound_timer = self.registers[x as usize];
                Ok(())
            },
            Instruction::AddToIndex { x } => {
                let sum: u32 = self.index_register as u32 + self.registers[x as usize] as u32;
                self.index_register = (sum % 0x10000) as u16;
                Ok(())
            },
            Instruction::LoadGlyph { x } => {
                let digit: u16 = (self.registers[x as usize] % 16) as u16;
                self.index_register = FONT_START + GLYPH_SIZE * digit;
                Ok(())
            },
            Instruction::StoreDecimal { x } => self.store_decimal(x as usize),
            Instruction::StoreRegisters { x } => self.store_registers(x as usize),
            Instruction::LoadRegisters { x } => self.load_registers(x as usize),
        }
    }

    /// Executes one cycle: fetch, move the program counter past the word,
    /// decode, execute. `keys` says which of the sixteen keys are down.
    ///
    /// Fails with `MemoryOutOfBounds` when the word cannot be fetched, and
    /// then changes nothing; with `UnknownOpcode` when the word stands for no
    /// instruction; and with the instruction's own error when it fails. In
    /// the last two cases the program counter stays past the word and
    /// nothing else changes, so the host may go on with the next word.
    /// The timers are out of its reach but for the two instructions that set
    /// them.
    pub fn step(&mut self, keys: &[bool; 16]) -> (result: Result<(), EmulatorError>)
        requires
            old(self).wf(),
        ensures
            final(self).wf(),
            (final(self)@, result) == old(self)@.step(keys@),
    {
        let word = match self.fetch_instruction() {
            Ok(word) => word,
            Err(error) => {
                return Err(error);
            },
        };
        self.program_counter = self.program_counter + 2;
        let instruction = match self.decode_instruction(word) {
            Ok(instruction) => instruction,
            Err(error) => {
                return Err(error);
            },
        };
        self.execute_instruction(instruction, keys)
    }

    /// One tick of the 60 Hz clock: each running timer counts down by one and
    /// the beep signal is refreshed. Independent of `step`.
    pub fn tick_timers(&mut self)
        requires
            old(self).wf(),
        ensures
            final(self).wf(),
            final(self)@ == old(self)@.tick(),
    {
        self.beep = self.sound_timer > 0;
        if self.delay_timer > 0 {
            self.delay_timer -= 1;
        }
        if self.sound_timer > 0 {
            self.sound_timer -= 1;
        }
    }

    /// Brings the timers up to date by one tick of the 60 Hz clock: the same
    /// operation as `tick_timers`.
    pub fn update_state(&mut self)
        requires
            old(self).wf(),
        ensures
            final(self).wf(),
            final(self)@ == old(self)@.tick(),
    {
        self.tick_timers();
    }

    /// Applies `count` timer ticks at once.
    fn advance_timers(&mut self, count: u128)
        requires
            old(self).wf(),
        ensures
            final(self).wf(),
            final(self)@ == old(self)@.ticks(count as nat),
    {
        proof {
            lemma_ticks_at_once(self@, count as nat);
        }
        if count > 0 {
            self.beep = self.sound_timer as u128 >= count;
            self.delay_timer = if count >= self.delay_timer as u128 {
                0
            } else {
                self.delay_timer - count as u8
            };
            self.sound_timer = if count >= self.sound_timer as u128 {
                0
            } else {
                self.sound_timer - count as u8
            };
        }
    }

    /// Accounts for `elapsed_micros` of real time and returns: applies the
    /// timer ticks that have come due at 60 per second, then runs the cycles
    /// that have come due at the configured rate, all with the same `keys`.
    /// Time short of a whole tick or cycle is carried over to the next call,
    /// so that the machine neither drifts nor blocks.
    ///
    /// Stops at the first cycle that fails and returns its error; the cycles
    /// that were still due are dropped.
    pub fn run(&mut self, elapsed_micros: u64, keys: &[bool; 16]) -> (result: Result<
        (),
        EmulatorError,
    >)
        requires
            old(self).wf(),
        ensures
            final(self).wf(),
            (final(self)@, result) == old(self)@.run(elapsed_micros, keys@),
    {
        proof {
            lemma_product_fits(elapsed_micros, TIMER_FREQUENCY);
            lemma_product_fits(elapsed_micros, self.instructions_per_second);
        }
        let tick_total: u128 = self.tick_credit as u128 + elapsed_micros as u128
            * TIMER_FREQUENCY as u128;
        let cycle_total: u128 = self.cycle_credit as u128 + elapsed_micros as u128
            * self.instructions_per_second as u128;
        let ticks: u128 = tick_total / MICROS_PER_SECOND as u128;
        let cycles: u128 = cycle_total / MICROS_PER_SECOND as u128;
        self.tick_credit = (tick_total % MICROS_PER_SECOND as u128) as u32;
        self.cycle_credit = (cycle_total % MICROS_PER_SECOND as u128) as u32;
        self.advance_timers(ticks);
        let ghost start = self@;
        let mut done: u128 = 0;
        while done < cycles
            invariant
                done <= cycles,
                self.wf(),
                self@.cycles(keys@, (cycles - done) as nat) == start.cycles(keys@, cycles as nat),
                start.cycles(keys@, cycles as nat) == old(self)@.run(elapsed_micros, keys@),
            decreases cycles - done,
        {
            let ghost before = self@;
            match self.step(keys) {
                Ok(()) => {},
                Err(error) => {
                    assert(before.cycles(keys@, (cycles - done) as nat) == (self@, Err::<
                        (),
                        EmulatorError,
                    >(error)));
                    return Err(error);
                },
            }
            assert(before.cycles(keys@, (cycles - done) as nat) == self@.cycles(
                keys@,
                (cycles - done - 1) as nat,
            ));
            done += 1;
        }
        Ok(())
    }

    /// The display as the display sink reads it: one vector per row, top row
    /// first, one cell per column, each cell 0 or 1.
    pub fn draw(&self) -> (rows: Vec<Vec<u8>>)
        requires
            self.wf(),
        ensures
            rows@.len() == self@.height,
            forall|row: int|
                0 <= row < rows@.len() ==> (#[trigger] rows@[row])@ == self@.frame()[row],
    {
        let mut rows: Vec<Vec<u8>> = Vec::new();
        let mut row: usize = 0;
        while row < self.height
            invariant
                self.wf(),
                row <= self.height,
                rows@.len() == row,
                forall|r: int| 0 <= r < row ==> (#[trigger] rows@[r])@ == self@.frame()[r],
            decreases self.height - row,
        {
            let mut cells: Vec<u8> = Vec::new();
            let mut column: usize = 0;
            while column < self.width
                invariant
                    self.wf(),
                    row < self.height,
                    column <= self.width,
                    cells@.len() == column,
                    forall|c: int|
                        0 <= c < column ==> cells@[c] == self@.pixels[row * self@.width + c],
                decreases self.width - column,
            {
                proof {
                    lemma_cell_in_range(
                        self.width as int,
                        self.height as int,
                        row as int,
                        column as int,
                    );
                    assert(self.display.len() == self.width * self.height);
                }
                cells.push(self.display[row * self.width + column]);
                column += 1;
            }
            assert(cells@ =~= self@.frame()[row as int]);
            rows.push(cells);
            row += 1;
        }
        rows
    }

    /// The cell at `row`, `column` of the display, or `None` outside it.
    pub fn pixel(&self, row: usize, column: usize) -> (cell: Option<u8>)
        requires
            self.wf(),
        ensures
            cell == (if row < self@.height && column < self@.width {
                Some(self@.pixels[row * self@.width + column])
            } else {
                None
            }),
    {
        if row < self.height && column < self.width {
            proof {
                lemma_cell_in_range(
                    self.width as int,
                    self.height as int,
                    row as int,
                    column as int,
                );
                assert(self.display.len() == self.width * self.height);
            }
            Some(self.display[row * self.width + column])
        } else {
            None
        }
    }

    /// What the next cycle will ask of the keypad: nothing, the state of
    /// one key, or any key at all. A host that polls its keypad only on
    /// demand asks this before each `step`.
    pub fn required_keys(&self) -> (query: KeyQuery)
        requires
            self.wf(),
        ensures
            query == self@.required_keys(),
    {
        match self.fetch_instruction() {
            Err(_) => KeyQuery::Nothing,
            Ok(word) => match decode(word) {
                Some(Instruction::SkipIfKeyDown { x }) => {
                    proof {
                        lemma_encode_inverts_decode(word);
                    }
                    KeyQuery::Key(self.registers[x as usize] % 16)
                },
                Some(Instruction::SkipIfKeyUp { x }) => {
                    proof {
                        lemma_encode_inverts_decode(word);
                    }
                    KeyQuery::Key(self.registers[x as usize] % 16)
                },
                Some(Instruction::WaitForKey { x: _ }) => KeyQuery::AnyKey,
                _ => KeyQuery::Nothing,
            },
        }
    }

    /// Whether the audio sink should be sounding: whether the last timer tick
    /// found the sound timer running.
    pub fn beep(&self) -> (sounding: bool)
        ensures
            sounding == self@.beep,
    {
        self.beep
    }

    /// Continues execution at `address`.
    pub fn jump(&mut self, address: u16)
        requires
            old(self).wf(),
        ensures
            final(self).wf(),
            final(self)@ == old(self)@.jump(address),
    {
        self.program_counter = address;
    }

    /// Calls the subroutine at `address`: pushes the program counter and
    /// jumps. Fails with `StackOverflow`, changing nothing, exactly when the
    /// stack already holds `STACK_DEPTH` addresses.
    pub fn call_subroutine(&mut self, address: u16) -> (result: Result<(), EmulatorError>)
        requires
            old(self).wf(),
        ensures
            final(self).wf(),
            (final(self)@, result) == old(self)@.call(address),
    {
        if self.stack.len() >= STACK_DEPTH {
            return Err(EmulatorError::StackOverflow);
        }
        self.stack.push(self.program_counter);
        self.program_counter = address;
        Ok(())
    }

    /// Returns from a subroutine: pops the stack into the program counter.
    /// Fails with `StackUnderflow`, changing nothing, exactly when the stack
    /// is empty.
    pub fn return_from_subroutine(&mut self) -> (result: Result<(), EmulatorError>)
        requires
            old(self).wf(),
        ensures
            final(self).wf(),
            (final(self)@, result) == old(self)@.ret(),
    {
        match self.stack.pop() {
            Some(address) => {
                self.program_counter = address;
                Ok(())
            },
            None => Err(EmulatorError::StackUnderflow),
        }
    }

    /// Moves the program counter past one more instruction when `condition`
    /// holds.
    pub fn skip_instruction_conditionally(&mut self, condition: bool)
        requires
            old(self).wf(),
        ensures
            final(self).wf(),
            final(self)@ == old(self)@.skip_if(condition),
    {
        if condition {
            self.program_counter = ((self.program_counter as u32 + 2) % 0x10000) as u16;
        }
    }

    /// Skips the next instruction when `Vx == value`.
    pub fn skip_if_register_value_equals(&mut self, register_index: usize, value: u8)
        requires
            old(self).wf(),
            register_index < REGISTER_COUNT,
        ensures
            final(self).wf(),
            final(self)@ == old(self)@.skip_if(
                old(self)@.register(register_index as int) == value,
            ),
    {
        let held = self.registers[register_index];
        self.skip_instruction_conditionally(held == value);
    }

    /// Skips the next instruction when `Vx != value`.
    pub fn skip_if_register_value_not_equal(&mut self, register_index: usize, value: u8)
        requires
            old(self).wf(),
            register_index < REGISTER_COUNT,
        ensures
            final(self).wf(),
            final(self)@ == old(self)@.skip_if(
                old(self)@.register(register_index as int) != value,
            ),
    {
        let held = self.registers[register_index];
        self.skip_instruction_conditionally(held != value);
    }

    /// Skips the next instruction when `Vi == Vj`.
    pub fn skip_if_registers_equal(&mut self, register_i: usize, register_j: usize)
        requires
            old(self).wf(),
            register_i < REGISTER_COUNT,
            register_j < REGISTER_COUNT,
        ensures
            final(self).wf(),
            final(self)@ == old(self)@.skip_if(
                old(self)@.register(register_i as int) == old(self)@.register(register_j as int),
            ),
    {
        let first = self.registers[register_i];
        let second = self.registers[register_j];
        self.skip_instruction_conditionally(first == second);
    }

    /// Skips the next instruction when `Vi != Vj`.
    pub fn skip_if_registers_not_equal(&mut self, register_i: usize, register_j: usize)
        requires
            old(self).wf(),
            register_i < REGISTER_COUNT,
            register_j < REGISTER_COUNT,
        ensures
            final(self).wf(),
            final(self)@ == old(self)@.skip_if(
                old(self)@.register(register_i as int) != old(self)@.register(register_j as int),
            ),
    {
        let first = self.registers[register_i];
        let second = self.registers[register_j];
        self.skip_instruction_conditionally(first != second);
    }

    /// `Vx = value`.
    pub fn set_register(&mut self, register_index: usize, value: u8)
        requires
            old(self).wf(),
            register_index < REGISTER_COUNT,
        ensures
            final(self).wf(),
            final(self)@ == old(self)@.with_register(register_index as int, value),
    {
        self.registers[register_index] = value;
    }

    /// `Vx = Vx + value` modulo 256; the flag register is not touched.
    pub fn add_to_register(&mut self, register_index: usize, value: u8)
        requires
            old(self).wf(),
            register_index < REGISTER_COUNT,
        ensures
            final(self).wf(),
            final(self)@ == old(self)@.add_to_register(register_index as int, value),
    {
        let sum: u16 = self.registers[register_index] as u16 + value as u16;
        self.registers[register_index] = (sum % 0x100) as u8;
    }

    /// `Vx = value`, then `VF = flag`.
    fn set_result_and_flag(&mut self, x: usize, value: u8, flag: u8)
        requires
            old(self).wf(),
            x < REGISTER_COUNT,
        ensures
            final(self).wf(),
            final(self)@ == old(self)@.with_result_and_flag(x as int, value, flag),
    {
        self.registers[x] = value;
        self.registers[FLAG_REGISTER] = flag;
    }

    /// `Vx = minuend - subtrahend` modulo 256, `VF` = 1 when nothing was
    /// borrowed.
    fn subtract(&mut self, x: usize, minuend: u8, subtrahend: u8)
        requires
            old(self).wf(),
            x < REGISTER_COUNT,
        ensures
            final(self).wf(),
            final(self)@ == old(self)@.subtract(x as int, minuend, subtrahend),
    {
        let difference: u16 = (minuend as u16 + 0x100 - subtrahend as u16) % 0x100;
        let flag: u8 = if minuend >= subtrahend {
            1
        } else {
            0
        };
        self.set_result_and_flag(x, difference as u8, flag);
    }

    /// `Vx` = the next pseudo-random byte, masked with `mask`.
    fn randomize(&mut self, x: usize, mask: u8)
        requires
            old(self).wf(),
            x < REGISTER_COUNT,
        ensures
            final(self).wf(),
            final(self)@ == old(self)@.randomize(x as int, mask),
    {
        let state: u16 = ((self.random_state as u32 * 25173 + 13849) % 0x10000) as u16;
        self.random_state = state;
        self.registers[x] = ((state / 0x100) as u8) & mask;
    }

    /// Turns every pixel dark; the display keeps its size.
    pub fn clear_screen(&mut self)
        requires
            old(self).wf(),
        ensures
            final(self).wf(),
            final(self)@ == old(self)@.clear_screen(),
    {
        let cells = self.display.len();
        let mut cell: usize = 0;
        while cell < cells
            invariant
                cell <= cells,
                self.display.len() == cells,
                forall|i: int| 0 <= i < cell ==> self.display[i] == 0,
                forall|i: int| cell <= i < cells ==> self.display[i] == old(self).display[i],
                self.memory == old(self).memory,
                self.registers == old(self).registers,
                self.stack == old(self).stack,
                self.width == old(self).width,
                self.height == old(self).height,
                self.program_counter == old(self).program_counter,
                self.index_register == old(self).index_register,
                self.delay_timer == old(self).delay_timer,
                self.sound_timer == old(self).sound_timer,
                self.beep == old(self).beep,
                self.instructions_per_second == old(self).instructions_per_second,
                self.cycle_credit == old(self).cycle_credit,
                self.tick_credit == old(self).tick_credit,
                self.random_state == old(self).random_state,
            decreases cells - cell,
        {
            self.display[cell] = 0;
            cell += 1;
        }
    }

    /// Draws the sprite of `rows` bytes at `I` at column `Vx`, row `Vy`, and
    /// sets `VF` to 1 when a lit pixel went dark, else to 0. Fails with
    /// `MemoryOutOfBounds`, changing nothing, exactly when the sprite reaches
    /// past the end of memory.
    pub fn draw_sprite(&mut self, x: usize, y: usize, rows: u8) -> (result: Result<
        (),
        EmulatorError,
    >)
        requires
            old(self).wf(),
            x < REGISTER_COUNT,
            y < REGISTER_COUNT,
        ensures
            final(self).wf(),
            (final(self)@, result) == old(self)@.draw_sprite(x as int, y as int, rows as int),
    {
        let start = self.index_register as usize;
        if rows > 0 && start + rows as usize > MEMORY_SIZE {
            return Err(EmulatorError::MemoryOutOfBounds);
        }
        let left = self.registers[x] as usize;
        let top = self.registers[y] as usize;
        let collided = if rows == 0 {
            false
        } else {
            paint_sprite(
                &mut self.display,
                self.width,
                self.height,
                &self.memory,
                start,
                rows as usize,
                left,
                top,
            )
        };
        proof {
            lemma_paint_shape(
                old(self).display@,
                self.width as int,
                self.height as int,
                old(self).memory@.subrange(start as int, start + rows),
                left as int,
                top as int,
                (8 * rows) as nat,
            );
        }
        self.registers[FLAG_REGISTER] = if collided {
            1
        } else {
            0
        };
        Ok(())
    }

    /// `Vx` = the lowest key that is down; with no key down, the program
    /// counter goes back so that the same instruction is fetched again.
    fn wait_for_key(&mut self, x: usize, keys: &[bool; 16])
        requires
            old(self).wf(),
            x < REGISTER_COUNT,
        ensures
            final(self).wf(),
            final(self)@ == old(self)@.wait_for_key(x as int, keys@),
    {
        let mut key: usize = 0;
        while key < KEY_COUNT && !keys[key]
            invariant
                key <= KEY_COUNT,
                lowest_key_down(keys@, 0) == lowest_key_down(keys@, key as int),
            decreases KEY_COUNT - key,
        {
            key += 1;
        }
        if key < KEY_COUNT {
            self.registers[x] = key as u8;
        } else {
            self.program_counter = ((self.program_counter as u32 + 0x10000 - 2) % 0x10000) as u16;
        }
    }

    /// Stores the hundreds, tens and units of `Vx` at `I`, `I + 1`, `I + 2`.
    fn store_decimal(&mut self, x: usize) -> (result: Result<(), EmulatorError>)
        requires
            old(self).wf(),
            x < REGISTER_COUNT,
        ensures
            final(self).wf(),
            (final(self)@, result) == old(self)@.store_decimal(x as int),
    {
        let at = self.index_register as usize;
        if at + 2 >= MEMORY_SIZE {
            return Err(EmulatorError::MemoryOutOfBounds);
        }
        let value = self.registers[x];
        self.memory[at] = value / 100;
        self.memory[at + 1] = (value / 10) % 10;
        self.memory[at + 2] = value % 10;
        Ok(())
    }

    /// Copies `V0..=Vx` to memory at `I..=I + x`.
    fn store_registers(&mut self, x: usize) -> (result: Result<(), EmulatorError>)
        requires
            old(self).wf(),
            x < REGISTER_COUNT,
        ensures
            final(self).wf(),
            (final(self)@, result) == old(self)@.store_registers(x as int),
    {
        let at = self.index_register as usize;
        if at + x >= MEMORY_SIZE {
            return Err(EmulatorError::MemoryOutOfBounds);
        }
        copy_into(&mut self.memory, at, &self.registers, 0, x + 1);
        Ok(())
    }

    /// Copies `V0..=Vx` from memory at `I..=I + x`.
    fn load_registers(&mut self, x: usize) -> (result: Result<(), EmulatorError>)
        requires
            old(self).wf(),
            x < REGISTER_COUNT,
        ensures
            final(self).wf(),
            (final(self)@, result) == old(self)@.load_registers(x as int),
    {
        let at = self.index_register as usize;
        if at + x >= MEMORY_SIZE {
            return Err(EmulatorError::MemoryOutOfBounds);
        }
        copy_into(&mut self.registers, 0, &self.memory, at, x + 1);
        Ok(())
    }

    /// Restarts the pseudo-random generator from `seed`.
    pub fn seed_random(&mut self, seed: u16)
        requires
            old(self).wf(),
        ensures
            final(self).wf(),
            final(self)@ == (MachineState { random_state: seed, ..old(self)@ }),
    {
        self.random_state = seed;
    }

    /// Address of the next instruction to fetch.
    pub fn program_counter(&self) -> (address: u16)
        ensures
            address == self@.program_counter,
    {
        self.program_counter
    }

    /// The address register `I`.
    pub fn index_register(&self) -> (address: u16)
        ensures
            address == self@.index_register,
    {
        self.index_register
    }

    /// The value of register `Vx`.
    pub fn register(&self, register_index: usize) -> (value: u8)
        requires
            self.wf(),
            register_index < REGISTER_COUNT,
        ensures
            value == self@.register(register_index as int),
    {
        self.registers[register_index]
    }

    /// The delay timer.
    pub fn delay_timer(&self) -> (value: u8)
        ensures
            value == self@.delay_timer,
    {
        self.delay_timer
    }

    /// The sound timer.
    pub fn sound_timer(&self) -> (value: u8)
        ensures
            value == self@.sound_timer,
    {
        self.sound_timer
    }

    /// How many return addresses are on the stack.
    pub fn stack_depth(&self) -> (depth: usize)
        ensures
            depth == self@.stack.len(),
    {
        self.stack.len()
    }

    /// The byte at `address`, or `MemoryOutOfBounds` past the end of memory.
    pub fn read_memory(&self, address: usize) -> (read: Result<u8, EmulatorError>)
        requires
            self.wf(),
        ensures
            read == (if address < MEMORY_SIZE {
                Ok::<u8, EmulatorError>(self@.memory[address as int])
            } else {
                Err::<u8, EmulatorError>(EmulatorError::MemoryOutOfBounds)
            }),
    {
        if address < MEMORY_SIZE {
            Ok(self.memory[address])
        } else {
            Err(EmulatorError::MemoryOutOfBounds)
        }
    }

    /// Columns of the display.
    pub fn screen_width(&self) -> (width: usize)
        ensures
            width == self@.width,
    {
        self.width
    }

    /// Rows of the display.
    pub fn screen_height(&self) -> (height: usize)
        ensures
            height == self@.height,
    {
        self.height
    }

    /// Instructions to execute per second of real time.
    pub fn instructions_per_second(&self) -> (rate: u32)
        ensures
            rate == self@.instructions_per_second,
    {
        self.instructions_per_second
    }
}

} // verus!
