//! What every operation does to the model: the instructions one by one, a
//! whole cycle, a timer tick, and the pacing of both against real time.

use vstd::prelude::*;
use crate::display::paint;
use crate::error::EmulatorError;
use crate::instruction::{decode_spec, Instruction};
use crate::keypad::{lowest_key_down, KeyQuery};
use crate::state::{
    next_random, random_byte, MachineState, Outcome, FLAG_REGISTER, FONT_START, GLYPH_SIZE,
    MEMORY_SIZE, MICROS_PER_SECOND, STACK_DEPTH, TIMER_FREQUENCY,
};

verus! {

/// How many whole events are due once `elapsed_micros` of real time are added
/// to `credit`, for events that come `rate` times a second.
pub open spec fn events_due(credit: nat, elapsed_micros: u64, rate: u32) -> nat {
    ((credit + elapsed_micros * rate) / (MICROS_PER_SECOND as int)) as nat
}

/// What is left of the credit once the due events are taken out.
pub open spec fn credit_left(credit: nat, elapsed_micros: u64, rate: u32) -> nat {
    ((credit + elapsed_micros * rate) % (MICROS_PER_SECOND as int)) as nat
}

impl MachineState {
    /// The instruction word at the program counter, high byte first.
    pub open spec fn fetch(self) -> Result<u16, EmulatorError> {
        if self.program_counter + 1 >= MEMORY_SIZE {
            Err(EmulatorError::MemoryOutOfBounds)
        } else {
            Ok(
                (self.memory[self.program_counter as int] * 0x100 + self.memory[self.program_counter
                    + 1]) as u16,
            )
        }
    }

    /// The state with every pixel dark.
    pub open spec fn clear_screen(self) -> MachineState {
        MachineState { pixels: Seq::new(self.pixels.len(), |cell: int| 0u8), ..self }
    }

    /// A subroutine call: the program counter goes onto the stack and
    /// execution continues at `address`, unless the stack is full.
    pub open spec fn call(self, address: u16) -> Outcome {
        if self.stack.len() >= STACK_DEPTH {
            (self, Err(EmulatorError::StackOverflow))
        } else {
            (
                MachineState {
                    stack: self.stack.push(self.program_counter),
                    program_counter: address,
                    ..self
                },
                Ok(()),
            )
        }
    }

    /// A return: execution continues at the address on top of the stack,
    /// unless the stack is empty.
    pub open spec fn ret(self) -> Outcome {
        if self.stack.len() == 0 {
            (self, Err(EmulatorError::StackUnderflow))
        } else {
            (
                MachineState {
                    stack: self.stack.drop_last(),
                    program_counter: self.stack.last(),
                    ..self
                },
                Ok(()),
            )
        }
    }

    /// `Vx = Vx + value` modulo 256.
    pub open spec fn add_to_register(self, x: int, value: u8) -> MachineState {
        self.with_register(x, ((self.register(x) + value) % 0x100) as u8)
    }

    /// `Vx = Vx + Vy` modulo 256, `VF` = 1 when the sum passed 255.
    pub open spec fn add_registers(self, x: int, y: int) -> MachineState {
        let sum = self.register(x) + self.register(y);
        self.with_result_and_flag(x, (sum % 0x100) as u8, if sum > 0xFF { 1 } else { 0 })
    }

    /// `Vx = minuend - subtrahend` modulo 256, `VF` = 1 when nothing was borrowed.
    pub open spec fn subtract(self, x: int, minuend: u8, subtrahend: u8) -> MachineState {
        self.with_result_and_flag(
            x,
            ((minuend + 0x100 - subtrahend) % 0x100) as u8,
            if minuend >= subtrahend { 1 } else { 0 },
        )
    }

    /// `Vx = Vx / 2`, `VF` = the lowest bit of the old `Vx`.
    pub open spec fn shift_right(self, x: int) -> MachineState {
        let value = self.register(x);
        self.with_result_and_flag(x, value / 2, value % 2)
    }

    /// `Vx = Vx * 2` modulo 256, `VF` = the highest bit of the old `Vx`.
    pub open spec fn shift_left(self, x: int) -> MachineState {
        let value = self.register(x);
        self.with_result_and_flag(x, ((value * 2) % 0x100) as u8, value / 0x80)
    }

    /// `Vx` = the next pseudo-random byte, masked with `mask`.
    pub open spec fn randomize(self, x: int, mask: u8) -> MachineState {
        let state = next_random(self.random_state);
        MachineState { random_state: state, ..self }.with_register(x, random_byte(state) & mask)
    }

    /// The sprite of `rows` bytes at `I`, drawn at column `Vx`, row `Vy`;
    /// `VF` = 1 when a lit pixel went dark. Fails, changing nothing, when the
    /// sprite reaches past the end of memory.
    pub open spec fn draw_sprite(self, x: int, y: int, rows: int) -> Outcome {
        if rows > 0 && self.index_register + rows > MEMORY_SIZE {
            (self, Err(EmulatorError::MemoryOutOfBounds))
        } else {
            let sprite = self.memory.subrange(
                self.index_register as int,
                self.index_register + rows,
            );
            let painted = paint(
                self.pixels,
                self.width as int,
                self.height as int,
                sprite,
                self.register(x) as int,
                self.register(y) as int,
                (8 * rows) as nat,
            );
            (
                MachineState { pixels: painted.0, ..self }.with_register(
                    FLAG_REGISTER as int,
                    if painted.1 { 1 } else { 0 },
                ),
                Ok(()),
            )
        }
    }

    /// Whether the key named by the low digit of `Vx` is down.
    pub open spec fn key_down(self, x: int, keys: Seq<bool>) -> bool {
        keys[self.register(x) as int % 16]
    }

    /// `Vx` = the lowest key that is down; with no key down, the program
    /// counter goes back so that the same instruction runs again.
    pub open spec fn wait_for_key(self, x: int, keys: Seq<bool>) -> MachineState {
        let key = lowest_key_down(keys, 0);
        if key < keys.len() {
            self.with_register(x, key as u8)
        } else {
            self.rewind()
        }
    }

    /// The hundreds, tens and units of `Vx` at `I`, `I + 1` and `I + 2`.
    /// Fails, changing nothing, when `I + 2` is past the end of memory.
    pub open spec fn store_decimal(self, x: int) -> Outcome {
        let at = self.index_register as int;
        let value = self.register(x);
        if at + 2 >= MEMORY_SIZE {
            (self, Err(EmulatorError::MemoryOutOfBounds))
        } else {
            (
                MachineState {
                    memory: self.memory.update(at, value / 100).update(
                        at + 1,
                        (value / 10) % 10,
                    ).update(at + 2, value % 10),
                    ..self
                },
                Ok(()),
            )
        }
    }

    /// `V0..=Vx` copied to memory at `I..=I + x`. Fails, changing nothing,
    /// when `I + x` is past the end of memory.
    pub open spec fn store_registers(self, x: int) -> Outcome {
        let at = self.index_register as int;
        if at + x >= MEMORY_SIZE {
            (self, Err(EmulatorError::MemoryOutOfBounds))
        } else {
            (
                MachineState {
                    memory: Seq::new(
                        self.memory.len(),
                        |address: int|
                            if at <= address <= at + x {
                                self.registers[address - at]
                            } else {
                                self.memory[address]
                            },
                    ),
                    ..self
                },
                Ok(()),
            )
        }
    }

    /// `V0..=Vx` copied from memory at `I..=I + x`. Fails, changing nothing,
    /// when `I + x` is past the end of memory.
    pub open spec fn load_registers(self, x: int) -> Outcome {
        let at = self.index_register as int;
        if at + x >= MEMORY_SIZE {
            (self, Err(EmulatorError::MemoryOutOfBounds))
        } else {
            (
                MachineState {
                    registers: Seq::new(
                        self.registers.len(),
                        |i: int|
                            if i <= x {
                                self.memory[at + i]
                            } else {
                                self.registers[i]
                            },
                    ),
                    ..self
                },
                Ok(()),
            )
        }
    }

    /// The effect of one instruction on a state whose program counter has
    /// already moved past it.
    pub open spec fn execute(self, instruction: Instruction, keys: Seq<bool>) -> Outcome {
        match instruction {
            Instruction::Sys { address } => (self, Ok(())),
            Instruction::ClearScreen => (self.clear_screen(), Ok(())),
            Instruction::Return => self.ret(),
            Instruction::Jump { address } => (self.jump(address), Ok(())),
            Instruction::Call { address } => self.call(address),
            Instruction::SkipIfEqual { x, value } => (
                self.skip_if(self.register(x as int) == value),
                Ok(()),
            ),
            Instruction::SkipIfNotEqual { x, value } => (
                self.skip_if(self.register(x as int) != value),
                Ok(()),
            ),
            Instruction::SkipIfRegistersEqual { x, y } => (
                self.skip_if(self.register(x as int) == self.register(y as int)),
                Ok(()),
            ),
            Instruction::Load { x, value } => (self.with_register(x as int, value), Ok(())),
            Instruction::AddImmediate { x, value } => (
                self.add_to_register(x as int, value),
                Ok(()),
            ),
            Instruction::Copy { x, y } => (
                self.with_register(x as int, self.register(y as int)),
                Ok(()),
            ),
            Instruction::Or { x, y } => (
                self.with_register(x as int, self.register(x as int) | self.register(y as int)),
                Ok(()),
            ),
            Instruction::And { x, y } => (
                self.with_register(x as int, self.register(x as int) & self.register(y as int)),
                Ok(()),
            ),
            Instruction::Xor { x, y } => (
                self.with_register(x as int, self.register(x as int) ^ self.register(y as int)),
                Ok(()),
            ),
            Instruction::Add { x, y } => (self.add_registers(x as int, y as int), Ok(())),
            Instruction::Subtract { x, y } => (
                self.subtract(x as int, self.register(x as int), self.register(y as int)),
                Ok(()),
            ),
            Instruction::ShiftRight { x, y } => (self.shift_right(x as int), Ok(())),
            Instruction::SubtractFrom { x, y } => (
                self.subtract(x as int, self.register(y as int), self.register(x as int)),
                Ok(()),
            ),
            Instruction::ShiftLeft { x, y } => (self.shift_left(x as int), Ok(())),
            Instruction::SkipIfRegistersNotEqual { x, y } => (
                self.skip_if(self.register(x as int) != self.register(y as int)),
                Ok(()),
            ),
            Instruction::LoadIndex { address } => (
                MachineState { index_register: address, ..self },
                Ok(()),
            ),
            Instruction::JumpOffset { address } => (
                self.jump(((address + self.register(0)) % 0x10000) as u16),
                Ok(()),
            ),
            Instruction::Random { x, value } => (self.randomize(x as int, value), Ok(())),
            Instruction::Draw { x, y, rows } => self.draw_sprite(x as int, y as int, rows as int),
            Instruction::SkipIfKeyDown { x } => (
                self.skip_if(self.key_down(x as int, keys)),
                Ok(()),
            ),
            Instruction::SkipIfKeyUp { x } => (
                self.skip_if(!self.key_down(x as int, keys)),
                Ok(()),
            ),
            Instruction::ReadDelay { x } => (
                self.with_register(x as int, self.delay_timer),
                Ok(()),
            ),
            Instruction::WaitForKey { x } => (self.wait_for_key(x as int, keys), Ok(())),
            Instruction::SetDelay { x } => (
                MachineState { delay_timer: self.register(x as int), ..self },
                Ok(()),
            ),
            Instruction::SetSound { x } => (
                MachineState { sound_timer: self.register(x as int), ..self },
                Ok(()),
            ),
            Instruction::AddToIndex { x } => (
                MachineState {
                    index_register: ((self.index_register + self.register(x as int))
                        % 0x10000) as u16,
                    ..self
                },
                Ok(()),
            ),
            Instruction::LoadGlyph { x } => (
                MachineState {
                    index_register: (FONT_START + GLYPH_SIZE * (self.register(x as int)
                        % 16)) as u16,
                    ..self
                },
                Ok(()),
            ),
            Instruction::StoreDecimal { x } => self.store_decimal(x as int),
            Instruction::StoreRegisters { x } => self.store_registers(x as int),
            Instruction::LoadRegisters { x } => self.load_registers(x as int),
        }
    }

    /// One cycle: fetch the word at the program counter, move the program
    /// counter past it, decode it and execute it.
    ///
    /// A failed fetch changes nothing. A word that stands for no instruction,
    /// or an instruction that fails, leaves the program counter past the word
    /// and everything else as it was.
    pub open spec fn step(self, keys: Seq<bool>) -> Outcome {
        match self.fetch() {
            Err(error) => (self, Err(error)),
            Ok(word) => {
                let advanced = self.jump((self.program_counter + 2) as u16);
                match decode_spec(word) {
                    None => (advanced, Err(EmulatorError::UnknownOpcode(word))),
                    Some(instruction) => advanced.execute(instruction, keys),
                }
            },
        }
    }

    /// One tick of the 60 Hz clock: each timer that is running counts down by
    /// one, and the beep signal says whether the sound timer was running.
    pub open spec fn tick(self) -> MachineState {
        MachineState {
            delay_timer: if self.delay_timer > 0 {
                (self.delay_timer - 1) as u8
            } else {
                0
            },
            sound_timer: if self.sound_timer > 0 {
                (self.sound_timer - 1) as u8
            } else {
                0
            },
            beep: self.sound_timer > 0,
            ..self
        }
    }

    /// The state after `count` ticks in a row.
    pub open spec fn ticks(self, count: nat) -> MachineState
        decreases count,
    {
        if count == 0 {
            self
        } else {
            self.ticks((count - 1) as nat).tick()
        }
    }

    /// The state after up to `count` cycles with the same keys: cycles run
    /// until `count` are done or one of them fails.
    pub open spec fn cycles(self, keys: Seq<bool>, count: nat) -> Outcome
        decreases count,
    {
        if count == 0 {
            (self, Ok(()))
        } else {
            let (next, result) = self.step(keys);
            if result is Err {
                (next, result)
            } else {
                next.cycles(keys, (count - 1) as nat)
            }
        }
    }

    /// The state after calling `step` once for each entry of `inputs`, in
    /// order, whether or not a call fails.
    pub open spec fn steps(self, inputs: Seq<Seq<bool>>) -> MachineState
        decreases inputs.len(),
    {
        if inputs.len() == 0 {
            self
        } else {
            self.steps(inputs.drop_last()).step(inputs.last()).0
        }
    }

    /// The state once `elapsed_micros` of real time have been accounted for:
    /// the timer ticks that have come due are applied first, then the cycles
    /// that have come due are run with `keys`, up to the first that fails.
    /// Time that amounts to less than a whole tick or cycle is kept for the
    /// next call.
    pub open spec fn run(self, elapsed_micros: u64, keys: Seq<bool>) -> Outcome {
        let paced = MachineState {
            cycle_credit: credit_left(
                self.cycle_credit,
                elapsed_micros,
                self.instructions_per_second,
            ),
            tick_credit: credit_left(self.tick_credit, elapsed_micros, TIMER_FREQUENCY),
            ..self
        };
        paced.ticks(events_due(self.tick_credit, elapsed_micros, TIMER_FREQUENCY)).cycles(
            keys,
            events_due(self.cycle_credit, elapsed_micros, self.instructions_per_second),
        )
    }

    /// What the next cycle will ask of the keypad.
    pub open spec fn required_keys(self) -> KeyQuery {
        match self.fetch() {
            Err(_) => KeyQuery::Nothing,
            Ok(word) => match decode_spec(word) {
                Some(Instruction::SkipIfKeyDown { x }) => KeyQuery::Key(
                    (self.register(x as int) % 16) as u8,
                ),
                Some(Instruction::SkipIfKeyUp { x }) => KeyQuery::Key(
                    (self.register(x as int) % 16) as u8,
                ),
                Some(Instruction::WaitForKey { .. }) => KeyQuery::AnyKey,
                _ => KeyQuery::Nothing,
            },
        }
    }

    /// The display as rows of cells, top row first.
    pub open spec fn frame(self) -> Seq<Seq<u8>> {
        Seq::new(
            self.height,
            |row: int| Seq::new(self.width, |column: int| self.pixels[row * self.width + column]),
        )
    }
}

/// The product of a time in microseconds and a rate per second stays far
/// below what 128 bits hold.
pub proof fn lemma_product_fits(elapsed_micros: u64, rate: u32)
    by (nonlinear_arith)
    ensures
        0 <= elapsed_micros * rate <= 0xFFFF_FFFF_FFFF_FFFF * 0xFFFF_FFFF,
{
}

/// Any number of ticks at once: each timer loses `count`, stopping at zero,
/// and the beep signal says whether the sound timer was still running when
/// the last of them came.
pub proof fn lemma_ticks_at_once(state: MachineState, count: nat)
    ensures
        state.ticks(count) == (if count == 0 {
            state
        } else {
            MachineState {
                delay_timer: if count >= state.delay_timer {
                    0
                } else {
                    (state.delay_timer - count) as u8
                },
                sound_timer: if count >= state.sound_timer {
                    0
                } else {
                    (state.sound_timer - count) as u8
                },
                beep: state.sound_timer >= count,
                ..state
            }
        }),
    decreases count,
{
    if count > 0 {
        lemma_ticks_at_once(state, (count - 1) as nat);
    }
}

} // verus!
