//! Laws of the machine: general statements about loading, cycles, the
//! stack, the timers and the display, each proved from the model.

use vstd::prelude::*;
use crate::display::{
    lemma_cell_in_range, lemma_paint_collides, lemma_paint_shape, lemma_paint_twice_restores,
    lemma_paint_without_collision, paint, sprite_bit, target_cell,
};
use crate::error::EmulatorError;
use crate::instruction::{decode_spec, lemma_encode_inverts_decode, Instruction};
use crate::keypad::{lowest_key_down, KeyQuery};
use crate::semantics::{credit_left, events_due, lemma_product_fits};
use crate::state::{
    MachineState, FLAG_REGISTER, MAX_ROM_SIZE, MEMORY_SIZE, MICROS_PER_SECOND, PROGRAM_START,
    STACK_DEPTH, TIMER_FREQUENCY,
};

verus! {

/// Loading keeps the machine well-formed.
pub proof fn lemma_load_rom_keeps_wf(state: MachineState, rom: Seq<u8>)
    requires
        state.wf(),
    ensures
        state.load_rom(rom).0.wf(),
{
}

/// After a program has been loaded, the program counter is at
/// `PROGRAM_START` and the next cycle fetches the word made of the program's
/// first two bytes, the first byte high; a byte the program does not have
/// counts as zero. The cycle then does to the machine what that word says.
pub proof fn lemma_first_fetch_after_load(state: MachineState, rom: Seq<u8>, keys: Seq<bool>)
    requires
        rom.len() <= MAX_ROM_SIZE,
    ensures
        ({
            let loaded = state.load_rom(rom).0;
            let high = if rom.len() > 0 { rom[0] } else { 0u8 };
            let low = if rom.len() > 1 { rom[1] } else { 0u8 };
            let word = (high * 0x100 + low) as u16;
            let advanced = loaded.jump((PROGRAM_START + 2) as u16);
            &&& state.load_rom(rom).1 is Ok
            &&& loaded.program_counter == PROGRAM_START
            &&& loaded.fetch() == Ok::<u16, EmulatorError>(word)
            &&& loaded.step(keys) == (match decode_spec(word) {
                Some(instruction) => advanced.execute(instruction, keys),
                None => (advanced, Err(EmulatorError::UnknownOpcode(word))),
            })
        }),
{
}

/// A load resets the machine: whatever it held, afterwards the registers,
/// the address register, both timers and the beep signal are zero, the stack
/// is empty, the display is dark, memory holds the glyphs, the program and
/// zeros, and the program counter is at `PROGRAM_START`.
pub proof fn lemma_load_rom_resets(state: MachineState, rom: Seq<u8>)
    requires
        state.wf(),
        rom.len() <= MAX_ROM_SIZE,
    ensures
        ({
            let loaded = state.load_rom(rom).0;
            &&& loaded.wf()
            &&& loaded.program_counter == PROGRAM_START
            &&& loaded.index_register == 0
            &&& loaded.stack.len() == 0
            &&& loaded.delay_timer == 0
            &&& loaded.sound_timer == 0
            &&& !loaded.beep
            &&& forall|register: int| 0 <= register < 16 ==> loaded.registers[register] == 0
            &&& forall|cell: int| 0 <= cell < loaded.pixels.len() ==> loaded.pixels[cell] == 0
            &&& forall|offset: int|
                0 <= offset < rom.len() ==> loaded.memory[PROGRAM_START + offset] == rom[offset]
            &&& forall|address: int|
                PROGRAM_START + rom.len() <= address < MEMORY_SIZE ==> loaded.memory[address] == 0
            &&& loaded.width == state.width
            &&& loaded.height == state.height
            &&& loaded.instructions_per_second == state.instructions_per_second
        }),
{
}

/// Loading the same program twice in a row leaves the machine exactly as
/// loading it once does.
pub proof fn lemma_load_rom_is_idempotent(state: MachineState, rom: Seq<u8>)
    ensures
        state.load_rom(rom).0.load_rom(rom) == state.load_rom(rom),
{
}

/// What a load leaves behind depends on the program, the display's size and
/// the instruction rate, and on nothing else of the machine's past.
pub proof fn lemma_load_rom_forgets(first: MachineState, second: MachineState, rom: Seq<u8>)
    requires
        rom.len() <= MAX_ROM_SIZE,
        first.width == second.width,
        first.height == second.height,
        first.instructions_per_second == second.instructions_per_second,
    ensures
        first.load_rom(rom) == second.load_rom(rom),
{
}

/// A cycle that fetches `00E0` succeeds and leaves every cell of the display
/// at zero, the display's size as it was, and all else but the program
/// counter untouched.
pub proof fn lemma_clear_screen_blanks_display(state: MachineState, keys: Seq<bool>)
    requires
        state.wf(),
        state.fetch() == Ok::<u16, EmulatorError>(0x00E0),
    ensures
        ({
            let (after, result) = state.step(keys);
            &&& result is Ok
            &&& after.width == state.width
            &&& after.height == state.height
            &&& after.pixels.len() == state.pixels.len()
            &&& forall|cell: int| 0 <= cell < after.pixels.len() ==> after.pixels[cell] == 0
            &&& forall|row: int, column: int|
                0 <= row < after.height && 0 <= column < after.width
                    ==> #[trigger] after.frame()[row][column] == 0
            &&& after == (MachineState {
                pixels: after.pixels,
                program_counter: (state.program_counter + 2) as u16,
                ..state
            })
        }),
{
    let after = state.step(keys).0;
    assert forall|row: int, column: int|
        0 <= row < after.height && 0 <= column < after.width
        implies #[trigger] after.frame()[row][column] == 0 by {
        lemma_cell_in_range(after.width as int, after.height as int, row, column);
    }
}

/// A call followed by a return: when a cycle fetches `2nnn` with room on the
/// stack, and the word at `nnn` is `00EE`, the two cycles succeed and leave
/// the machine as it was but for the program counter, which stands just
/// past the call.
pub proof fn lemma_call_then_return(
    state: MachineState,
    address: u16,
    call_keys: Seq<bool>,
    return_keys: Seq<bool>,
)
    requires
        state.wf(),
        address < 0x1000,
        state.fetch() == Ok::<u16, EmulatorError>((0x2000 + address) as u16),
        state.stack.len() < STACK_DEPTH,
        state.jump(address).fetch() == Ok::<u16, EmulatorError>(0x00EE),
    ensures
        ({
            let (called, call_result) = state.step(call_keys);
            let (returned, return_result) = called.step(return_keys);
            &&& call_result is Ok
            &&& called.program_counter == address
            &&& called.stack == state.stack.push((state.program_counter + 2) as u16)
            &&& return_result is Ok
            &&& returned == state.jump((state.program_counter + 2) as u16)
        }),
{
    lemma_encode_inverts_decode((0x2000 + address) as u16);
    let called = state.step(call_keys).0;
    assert(decode_spec((0x2000 + address) as u16) == Some(Instruction::Call { address }));
    assert(called.memory == state.memory);
    let returned = called.step(return_keys).0;
    assert(returned.stack =~= state.stack);
}

/// Whether the next cycle of `state` executes a call.
pub open spec fn fetches_call(state: MachineState) -> bool {
    &&& state.fetch() is Ok
    &&& decode_spec(state.fetch()->Ok_0) is Some
    &&& decode_spec(state.fetch()->Ok_0)->0 is Call
}

/// Calls in a row fill the stack and then fail: when every one of a run of
/// cycles executes a call, the cycle numbered `index`, counting from zero,
/// succeeds exactly when the stack held fewer than `STACK_DEPTH - index`
/// addresses at the start, and fails with `StackOverflow` otherwise. So from
/// an empty stack sixteen calls succeed and the seventeenth overflows.
pub proof fn lemma_calls_overflow(state: MachineState, inputs: Seq<Seq<bool>>, index: int)
    requires
        state.wf(),
        0 <= index < inputs.len(),
        forall|earlier: int|
            0 <= earlier <= index ==> fetches_call(#[trigger] state.steps(inputs.take(earlier))),
    ensures
        ({
            let before = state.steps(inputs.take(index));
            let (after, result) = before.step(inputs[index]);
            &&& before.stack.len() == if state.stack.len() + index <= STACK_DEPTH {
                state.stack.len() + index
            } else {
                STACK_DEPTH as int
            }
            &&& result == (if state.stack.len() + index < STACK_DEPTH {
                Ok::<(), EmulatorError>(())
            } else {
                Err::<(), EmulatorError>(EmulatorError::StackOverflow)
            })
        }),
    decreases index,
{
    if index > 0 {
        lemma_calls_overflow(state, inputs, index - 1);
        assert(inputs.take(index).drop_last() =~= inputs.take(index - 1));
        assert(inputs.take(index).last() == inputs[index - 1]);
        assert(fetches_call(state.steps(inputs.take(index - 1))));
    } else {
        assert(inputs.take(0) =~= Seq::<Seq<bool>>::empty());
    }
    assert(fetches_call(state.steps(inputs.take(index))));
}

/// Whether the next cycle of `state` executes one of the two instructions
/// that write a timer, `Fx15` and `Fx18`.
pub open spec fn fetches_timer_write(state: MachineState) -> bool {
    &&& state.fetch() is Ok
    &&& decode_spec(state.fetch()->Ok_0) is Some
    &&& (decode_spec(state.fetch()->Ok_0)->0 is SetDelay || decode_spec(
        state.fetch()->Ok_0,
    )->0 is SetSound)
}

/// Applying an instruction never counts a timer down: it leaves the beep
/// signal alone, the delay timer unless it is `Fx15`, and the sound timer
/// unless it is `Fx18`.
pub proof fn lemma_execute_leaves_timers(
    state: MachineState,
    instruction: Instruction,
    keys: Seq<bool>,
)
    ensures
        state.execute(instruction, keys).0.beep == state.beep,
        instruction !is SetDelay ==> state.execute(instruction, keys).0.delay_timer
            == state.delay_timer,
        instruction !is SetSound ==> state.execute(instruction, keys).0.sound_timer
            == state.sound_timer,
        instruction matches Instruction::SetDelay { x } ==> state.execute(
            instruction,
            keys,
        ).0.delay_timer == state.register(x as int),
        instruction matches Instruction::SetSound { x } ==> state.execute(
            instruction,
            keys,
        ).0.sound_timer == state.register(x as int),
{
}

/// A cycle never counts a timer down: it leaves both timers and the beep
/// signal as they were, unless it executes `Fx15` or `Fx18`, which put `Vx`
/// into the delay timer or the sound timer and leave the other alone.
pub proof fn lemma_step_leaves_timers(state: MachineState, keys: Seq<bool>)
    ensures
        ({
            let after = state.step(keys).0;
            &&& after.beep == state.beep
            &&& !fetches_timer_write(state) ==> after.delay_timer == state.delay_timer
                && after.sound_timer == state.sound_timer
            &&& fetches_timer_write(state) ==> (match decode_spec(state.fetch()->Ok_0)->0 {
                Instruction::SetDelay { x } => after.delay_timer == state.register(x as int)
                    && after.sound_timer == state.sound_timer,
                Instruction::SetSound { x } => after.sound_timer == state.register(x as int)
                    && after.delay_timer == state.delay_timer,
                _ => false,
            })
        }),
{
    if state.fetch() is Ok {
        let word = state.fetch()->Ok_0;
        let advanced = state.jump((state.program_counter + 2) as u16);
        if decode_spec(word) is Some {
            lemma_execute_leaves_timers(advanced, decode_spec(word)->0, keys);
        }
    }
}

/// Cycles alone do not move the timers: after any number of calls of `step`
/// with no tick in between, with whatever keys and whether or not a call
/// fails, both timers and the beep signal are as they were, provided none
/// of the cycles executed `Fx15` or `Fx18`.
pub proof fn lemma_steps_leave_timers(state: MachineState, inputs: Seq<Seq<bool>>)
    requires
        forall|earlier: int|
            0 <= earlier < inputs.len() ==> !fetches_timer_write(
                #[trigger] state.steps(inputs.take(earlier)),
            ),
    ensures
        state.steps(inputs).delay_timer == state.delay_timer,
        state.steps(inputs).sound_timer == state.sound_timer,
        state.steps(inputs).beep == state.beep,
    decreases inputs.len(),
{
    if inputs.len() > 0 {
        let shorter = inputs.drop_last();
        assert forall|earlier: int| 0 <= earlier < shorter.len() implies !fetches_timer_write(
            #[trigger] state.steps(shorter.take(earlier)),
        ) by {
            assert(shorter.take(earlier) =~= inputs.take(earlier));
        }
        lemma_steps_leave_timers(state, shorter);
        assert(inputs.take(inputs.len() - 1) =~= shorter);
        lemma_step_leaves_timers(state.steps(shorter), inputs.last());
    }
}

/// The sprite that a draw of `rows` rows reads: the bytes at `I` and after.
pub open spec fn sprite_at_index(state: MachineState, rows: int) -> Seq<u8> {
    state.memory.subrange(state.index_register as int, state.index_register + rows)
}

/// The lowest set bit of a sprite at or above `from`, given that `witness` is set.
proof fn lemma_first_set_bit(sprite: Seq<u8>, from: int, witness: int) -> (first: int)
    requires
        0 <= from <= witness,
        sprite_bit(sprite, witness),
        forall|earlier: int| 0 <= earlier < from ==> !sprite_bit(sprite, earlier),
    ensures
        0 <= first <= witness,
        sprite_bit(sprite, first),
        forall|earlier: int| 0 <= earlier < first ==> !sprite_bit(sprite, earlier),
    decreases witness - from,
{
    if sprite_bit(sprite, from) {
        from
    } else {
        lemma_first_set_bit(sprite, from + 1, witness)
    }
}

/// Drawing the same sprite twice at the same place: the second draw gives
/// back the display as it was before the first, whatever was on it. When the
/// first draw turned no pixel off and the sprite has a pixel at all, all of
/// the sprite's pixels were lit by the first draw, the second turns them off
/// again and sets `VF` to 1.
///
/// The registers that give the place must not be `VF`, which the first draw
/// overwrites.
pub proof fn lemma_draw_twice(state: MachineState, x: u8, y: u8, rows: u8, keys: Seq<bool>)
    requires
        state.wf(),
        x < FLAG_REGISTER,
        y < FLAG_REGISTER,
        state.index_register + rows <= MEMORY_SIZE,
    ensures
        ({
            let draw = Instruction::Draw { x, y, rows };
            let (once, first_result) = state.execute(draw, keys);
            let (twice, second_result) = once.execute(draw, keys);
            let sprite = sprite_at_index(state, rows as int);
            let has_pixel = exists|bit: int|
                0 <= bit < 8 * rows && #[trigger] sprite_bit(sprite, bit);
            &&& first_result is Ok
            &&& second_result is Ok
            &&& twice.pixels == state.pixels
            &&& twice == (MachineState { registers: twice.registers, ..state })
            &&& forall|register: int|
                0 <= register < FLAG_REGISTER ==> twice.registers[register]
                    == state.registers[register]
            &&& once.registers[FLAG_REGISTER as int] == 0 && has_pixel
                ==> twice.registers[FLAG_REGISTER as int] == 1
            &&& once.registers[FLAG_REGISTER as int] == 0 ==> forall|bit: int|
                0 <= bit < 8 * rows && #[trigger] sprite_bit(sprite, bit)
                    ==> once.pixels[target_cell(
                    state.width as int,
                    state.height as int,
                    state.register(x as int) as int,
                    state.register(y as int) as int,
                    bit,
                )] == 1
        }),
{
    let draw = Instruction::Draw { x, y, rows };
    let sprite = sprite_at_index(state, rows as int);
    let width = state.width as int;
    let height = state.height as int;
    let left = state.register(x as int) as int;
    let top = state.register(y as int) as int;
    let bits = (8 * rows) as nat;
    let once = state.execute(draw, keys).0;
    let twice = once.execute(draw, keys).0;
    let first = paint(state.pixels, width, height, sprite, left, top, bits);
    assert(once.memory == state.memory);
    assert(once.register(x as int) == state.register(x as int));
    assert(once.register(y as int) == state.register(y as int));
    assert(sprite_at_index(once, rows as int) == sprite);
    assert(once.pixels == first.0);
    lemma_paint_shape(state.pixels, width, height, sprite, left, top, bits);
    lemma_paint_twice_restores(state.pixels, width, height, sprite, left, top, bits);
    assert(twice.pixels == state.pixels);
    assert(twice.registers.len() == state.registers.len());
    if !first.1 {
        assert forall|bit: int|
            0 <= bit < 8 * rows && #[trigger] sprite_bit(sprite, bit)
            implies first.0[target_cell(width, height, left, top, bit)] == 1 by {
            lemma_paint_without_collision(
                state.pixels,
                width,
                height,
                sprite,
                left,
                top,
                bits,
                bit,
            );
        }
        if exists|bit: int| 0 <= bit < 8 * rows && #[trigger] sprite_bit(sprite, bit) {
            let witness = choose|bit: int|
                0 <= bit < 8 * rows && #[trigger] sprite_bit(sprite, bit);
            let lowest = lemma_first_set_bit(sprite, 0, witness);
            lemma_paint_without_collision(
                state.pixels,
                width,
                height,
                sprite,
                left,
                top,
                bits,
                lowest,
            );
            lemma_paint_collides(first.0, width, height, sprite, left, top, bits, lowest);
        }
    }
}

/// Two cycles in a row that draw the same sprite at the same place: the
/// display comes back as it was before the first, and where the first
/// turned no pixel off and the sprite has a pixel, `VF` ends at 1.
pub proof fn lemma_draw_twice_in_two_cycles(
    state: MachineState,
    x: u8,
    y: u8,
    rows: u8,
    first_keys: Seq<bool>,
    second_keys: Seq<bool>,
)
    requires
        state.wf(),
        x < FLAG_REGISTER,
        y < FLAG_REGISTER,
        state.index_register + rows <= MEMORY_SIZE,
        state.fetch() is Ok,
        decode_spec(state.fetch()->Ok_0) == Some(Instruction::Draw { x, y, rows }),
        state.jump((state.program_counter + 2) as u16).fetch() == state.fetch(),
    ensures
        ({
            let (once, first_result) = state.step(first_keys);
            let (twice, second_result) = once.step(second_keys);
            let sprite = sprite_at_index(state, rows as int);
            let has_pixel = exists|bit: int|
                0 <= bit < 8 * rows && #[trigger] sprite_bit(sprite, bit);
            &&& first_result is Ok
            &&& second_result is Ok
            &&& twice.pixels == state.pixels
            &&& once.registers[FLAG_REGISTER as int] == 0 && has_pixel
                ==> twice.registers[FLAG_REGISTER as int] == 1
        }),
{
    let advanced = state.jump((state.program_counter + 2) as u16);
    lemma_draw_twice(advanced, x, y, rows, first_keys);
    let draw = Instruction::Draw { x, y, rows };
    let once = state.step(first_keys).0;
    assert(once == advanced.execute(draw, first_keys).0);
    assert(once.memory == state.memory);
    assert(once.program_counter == advanced.program_counter);
    assert(once.fetch() == state.fetch());
    let again = once.jump((once.program_counter + 2) as u16);
    assert(once.step(second_keys) == again.execute(draw, second_keys));
    assert(sprite_at_index(advanced, rows as int) == sprite_at_index(state, rows as int));
    let replay = once.execute(draw, second_keys);
    assert(again.execute(draw, second_keys).0.pixels == replay.0.pixels);
    assert(again.execute(draw, second_keys).0.registers == replay.0.registers);
}

/// Applying an instruction whose registers exist keeps the machine
/// well-formed.
pub proof fn lemma_execute_keeps_wf(state: MachineState, instruction: Instruction, keys: Seq<bool>)
    requires
        state.wf(),
        instruction.registers_valid(),
    ensures
        state.execute(instruction, keys).0.wf(),
{
    match instruction {
        Instruction::Draw { x, y, rows } => {
            lemma_paint_shape(
                state.pixels,
                state.width as int,
                state.height as int,
                sprite_at_index(state, rows as int),
                state.register(x as int) as int,
                state.register(y as int) as int,
                (8 * rows) as nat,
            );
        },
        _ => {},
    }
}

/// A cycle keeps the machine well-formed: memory keeps its 4096 bytes, the
/// stack never holds more than `STACK_DEPTH` addresses, and the display
/// keeps its size and holds nothing but zeros and ones.
pub proof fn lemma_step_keeps_wf(state: MachineState, keys: Seq<bool>)
    requires
        state.wf(),
    ensures
        state.step(keys).0.wf(),
{
    if state.fetch() is Ok {
        let word = state.fetch()->Ok_0;
        if decode_spec(word) is Some {
            lemma_encode_inverts_decode(word);
            lemma_execute_keeps_wf(
                state.jump((state.program_counter + 2) as u16),
                decode_spec(word)->0,
                keys,
            );
        }
    }
}

/// A timer tick keeps the machine well-formed.
pub proof fn lemma_tick_keeps_wf(state: MachineState)
    requires
        state.wf(),
    ensures
        state.tick().wf(),
{
}

/// Any number of cycles keeps the machine well-formed.
pub proof fn lemma_steps_keep_wf(state: MachineState, inputs: Seq<Seq<bool>>)
    requires
        state.wf(),
    ensures
        state.steps(inputs).wf(),
    decreases inputs.len(),
{
    if inputs.len() > 0 {
        lemma_steps_keep_wf(state, inputs.drop_last());
        lemma_step_keeps_wf(state.steps(inputs.drop_last()), inputs.last());
    }
}

/// Whether an address is a multiple of two.
#[verifier::opaque]
pub open spec fn even(address: int) -> bool {
    address % 2 == 0
}

/// The program counter and every return address on the stack are even.
pub open spec fn aligned(state: MachineState) -> bool {
    &&& even(state.program_counter as int)
    &&& forall|slot: int|
        0 <= slot < state.stack.len() ==> even(#[trigger] state.stack[slot] as int)
}

/// Whether the next cycle of `state` executes a jump or a call to an odd
/// address.
pub open spec fn fetches_odd_target(state: MachineState) -> bool {
    &&& state.fetch() is Ok
    &&& match decode_spec(state.fetch()->Ok_0) {
        Some(Instruction::Jump { address }) => !even(address as int),
        Some(Instruction::Call { address }) => !even(address as int),
        Some(Instruction::JumpOffset { address }) => !even(address + state.register(0)),
        _ => false,
    }
}

/// Moving the program counter forward or back by one instruction keeps it even.
proof fn lemma_neighbours_are_even(counter: u16)
    requires
        even(counter as int),
    ensures
        even((counter + 2) % 0x10000),
        even((counter + 0x10000 - 2) % 0x10000),
        even(counter + 2),
{
    reveal(even);
}

/// A sum below 65536 is its own remainder.
proof fn lemma_small_sum(address: u16, offset: u8)
    requires
        address < 0x1000,
    ensures
        (address + offset) % 0x10000 == address + offset,
{
}

/// Applying an instruction keeps the program counter and the stack even,
/// unless it is a jump or a call to an odd address.
pub proof fn lemma_execute_keeps_alignment(
    state: MachineState,
    instruction: Instruction,
    keys: Seq<bool>,
)
    requires
        state.wf(),
        aligned(state),
        instruction.well_formed(),
        match instruction {
            Instruction::Jump { address } => even(address as int),
            Instruction::Call { address } => even(address as int),
            Instruction::JumpOffset { address } => even(address + state.register(0)),
            _ => true,
        },
    ensures
        aligned(state.execute(instruction, keys).0),
{
    lemma_neighbours_are_even(state.program_counter);
    let after = state.execute(instruction, keys).0;
    match instruction {
        Instruction::Return => {},
        Instruction::Call { address } => {},
        Instruction::Jump { address } => {},
        Instruction::JumpOffset { address } => {
            lemma_small_sum(address, state.register(0));
        },
        Instruction::SkipIfEqual { .. }
        | Instruction::SkipIfNotEqual { .. }
        | Instruction::SkipIfRegistersEqual { .. }
        | Instruction::SkipIfRegistersNotEqual { .. }
        | Instruction::SkipIfKeyDown { .. }
        | Instruction::SkipIfKeyUp { .. }
        | Instruction::WaitForKey { .. } => {
            assert(after.stack == state.stack);
        },
        _ => {
            assert(after.stack == state.stack);
            assert(after.program_counter == state.program_counter);
        },
    }
}

/// Instructions are two bytes long and a program that starts on an even
/// address stays on even addresses: a cycle keeps the program counter and
/// the stack even, unless it jumps or calls to an odd address.
pub proof fn lemma_step_keeps_alignment(state: MachineState, keys: Seq<bool>)
    requires
        state.wf(),
        aligned(state),
        !fetches_odd_target(state),
    ensures
        aligned(state.step(keys).0),
{
    if state.fetch() is Ok {
        let word = state.fetch()->Ok_0;
        let advanced = state.jump((state.program_counter + 2) as u16);
        lemma_neighbours_are_even(state.program_counter);
        assert(advanced.stack == state.stack);
        assert(aligned(advanced));
        if decode_spec(word) is Some {
            lemma_encode_inverts_decode(word);
            lemma_execute_keeps_alignment(advanced, decode_spec(word)->0, keys);
        }
    }
}

/// Whether the next cycle of `state` executes `00E0` or `Dxyn`.
pub open spec fn fetches_display_write(state: MachineState) -> bool {
    &&& state.fetch() is Ok
    &&& decode_spec(state.fetch()->Ok_0) is Some
    &&& (decode_spec(state.fetch()->Ok_0)->0 is ClearScreen || decode_spec(
        state.fetch()->Ok_0,
    )->0 is Draw)
}

/// The display changes by drawing and clearing alone: a cycle that executes
/// neither leaves every pixel as it was, and no cycle changes the display's
/// size. A timer tick leaves the display alone too.
pub proof fn lemma_display_changes_by_draw_and_clear(state: MachineState, keys: Seq<bool>)
    requires
        state.wf(),
    ensures
        state.step(keys).0.width == state.width,
        state.step(keys).0.height == state.height,
        state.step(keys).0.pixels.len() == state.pixels.len(),
        !fetches_display_write(state) ==> state.step(keys).0.pixels == state.pixels,
        state.tick().pixels == state.pixels,
        state.tick().width == state.width,
        state.tick().height == state.height,
{
    lemma_step_keeps_wf(state, keys);
    if state.fetch() is Ok && decode_spec(state.fetch()->Ok_0) is Some {
        lemma_encode_inverts_decode(state.fetch()->Ok_0);
    }
}

/// A cycle that fails has no partial effect: when the word cannot be fetched
/// the machine is as it was, and otherwise only the program counter has
/// moved, past the word.
pub proof fn lemma_failed_step_moves_only_program_counter(state: MachineState, keys: Seq<bool>)
    requires
        state.step(keys).1 is Err,
    ensures
        state.fetch() is Err ==> state.step(keys) == (
            state,
            Err::<(), EmulatorError>(EmulatorError::MemoryOutOfBounds),
        ),
        state.fetch() is Ok ==> state.step(keys).0 == state.jump(
            (state.program_counter + 2) as u16,
        ),
{
}

/// Whether the next cycle of `state` executes a skip whose condition holds.
pub open spec fn fetches_taken_skip(state: MachineState, keys: Seq<bool>) -> bool {
    &&& state.fetch() is Ok
    &&& match decode_spec(state.fetch()->Ok_0) {
        Some(Instruction::SkipIfEqual { x, value }) => state.register(x as int) == value,
        Some(Instruction::SkipIfNotEqual { x, value }) => state.register(x as int) != value,
        Some(Instruction::SkipIfRegistersEqual { x, y }) => state.register(x as int)
            == state.register(y as int),
        Some(Instruction::SkipIfRegistersNotEqual { x, y }) => state.register(x as int)
            != state.register(y as int),
        Some(Instruction::SkipIfKeyDown { x }) => state.key_down(x as int, keys),
        Some(Instruction::SkipIfKeyUp { x }) => !state.key_down(x as int, keys),
        _ => false,
    }
}

/// Whether the next cycle of `state` executes one of the six skips.
pub open spec fn fetches_skip(state: MachineState) -> bool {
    &&& state.fetch() is Ok
    &&& decode_spec(state.fetch()->Ok_0) is Some
    &&& ({
        let instruction = decode_spec(state.fetch()->Ok_0)->0;
        ||| instruction is SkipIfEqual
        ||| instruction is SkipIfNotEqual
        ||| instruction is SkipIfRegistersEqual
        ||| instruction is SkipIfRegistersNotEqual
        ||| instruction is SkipIfKeyDown
        ||| instruction is SkipIfKeyUp
    })
}

/// A skip moves the program counter two bytes further than any instruction
/// does: a cycle that executes a skip succeeds, changes nothing but the
/// program counter, and leaves it four bytes on when the condition holds
/// and two bytes on when it does not.
pub proof fn lemma_skip_moves_two_further(state: MachineState, keys: Seq<bool>)
    requires
        fetches_skip(state),
    ensures
        state.step(keys).1 is Ok,
        state.step(keys).0 == state.jump(
            (state.program_counter + if fetches_taken_skip(state, keys) {
                4int
            } else {
                2int
            }) as u16,
        ),
{
    let word = state.fetch()->Ok_0;
    let advanced = state.jump((state.program_counter + 2) as u16);
    assert(state.program_counter + 1 < MEMORY_SIZE);
    assert(advanced.program_counter == state.program_counter + 2);
    assert(advanced.registers == state.registers);
    let taken = fetches_taken_skip(state, keys);
    assert(advanced.skip_if(true) == state.jump((state.program_counter + 4) as u16));
    assert(advanced.skip_if(false) == advanced);
    match decode_spec(word)->0 {
        Instruction::SkipIfEqual { x, value } => {
            assert(state.step(keys) == (advanced.skip_if(taken), Ok::<(), EmulatorError>(())));
        },
        Instruction::SkipIfNotEqual { x, value } => {
            assert(state.step(keys) == (advanced.skip_if(taken), Ok::<(), EmulatorError>(())));
        },
        Instruction::SkipIfRegistersEqual { x, y } => {
            assert(state.step(keys) == (advanced.skip_if(taken), Ok::<(), EmulatorError>(())));
        },
        Instruction::SkipIfRegistersNotEqual { x, y } => {
            assert(state.step(keys) == (advanced.skip_if(taken), Ok::<(), EmulatorError>(())));
        },
        Instruction::SkipIfKeyDown { x } => {
            assert(state.step(keys) == (advanced.skip_if(taken), Ok::<(), EmulatorError>(())));
        },
        Instruction::SkipIfKeyUp { x } => {
            assert(state.step(keys) == (advanced.skip_if(taken), Ok::<(), EmulatorError>(())));
        },
        _ => {},
    }
}

/// Any number of cycles with the same keys, up to the first that fails,
/// keeps the machine well-formed.
pub proof fn lemma_cycles_keep_wf(state: MachineState, keys: Seq<bool>, count: nat)
    requires
        state.wf(),
    ensures
        state.cycles(keys, count).0.wf(),
    decreases count,
{
    if count > 0 {
        lemma_step_keeps_wf(state, keys);
        if state.step(keys).1 is Ok {
            lemma_cycles_keep_wf(state.step(keys).0, keys, (count - 1) as nat);
        }
    }
}

/// Any number of ticks keeps the machine well-formed.
pub proof fn lemma_ticks_keep_wf(state: MachineState, count: nat)
    requires
        state.wf(),
    ensures
        state.ticks(count).wf(),
    decreases count,
{
    if count > 0 {
        lemma_ticks_keep_wf(state, (count - 1) as nat);
    }
}

/// Accounting for real time keeps the machine well-formed, and carries over
/// less than one tick and less than one cycle.
pub proof fn lemma_run_keeps_wf(state: MachineState, elapsed_micros: u64, keys: Seq<bool>)
    requires
        state.wf(),
    ensures
        state.run(elapsed_micros, keys).0.wf(),
{
    let paced = MachineState {
        cycle_credit: credit_left(
            state.cycle_credit,
            elapsed_micros,
            state.instructions_per_second,
        ),
        tick_credit: credit_left(
            state.tick_credit,
            elapsed_micros,
            TIMER_FREQUENCY,
        ),
        ..state
    };
    lemma_product_fits(elapsed_micros, state.instructions_per_second);
    lemma_product_fits(elapsed_micros, TIMER_FREQUENCY);
    assert(paced.wf());
    let ticks = events_due(
        state.tick_credit,
        elapsed_micros,
        TIMER_FREQUENCY,
    );
    lemma_ticks_keep_wf(paced, ticks);
    lemma_cycles_keep_wf(
        paced.ticks(ticks),
        keys,
        events_due(
            state.cycle_credit,
            elapsed_micros,
            state.instructions_per_second,
        ),
    );
}

/// No time is lost and none is made up: the ticks and cycles that come due,
/// each at its millionfold weight, together with what is carried over, add
/// up to what was carried in plus the time that went by at the event's rate.
pub proof fn lemma_pacing_conserves_time(credit: nat, elapsed_micros: u64, rate: u32)
    ensures
        events_due(credit, elapsed_micros, rate) * MICROS_PER_SECOND + credit_left(
            credit,
            elapsed_micros,
            rate,
        ) == credit + elapsed_micros * rate,
        credit_left(credit, elapsed_micros, rate) < MICROS_PER_SECOND,
{
    lemma_product_fits(elapsed_micros, rate);
}

/// A cycle sees no more of the keypad than it asks for: with two sets of
/// keys that agree on what `required_keys` names, the cycle comes out the
/// same. Where it asks for nothing, the keys do not matter at all; where it
/// asks for any key, only the lowest key that is down matters.
pub proof fn lemma_step_reads_only_required_keys(
    state: MachineState,
    first: Seq<bool>,
    second: Seq<bool>,
)
    requires
        first.len() == second.len(),
        match state.required_keys() {
            KeyQuery::Nothing => true,
            KeyQuery::Key(key) => first[key as int] == second[key as int],
            KeyQuery::AnyKey => lowest_key_down(first, 0) == lowest_key_down(second, 0),
        },
    ensures
        state.step(first) == state.step(second),
{
    if state.fetch() is Ok {
        let word = state.fetch()->Ok_0;
        let advanced = state.jump((state.program_counter + 2) as u16);
        assert(advanced.registers == state.registers);
        match decode_spec(word) {
            Some(Instruction::SkipIfKeyDown { x }) => {
                assert(advanced.key_down(x as int, first) == advanced.key_down(x as int, second));
            },
            Some(Instruction::SkipIfKeyUp { x }) => {
                assert(advanced.key_down(x as int, first) == advanced.key_down(x as int, second));
            },
            Some(Instruction::WaitForKey { x }) => {
                assert(advanced.wait_for_key(x as int, first) == advanced.wait_for_key(
                    x as int,
                    second,
                ));
            },
            Some(instruction) => {
                assert(advanced.execute(instruction, first) == advanced.execute(
                    instruction,
                    second,
                ));
            },
            None => {},
        }
    }
}

} // verus!
