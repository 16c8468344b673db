use vstd::prelude::*;
use rand::rngs::SmallRng;
use vstd::slice::slice_subrange;
use crate::display::{
    draw, draw_collides, draw_sprite, flat_frame, frame_rows, ROW_BYTES, SCREEN_HEIGHT,
};
use crate::parser::parse_instruction;
use crate::random::{next_byte, seeded_generator};
use crate::instructions::Instruction;
use crate::state::{
    blank_frame, carried_out, decimal_digits, initial_state, lemma_step_well_formed, ticked,
    ExecutionError, MachineState, FLAG_REGISTER, MEMORY_SIZE, PROGRAM_START, STACK_CAPACITY,
};

verus! {

/// The machine: registers, timers, counter, call stack, memory, frame
/// buffer, the pressed key, and a random generator of its own.
pub struct Context {
    pub registers: [u8; 16],
    pub i_register: u16,
    pub delay_timer: u8,
    pub sound_timer: u8,
    pub program_counter: u16,
    pub stack_pointer: Vec<u16>,
    pub keyboard_input: Option<u8>,
    pub memory_map: Vec<u8>,
    pub graphics_buffer: Vec<Vec<u8>>,
    pub rng: SmallRng,
}

impl View for Context {
    type V = MachineState;

    open spec fn view(&self) -> MachineState {
        MachineState {
            registers: self.registers@,
            index: self.i_register,
            delay_timer: self.delay_timer,
            sound_timer: self.sound_timer,
            counter: self.program_counter,
            stack: self.stack_pointer@,
            memory: self.memory_map@,
            frame: frame_rows(self.graphics_buffer@),
            key: self.keyboard_input,
        }
    }
}

/// Splits `n` into its hundreds, tens and units digits, each modulo ten.
pub fn dec_to_bcd(n: u16) -> (digits: (u8, u8, u8))
    ensures
        digits == decimal_digits(n as int),
        digits.0 < 10 && digits.1 < 10 && digits.2 < 10,
        n < 1000 ==> 100 * digits.0 + 10 * digits.1 + digits.2 == n,
{
    let hundreds = (n / 100) % 10;
    let tens = (n / 10) % 10;
    let units = n % 10;
    (hundreds as u8, tens as u8, units as u8)
}

/// The sum of two bytes modulo 256, and whether it carried.
fn add_carry(a: u8, b: u8) -> (r: (u8, bool))
    ensures
        r.0 == (a + b) % 256,
        r.1 == (a + b > 255),
{
    let sum = a as u16 + b as u16;
    ((sum % 256) as u8, sum > 255)
}

/// The difference of two bytes modulo 256, and whether the first is the
/// greater.
fn sub_borrow(a: u8, b: u8) -> (r: (u8, bool))
    ensures
        r.0 == (a - b) % 256,
        r.1 == (a > b),
{
    if a >= b {
        (a - b, a > b)
    } else {
        ((a as u16 + 256 - b as u16) as u8, false)
    }
}

/// A byte shifted right by `by` places, and whether its lowest bit was set.
fn shift_right(a: u8, by: u8) -> (r: (u8, bool))
    ensures
        r.0 == a >> by,
        r.1 == (a % 2 == 1),
{
    proof {
        assert(by >= 8 ==> a >> by == 0) by (bit_vector);
        assert((a & 1 == 1) == (a % 2 == 1)) by (bit_vector);
    }
    let shifted = if by >= 8 {
        0
    } else {
        a >> by
    };
    (shifted, a & 1 == 1)
}

/// A byte doubled modulo 256, and whether its highest bit was set.
fn shift_left(a: u8) -> (r: (u8, bool))
    ensures
        r.0 == (a * 2) % 256,
        r.1 == (a >= 128),
{
    proof {
        assert(a << 1 == (a * 2) % 256) by (bit_vector);
        assert((a & 0x80 != 0) == (a >= 128)) by (bit_vector);
    }
    (a << 1, a & 0x80 != 0)
}

/// A row of the screen with every pixel dark.
fn blank_row() -> (row: Vec<u8>)
    ensures
        row@ == Seq::new(ROW_BYTES as nat, |c: int| 0u8),
{
    let mut row: Vec<u8> = Vec::new();
    while row.len() < ROW_BYTES
        invariant
            row.len() <= ROW_BYTES,
            forall|c: int| 0 <= c < row.len() ==> row[c] == 0,
        decreases ROW_BYTES - row.len(),
    {
        row.push(0);
    }
    assert(row@ =~= Seq::new(ROW_BYTES as nat, |c: int| 0u8));
    row
}

/// A frame buffer with every pixel dark.
fn blank_screen() -> (frame: Vec<Vec<u8>>)
    ensures
        frame_rows(frame@) == blank_frame(),
{
    let mut frame: Vec<Vec<u8>> = Vec::new();
    while frame.len() < SCREEN_HEIGHT
        invariant
            frame.len() <= SCREEN_HEIGHT,
            forall|r: int|
                0 <= r < frame.len() ==> (#[trigger] frame[r])@ == Seq::new(
                    ROW_BYTES as nat,
                    |c: int| 0u8,
                ),
        decreases SCREEN_HEIGHT - frame.len(),
    {
        frame.push(blank_row());
    }
    assert(frame_rows(frame@) =~= blank_frame());
    frame
}

/// Memory with `program` loaded at `PROGRAM_START` and zero elsewhere.
fn load_image(program: &[u8]) -> (memory: Vec<u8>)
    requires
        PROGRAM_START + program.len() <= MEMORY_SIZE,
    ensures
        memory@ == initial_state(program@).memory,
{
    let mut memory: Vec<u8> = Vec::new();
    let start = PROGRAM_START as usize;
    while memory.len() < MEMORY_SIZE
        invariant
            start == PROGRAM_START,
            start + program.len() <= MEMORY_SIZE,
            memory.len() <= MEMORY_SIZE,
            forall|a: int|
                0 <= a < memory.len() ==> memory[a] == initial_state(program@).memory[a],
        decreases MEMORY_SIZE - memory.len(),
    {
        let address = memory.len();
        if address >= start && address - start < program.len() {
            memory.push(program[address - start]);
        } else {
            memory.push(0);
        }
    }
    assert(memory@ =~= initial_state(program@).memory);
    memory
}

impl Context {
    /// The shape that construction gives and every operation keeps.
    pub open spec fn well_formed(&self) -> bool {
        self@.well_formed()
    }

    /// A machine with `data` loaded at `PROGRAM_START`, everything else
    /// zero, the counter at `PROGRAM_START`, and a generator seeded with
    /// `seed`. The image must fit between `PROGRAM_START` and the end of
    /// memory.
    pub fn new(data: &[u8], seed: u64) -> (context: Context)
        requires
            PROGRAM_START + data.len() <= MEMORY_SIZE,
        ensures
            context@ == initial_state(data@),
            context.well_formed(),
    {
        let context = Context {
            registers: [0; 16],
            i_register: 0,
            delay_timer: 0,
            sound_timer: 0,
            program_counter: PROGRAM_START,
            stack_pointer: Vec::new(),
            keyboard_input: None,
            memory_map: load_image(data),
            graphics_buffer: blank_screen(),
            rng: seeded_generator(seed),
        };
        assert(context.registers@ =~= Seq::new(16, |i: int| 0u8));
        assert(context.stack_pointer@ =~= Seq::<u16>::empty());
        context
    }

    /// The counter `instructions` instruction widths on, if it fits.
    fn next_counter(&self, instructions: u16) -> (result: Result<u16, ExecutionError>)
        requires
            instructions <= 2,
        ensures
            match self@.advance(instructions as int) {
                Ok(next) => result == Ok::<u16, ExecutionError>(next.counter),
                Err(error) => result == Err::<u16, ExecutionError>(error),
            },
    {
        match self.program_counter.checked_add(2 * instructions) {
            Some(counter) => Ok(counter),
            None => Err(ExecutionError::MemoryOutOfBounds),
        }
    }

    /// Stores `flag` in the flag register, then `value` in register `x`.
    fn set_flagged(&mut self, x: u8, value: u8, flag: bool)
        requires
            x < 16,
        ensures
            final(self)@ == old(self)@.with_flagged(x, value, flag),
    {
        self.registers[FLAG_REGISTER] = if flag {
            1
        } else {
            0
        };
        self.registers[x as usize] = value;
    }

    /// Carries out an instruction that sets the flag register.
    fn run_flagged(&mut self, instruction: Instruction)
        requires
            old(self).well_formed(),
            instruction.registers_in_range(),
            instruction is AddReg || instruction is SubReg || instruction is SubN
                || instruction is ShiftRight || instruction is ShiftLeft,
        ensures
            final(self)@ == old(self)@.compute(instruction),
    {
        match instruction {
            Instruction::AddReg(x, y) => {
                let (value, flag) = add_carry(self.registers[x as usize], self.registers[y as usize]);
                self.set_flagged(x, value, flag);
            },
            Instruction::SubReg(x, y) => {
                let (value, flag) = sub_borrow(
                    self.registers[x as usize],
                    self.registers[y as usize],
                );
                self.set_flagged(x, value, flag);
            },
            Instruction::SubN(x, y) => {
                let (value, flag) = sub_borrow(
                    self.registers[y as usize],
                    self.registers[x as usize],
                );
                self.set_flagged(x, value, flag);
            },
            Instruction::ShiftRight(x, amount) => {
                let by = match amount {
                    Some(y) => self.registers[y as usize],
                    None => 1,
                };
                let (value, flag) = shift_right(self.registers[x as usize], by);
                self.set_flagged(x, value, flag);
            },
            Instruction::ShiftLeft(x, _) => {
                let (value, flag) = shift_left(self.registers[x as usize]);
                self.set_flagged(x, value, flag);
            },
            _ => {},
        }
    }

    /// Carries out an instruction of the arithmetic and logic group.
    fn run_compute(&mut self, instruction: Instruction) -> (result: Result<(), ExecutionError>)
        requires
            old(self).well_formed(),
            instruction.registers_in_range(),
        ensures
            carried_out(
                old(self)@,
                old(self)@.compute(instruction).advance(1),
                final(self)@,
                result,
            ),
    {
        let counter = match self.next_counter(1) {
            Ok(counter) => counter,
            Err(error) => { return Err(error); },
        };
        match instruction {
            Instruction::SetValue(x, value) => {
                self.registers[x as usize] = value;
            },
            Instruction::Add(x, value) => {
                let sum = self.registers[x as usize] as u16 + value as u16;
                self.registers[x as usize] = (sum % 256) as u8;
            },
            Instruction::SetReg(x, y) => {
                self.registers[x as usize] = self.registers[y as usize];
            },
            Instruction::Or(x, y) => {
                self.registers[x as usize] = self.registers[x as usize] | self.registers[y as usize];
            },
            Instruction::And(x, y) => {
                self.registers[x as usize] = self.registers[x as usize] & self.registers[y as usize];
            },
            Instruction::Xor(x, y) => {
                self.registers[x as usize] = self.registers[x as usize] ^ self.registers[y as usize];
            },
            Instruction::AddReg(_, _)
            | Instruction::SubReg(_, _)
            | Instruction::SubN(_, _)
            | Instruction::ShiftRight(_, _)
            | Instruction::ShiftLeft(_, _) => {
                self.run_flagged(instruction);
            },
            _ => {},
        }
        self.program_counter = counter;
        Ok(())
    }

    /// Carries out an instruction of the timer, key and index group.
    fn run_transfer(&mut self, instruction: Instruction) -> (result: Result<(), ExecutionError>)
        requires
            old(self).well_formed(),
            instruction.registers_in_range(),
        ensures
            carried_out(old(self)@, old(self)@.transfer(instruction), final(self)@, result),
    {
        let waiting = match instruction {
            Instruction::WaitForKey(_) => self.keyboard_input.is_none(),
            Instruction::SetDelayTimer(_)
            | Instruction::SetDelayTimerReg(_)
            | Instruction::SetSoundTimerReg(_)
            | Instruction::AddToI(_)
            | Instruction::SetSpriteLocation(_)
            | Instruction::SetI(_) => false,
            _ => true,
        };
        if waiting {
            return Ok(());
        }
        let counter = match self.next_counter(1) {
            Ok(counter) => counter,
            Err(error) => { return Err(error); },
        };
        match instruction {
            Instruction::SetDelayTimer(x) => {
                self.registers[x as usize] = self.delay_timer;
            },
            Instruction::WaitForKey(x) => {
                if let Some(key) = self.keyboard_input {
                    self.registers[x as usize] = key;
                }
            },
            Instruction::SetDelayTimerReg(x) => {
                self.delay_timer = self.registers[x as usize];
            },
            Instruction::SetSoundTimerReg(x) => {
                self.sound_timer = self.registers[x as usize];
            },
            Instruction::AddToI(x) => {
                let sum = self.i_register as u32 + self.registers[x as usize] as u32;
                self.i_register = (sum % 65536) as u16;
            },
            Instruction::SetSpriteLocation(x) => {
                self.i_register = self.registers[x as usize] as u16;
            },
            Instruction::SetI(address) => {
                self.i_register = address;
            },
            _ => {},
        }
        self.program_counter = counter;
        Ok(())
    }

    /// Carries out an instruction of the control group.
    fn run_branch(&mut self, instruction: Instruction) -> (result: Result<(), ExecutionError>)
        requires
            old(self).well_formed(),
            instruction.registers_in_range(),
        ensures
            carried_out(old(self)@, old(self)@.branch(instruction), final(self)@, result),
    {
        let skipped = match instruction {
            Instruction::Return => {
                return match self.stack_pointer.pop() {
                    Some(address) => {
                        self.program_counter = address;
                        Ok(())
                    },
                    None => Err(ExecutionError::StackUnderflow),
                };
            },
            Instruction::Jump(address) => {
                self.program_counter = address;
                return Ok(());
            },
            Instruction::Call(address) => {
                if self.stack_pointer.len() >= STACK_CAPACITY {
                    return Err(ExecutionError::StackOverflow);
                }
                self.stack_pointer.push(self.program_counter);
                self.program_counter = address;
                return Ok(());
            },
            Instruction::JumpToPlusV0(address) => {
                return match address.checked_add(self.registers[0] as u16) {
                    Some(target) => {
                        self.program_counter = target;
                        Ok(())
                    },
                    None => Err(ExecutionError::MemoryOutOfBounds),
                };
            },
            Instruction::SkipIfEqual(x, value) => self.registers[x as usize] == value,
            Instruction::SkipIfNotEqual(x, value) => self.registers[x as usize] != value,
            Instruction::SkipIfEqualReg(x, y) => self.registers[x as usize]
                == self.registers[y as usize],
            Instruction::SkipIfNotEqualReg(x, y) => self.registers[x as usize]
                != self.registers[y as usize],
            Instruction::SkipIfKeyPressed(x) => match self.keyboard_input {
                Some(key) => key == self.registers[x as usize],
                None => false,
            },
            Instruction::SkipIfKeyNotPressed(x) => match self.keyboard_input {
                Some(key) => key != self.registers[x as usize],
                None => true,
            },
            _ => { return Ok(()); },
        };
        let counter = match self.next_counter(if skipped { 2 } else { 1 }) {
            Ok(counter) => counter,
            Err(error) => { return Err(error); },
        };
        self.program_counter = counter;
        Ok(())
    }

    /// Whether the `count` bytes from the index register on lie in memory.
    fn index_in_bounds(&self, count: usize) -> (reaches: bool)
        requires
            self.well_formed(),
            count <= 256,
        ensures
            reaches == self@.index_reaches(count as int),
    {
        count == 0 || self.i_register as usize + count <= MEMORY_SIZE
    }

    /// Writes the decimal digits of `value` at the index register.
    fn store_digits(&mut self, value: u8)
        requires
            old(self).well_formed(),
            old(self)@.index_reaches(3),
        ensures
            final(self)@ == (MachineState {
                memory: old(self)@.memory.update(
                    old(self)@.index as int,
                    decimal_digits(value as int).0,
                ).update(old(self)@.index + 1, decimal_digits(value as int).1).update(
                    old(self)@.index + 2,
                    decimal_digits(value as int).2,
                ),
                ..old(self)@
            }),
    {
        let digits = dec_to_bcd(value as u16);
        let at = self.i_register as usize;
        self.memory_map[at] = digits.0;
        self.memory_map[at + 1] = digits.1;
        self.memory_map[at + 2] = digits.2;
    }

    /// Copies registers `0..=last` to memory at the index register.
    fn store_registers(&mut self, last: u8)
        requires
            old(self).well_formed(),
            last < 16,
            old(self)@.index_reaches(last + 1),
        ensures
            final(self)@ == (MachineState {
                memory: Seq::new(
                    4096,
                    |a: int|
                        if old(self)@.index <= a <= old(self)@.index + last {
                            old(self)@.registers[a - old(self)@.index]
                        } else {
                            old(self)@.memory[a]
                        },
                ),
                ..old(self)@
            }),
    {
        let ghost before = self@;
        let at = self.i_register as usize;
        let mut i: usize = 0;
        while i <= last as usize
            invariant
                i <= last + 1,
                last < 16,
                at == before.index,
                at + last < MEMORY_SIZE,
                before.well_formed(),
                self@ == (MachineState { memory: self@.memory, ..before }),
                self@.memory.len() == MEMORY_SIZE,
                forall|a: int|
                    0 <= a < 4096 ==> self@.memory[a] == if at <= a < at + i {
                        before.registers[a - at]
                    } else {
                        before.memory[a]
                    },
            decreases last + 1 - i,
        {
            self.memory_map[at + i] = self.registers[i];
            i += 1;
        }
        assert(self@.memory =~= Seq::new(
            4096,
            |a: int|
                if before.index <= a <= before.index + last {
                    before.registers[a - before.index]
                } else {
                    before.memory[a]
                },
        ));
    }

    /// Copies memory at the index register to registers `0..=last`.
    fn load_registers(&mut self, last: u8)
        requires
            old(self).well_formed(),
            last < 16,
            old(self)@.index_reaches(last + 1),
        ensures
            final(self)@ == (MachineState {
                registers: Seq::new(
                    16,
                    |i: int|
                        if i <= last {
                            old(self)@.memory[old(self)@.index + i]
                        } else {
                            old(self)@.registers[i]
                        },
                ),
                ..old(self)@
            }),
    {
        let ghost before = self@;
        let at = self.i_register as usize;
        let mut i: usize = 0;
        while i <= last as usize
            invariant
                i <= last + 1,
                last < 16,
                at == before.index,
                at + last < MEMORY_SIZE,
                before.well_formed(),
                self@ == (MachineState { registers: self@.registers, ..before }),
                self@.registers.len() == 16,
                forall|r: int|
                    0 <= r < 16 ==> self@.registers[r] == if r < i {
                        before.memory[at + r]
                    } else {
                        before.registers[r]
                    },
            decreases last + 1 - i,
        {
            self.registers[i] = self.memory_map[at + i];
            i += 1;
        }
        assert(self@.registers =~= Seq::new(
            16,
            |i: int|
                if i <= last {
                    before.memory[before.index + i]
                } else {
                    before.registers[i]
                },
        ));
    }

    /// Draws the `height` bytes at the index register as a sprite at
    /// (`x`, `y`) and stores the collision in the flag register.
    fn draw_at_index(&mut self, x: u8, y: u8, height: u8)
        requires
            old(self).well_formed(),
            old(self)@.index_reaches(height as int),
        ensures
            final(self)@ == (MachineState {
                frame: draw(
                    old(self)@.frame,
                    x,
                    y,
                    old(self)@.at_index(height as int),
                ),
                registers: old(self)@.registers.update(
                    FLAG_REGISTER as int,
                    if draw_collides(
                        old(self)@.frame,
                        x,
                        y,
                        old(self)@.at_index(height as int),
                    ) {
                        1u8
                    } else {
                        0u8
                    },
                ),
                ..old(self)@
            }),
    {
        let start = if height == 0 {
            0
        } else {
            self.i_register as usize
        };
        let sprite = slice_subrange(self.memory_map.as_slice(), start, start + height as usize);
        proof {
            assert(sprite@ =~= self@.at_index(height as int));
        }
        let collision = draw_sprite(&mut self.graphics_buffer, x, y, sprite);
        self.registers[FLAG_REGISTER] = if collision {
            1
        } else {
            0
        };
    }

    /// Carries out an instruction of the memory group.
    fn run_access(&mut self, instruction: Instruction) -> (result: Result<(), ExecutionError>)
        requires
            old(self).well_formed(),
            instruction.registers_in_range(),
        ensures
            carried_out(old(self)@, old(self)@.access(instruction), final(self)@, result),
    {
        let count: usize = match instruction {
            Instruction::StoreBCD(_) => 3,
            Instruction::StoreRegRange(x) => x as usize + 1,
            Instruction::LoadRegRange(x) => x as usize + 1,
            Instruction::Display(_, _, height) => height as usize,
            _ => { return Ok(()); },
        };
        if !self.index_in_bounds(count) {
            return Err(ExecutionError::MemoryOutOfBounds);
        }
        let counter = match self.next_counter(1) {
            Ok(counter) => counter,
            Err(error) => { return Err(error); },
        };
        match instruction {
            Instruction::StoreBCD(x) => {
                let value = self.registers[x as usize];
                self.store_digits(value);
            },
            Instruction::StoreRegRange(x) => {
                self.store_registers(x);
            },
            Instruction::LoadRegRange(x) => {
                self.load_registers(x);
            },
            Instruction::Display(x, y, height) => {
                let left = self.registers[x as usize];
                let top = self.registers[y as usize];
                self.draw_at_index(left, top, height);
            },
            _ => {},
        }
        self.program_counter = counter;
        Ok(())
    }

    /// Carries out one decoded instruction. `random` is the byte that
    /// `SetRandom` masks; no other instruction reads it.
    ///
    /// On an error nothing has changed. A return with an empty stack is
    /// such an error, not a no-op.
    pub fn execute(&mut self, instruction: Instruction, random: u8) -> (result: Result<
        (),
        ExecutionError,
    >)
        requires
            old(self).well_formed(),
        ensures
            final(self).well_formed(),
            carried_out(old(self)@, old(self)@.step(instruction, random), final(self)@, result),
    {
        proof {
            lemma_step_well_formed(self@, instruction, random);
        }
        if !instruction.has_valid_registers() {
            return Err(ExecutionError::InvalidRegisterIndex);
        }
        match instruction {
            Instruction::Sys(_) | Instruction::Data(_) => {
                match self.next_counter(1) {
                    Ok(counter) => {
                        self.program_counter = counter;
                        Ok(())
                    },
                    Err(error) => Err(error),
                }
            },
            Instruction::ClearScreen => {
                match self.next_counter(1) {
                    Ok(counter) => {
                        self.graphics_buffer = blank_screen();
                        self.program_counter = counter;
                        Ok(())
                    },
                    Err(error) => Err(error),
                }
            },
            Instruction::SetRandom(x, mask) => {
                match self.next_counter(1) {
                    Ok(counter) => {
                        self.registers[x as usize] = random & mask;
                        self.program_counter = counter;
                        Ok(())
                    },
                    Err(error) => Err(error),
                }
            },
            Instruction::SetValue(_, _)
            | Instruction::Add(_, _)
            | Instruction::SetReg(_, _)
            | Instruction::Or(_, _)
            | Instruction::And(_, _)
            | Instruction::Xor(_, _)
            | Instruction::AddReg(_, _)
            | Instruction::SubReg(_, _)
            | Instruction::SubN(_, _)
            | Instruction::ShiftRight(_, _)
            | Instruction::ShiftLeft(_, _) => self.run_compute(instruction),
            Instruction::SetDelayTimer(_)
            | Instruction::WaitForKey(_)
            | Instruction::SetDelayTimerReg(_)
            | Instruction::SetSoundTimerReg(_)
            | Instruction::AddToI(_)
            | Instruction::SetSpriteLocation(_)
            | Instruction::SetI(_) => self.run_transfer(instruction),
            Instruction::StoreBCD(_)
            | Instruction::StoreRegRange(_)
            | Instruction::LoadRegRange(_)
            | Instruction::Display(_, _, _) => self.run_access(instruction),
            Instruction::Return
            | Instruction::Jump(_)
            | Instruction::Call(_)
            | Instruction::JumpToPlusV0(_)
            | Instruction::SkipIfEqual(_, _)
            | Instruction::SkipIfNotEqual(_, _)
            | Instruction::SkipIfEqualReg(_, _)
            | Instruction::SkipIfNotEqualReg(_, _)
            | Instruction::SkipIfKeyPressed(_)
            | Instruction::SkipIfKeyNotPressed(_) => self.run_branch(instruction),
        }
    }

    /// Fetches the instruction at the counter, decodes it, carries it out
    /// and returns it. The timers are not touched.
    ///
    /// The generator is asked for a byte only when the instruction is
    /// `SetRandom`; any other instruction has one outcome. On an error
    /// nothing but the generator has changed.
    pub fn tick(&mut self) -> (result: Result<Instruction, ExecutionError>)
        requires
            old(self).well_formed(),
        ensures
            final(self).well_formed(),
            exists|random: u8| ticked(old(self)@, random, final(self)@, result),
            !(old(self)@.fetch() matches Ok(Instruction::SetRandom(_, _))) ==> ticked(
                old(self)@,
                0,
                final(self)@,
                result,
            ),
    {
        let at = self.program_counter as usize;
        if at + 1 >= MEMORY_SIZE {
            assert(ticked(self@, 0, self@, Err(ExecutionError::MemoryOutOfBounds)));
            return Err(ExecutionError::MemoryOutOfBounds);
        }
        let instruction = parse_instruction([self.memory_map[at], self.memory_map[at + 1]]);
        let random = match instruction {
            Instruction::SetRandom(_, _) => next_byte(&mut self.rng),
            _ => 0,
        };
        let ghost before = self@;
        let result = match self.execute(instruction, random) {
            Ok(()) => Ok(instruction),
            Err(error) => Err(error),
        };
        assert(ticked(before, random, self@, result));
        result
    }

    /// The frame buffer as one run of bytes, row after row: eight packed
    /// pixels to the byte, thirty-two rows of eight bytes.
    pub fn get_flat_graphics_buffer(&self) -> (buffer: Vec<u8>)
        requires
            self.well_formed(),
        ensures
            buffer@ == flat_frame(self@.frame),
    {
        let mut buffer: Vec<u8> = Vec::new();
        let mut r: usize = 0;
        while r < SCREEN_HEIGHT
            invariant
                r <= SCREEN_HEIGHT,
                self.well_formed(),
                buffer.len() == r * ROW_BYTES,
                forall|i: int| 0 <= i < buffer.len() ==> buffer[i] == self@.frame[i / 8][i % 8],
            decreases SCREEN_HEIGHT - r,
        {
            let mut c: usize = 0;
            while c < ROW_BYTES
                invariant
                    c <= ROW_BYTES,
                    r < SCREEN_HEIGHT,
                    self.well_formed(),
                    buffer.len() == r * ROW_BYTES + c,
                    forall|i: int|
                        0 <= i < buffer.len() ==> buffer[i] == self@.frame[i / 8][i % 8],
                decreases ROW_BYTES - c,
            {
                assert(self@.frame[r as int].len() == ROW_BYTES);
                assert(self@.frame[r as int][c as int] == self.graphics_buffer[r as int][c as int]);
                buffer.push(self.graphics_buffer[r][c]);
                c += 1;
            }
            r += 1;
        }
        assert(buffer@ =~= flat_frame(self@.frame));
        buffer
    }

    /// Counts both timers down by one, stopping at zero. To be called sixty
    /// times a second, whatever the pace of `tick`.
    pub fn decrement_timers(&mut self)
        ensures
            final(self)@ == (MachineState {
                delay_timer: if old(self).delay_timer > 0 {
                    (old(self).delay_timer - 1) as u8
                } else {
                    0
                },
                sound_timer: if old(self).sound_timer > 0 {
                    (old(self).sound_timer - 1) as u8
                } else {
                    0
                },
                ..old(self)@
            }),
    {
        if self.delay_timer > 0 {
            self.delay_timer -= 1;
        }
        if self.sound_timer > 0 {
            self.sound_timer -= 1;
        }
    }

    /// Records which key is held down, if any.
    pub fn set_key_pressed(&mut self, key: Option<u8>)
        requires
            key matches Some(k) ==> k < 16,
        ensures
            final(self)@ == (MachineState { key: key, ..old(self)@ }),
    {
        self.keyboard_input = key;
    }
}

} // verus!
